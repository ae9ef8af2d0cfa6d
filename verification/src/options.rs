//! The options resolver: merges built-in defaults, an optional file-based
//! configuration layer and the command-line layer into one immutable options
//! value for the render engine.

use vstd::prelude::*;
use vstd::string::StrSliceExecFns;
use vstd::string::StringExecFns;

verus! {

/// The engine's output format selector.
#[derive(Debug, Clone, Copy, PartialEq, Eq, Structural)]
pub enum OutputFormat {
    Html,
    Mathml,
    HtmlAndMathml,
}

/// A configuration fault: an unknown output format, or a macro argument
/// without the `name:body` separator.
#[derive(Debug)]
pub enum ConfigError {
    InvalidOutputType(String),
    MalformedMacro(String),
}

impl ConfigError {
    /// A readable diagnostic for the fault.
    pub fn message(&self) -> (r: String)
        ensures
            match self {
                ConfigError::InvalidOutputType(s) => r@ == "invalid katex output type "@ + s@,
                ConfigError::MalformedMacro(s) => r@ == "invalid macro entry "@ + s@,
            },
    {
        match self {
            ConfigError::InvalidOutputType(s) => {
                "invalid katex output type ".to_owned().concat(s.as_str())
            },
            ConfigError::MalformedMacro(s) => "invalid macro entry ".to_owned().concat(s.as_str()),
        }
    }
}

/// The resolved rendering options.
///
/// A field that is `None` was set by no layer and is left to the engine's own
/// default. The two sizes are carried as decimal text: the filter never
/// interprets them, it only hands them to the engine, and the verified code
/// holds no floating-point values.
#[derive(Debug)]
pub struct RenderOptions {
    pub output_type: Option<OutputFormat>,
    pub leqno: Option<bool>,
    pub fleqn: Option<bool>,
    pub throw_on_error: Option<bool>,
    pub error_color: Option<String>,
    pub min_rule_thickness: Option<String>,
    pub max_size: Option<String>,
    pub max_expand: Option<i32>,
    pub trust: Option<bool>,
    pub macros: Vec<(String, String)>,
}

/// The mathematical model of a resolved options value.
pub struct OptsModel {
    pub output_type: Option<OutputFormat>,
    pub leqno: Option<bool>,
    pub fleqn: Option<bool>,
    pub throw_on_error: Option<bool>,
    pub error_color: Option<Seq<char>>,
    pub min_rule_thickness: Option<Seq<char>>,
    pub max_size: Option<Seq<char>>,
    pub max_expand: Option<i32>,
    pub trust: Option<bool>,
    pub macros: Seq<(Seq<char>, Seq<char>)>,
}

/// The model of an optional text value.
pub open spec fn opt_str_model(o: Option<String>) -> Option<Seq<char>> {
    match o {
        Some(s) => Some(s@),
        None => None,
    }
}

/// The model of a macro list: each name and body as character sequences.
pub open spec fn macro_pairs_model(s: Seq<(String, String)>) -> Seq<(Seq<char>, Seq<char>)>
    decreases s,
{
    if s.len() == 0 {
        Seq::empty()
    } else {
        seq![(s[0].0@, s[0].1@)] + macro_pairs_model(s.subrange(1, s.len() as int))
    }
}

/// The model of a macro list pairs each name's characters with its body's.
pub proof fn lemma_macro_pairs_model(s: Seq<(String, String)>)
    ensures
        macro_pairs_model(s).len() == s.len(),
        forall|i: int| 0 <= i < s.len() ==> macro_pairs_model(s)[i] == (s[i].0@, s[i].1@),
    decreases s.len(),
{
    if s.len() > 0 {
        lemma_macro_pairs_model(s.subrange(1, s.len() as int));
    }
}

impl View for RenderOptions {
    type V = OptsModel;

    open spec fn view(&self) -> OptsModel {
        OptsModel {
            output_type: self.output_type,
            leqno: self.leqno,
            fleqn: self.fleqn,
            throw_on_error: self.throw_on_error,
            error_color: opt_str_model(self.error_color),
            min_rule_thickness: opt_str_model(self.min_rule_thickness),
            max_size: opt_str_model(self.max_size),
            max_expand: self.max_expand,
            trust: self.trust,
            macros: macro_pairs_model(self.macros@),
        }
    }
}

impl RenderOptions {
    /// The options value before any layer is applied: everything is left to
    /// the engine's defaults and no macro is defined.
    pub fn defaults() -> (r: RenderOptions)
        ensures
            r@ == spec_default_opts(),
    {
        let r = RenderOptions {
            output_type: None,
            leqno: None,
            fleqn: None,
            throw_on_error: None,
            error_color: None,
            min_rule_thickness: None,
            max_size: None,
            max_expand: None,
            trust: None,
            macros: Vec::new(),
        };
        r
    }
}

/// The model of the built-in default options.
pub open spec fn spec_default_opts() -> OptsModel {
    OptsModel {
        output_type: None,
        leqno: None,
        fleqn: None,
        throw_on_error: None,
        error_color: None,
        min_rule_thickness: None,
        max_size: None,
        max_expand: None,
        trust: None,
        macros: Seq::empty(),
    }
}

/// The file-based configuration layer: every recognized key, each optional.
/// The caller parses the file format itself and hands the plain values over.
pub struct FileConfig {
    pub output_type: Option<String>,
    pub leqno: Option<bool>,
    pub fleqn: Option<bool>,
    pub throw_on_error: Option<bool>,
    pub error_color: Option<String>,
    pub min_rule_thickness: Option<String>,
    pub max_size: Option<String>,
    pub max_expand: Option<i32>,
    pub trust: Option<bool>,
    pub macros: Vec<(String, String)>,
}

/// The command-line layer. A switch is a plain `bool`: present or absent,
/// so a switch can turn a flag on but never back off. The output format has
/// been validated by the argument parser already; each macro entry is still
/// raw `name:body` text.
pub struct CliConfig {
    pub output_type: Option<OutputFormat>,
    pub leqno: bool,
    pub fleqn: bool,
    pub throw_on_error: bool,
    pub error_color: Option<String>,
    pub min_rule_thickness: Option<String>,
    pub max_size: Option<String>,
    pub max_expand: Option<i32>,
    pub trust: bool,
    pub macros: Vec<String>,
}

/// The meaning of an output format name: one of the three recognized values,
/// or nothing.
pub open spec fn spec_parse_output_type(s: Seq<char>) -> Option<OutputFormat> {
    if s == "html"@ {
        Some(OutputFormat::Html)
    } else if s == "mathml"@ {
        Some(OutputFormat::Mathml)
    } else if s == "htmlAndMathml"@ {
        Some(OutputFormat::HtmlAndMathml)
    } else {
        None
    }
}

/// Reads an output format name; any value outside the closed enumeration is
/// a configuration error.
pub fn parse_output_type(input: &String) -> (r: Result<OutputFormat, ConfigError>)
    ensures
        match spec_parse_output_type(input@) {
            Some(t) => r matches Ok(got) && got == t,
            None => r matches Err(e) && (e matches ConfigError::InvalidOutputType(s) && s@
                == input@),
        },
{
    if *input == "html".to_owned() {
        Ok(OutputFormat::Html)
    } else if *input == "mathml".to_owned() {
        Ok(OutputFormat::Mathml)
    } else if *input == "htmlAndMathml".to_owned() {
        Ok(OutputFormat::HtmlAndMathml)
    } else {
        Err(ConfigError::InvalidOutputType(input.clone()))
    }
}

/// The position of the first separator in a macro entry, if any.
pub open spec fn spec_first_colon(s: Seq<char>) -> Option<int>
    decreases s,
{
    if s.len() == 0 {
        None
    } else if s[0] == ':' {
        Some(0)
    } else {
        match spec_first_colon(s.subrange(1, s.len() as int)) {
            Some(i) => Some(i + 1),
            None => None,
        }
    }
}

/// What a macro entry means: the text before the first separator names the
/// macro, the text after it is the body; an entry without a separator means
/// nothing.
pub open spec fn spec_split_macro(s: Seq<char>) -> Option<(Seq<char>, Seq<char>)> {
    match spec_first_colon(s) {
        None => None,
        Some(i) => Some((s.subrange(0, i), s.subrange(i + 1, s.len() as int))),
    }
}

/// If position `i` holds the first separator, that is where the split falls.
pub proof fn lemma_first_colon_at(s: Seq<char>, i: int)
    requires
        0 <= i < s.len(),
        s[i] == ':',
        forall|j: int| 0 <= j < i ==> s[j] != ':',
    ensures
        spec_first_colon(s) == Some(i),
    decreases i,
{
    if i == 0 {
    } else {
        let rest = s.subrange(1, s.len() as int);
        assert(s[0] != ':');
        lemma_first_colon_at(rest, i - 1);
    }
}

/// A text without a separator splits nowhere.
pub proof fn lemma_first_colon_absent(s: Seq<char>)
    requires
        forall|j: int| 0 <= j < s.len() ==> s[j] != ':',
    ensures
        spec_first_colon(s) is None,
    decreases s.len(),
{
    if s.len() > 0 {
        let rest = s.subrange(1, s.len() as int);
        assert(forall|j: int| 0 <= j < rest.len() ==> rest[j] == s[j + 1]);
        lemma_first_colon_absent(rest);
    }
}

/// Splits a raw `name:body` macro entry at its first separator; an entry
/// without one is a configuration error.
pub fn parse_macro_entry(entry: &String) -> (r: Result<(String, String), ConfigError>)
    ensures
        match spec_split_macro(entry@) {
            Some(pair) => r matches Ok(p) && p.0@ == pair.0 && p.1@ == pair.1,
            None => r matches Err(e) && (e matches ConfigError::MalformedMacro(m) && m@
                == entry@),
        },
{
    let text = entry.as_str();
    let n = text.unicode_len();
    let mut i: usize = 0;
    while i < n
        invariant
            i <= n,
            n == text@.len(),
            text@ == entry@,
            forall|j: int| 0 <= j < i ==> text@[j] != ':',
        decreases n - i,
    {
        if text.get_char(i) == ':' {
            proof {
                lemma_first_colon_at(entry@, i as int);
            }
            let name = text.substring_char(0, i).to_owned();
            let body = text.substring_char(i + 1, n).to_owned();
            return Ok((name, body));
        }
        i += 1;
    }
    proof {
        lemma_first_colon_absent(entry@);
    }
    Err(ConfigError::MalformedMacro(entry.clone()))
}

/// A resolver fault, in the model: the offending text of an unknown output
/// format, or of a macro entry without a separator.
pub enum ResolveFailure {
    BadOutputType(Seq<char>),
    BadMacro(Seq<char>),
}

/// The meaning of a raw command-line macro list: every entry split in order,
/// or the first entry that splits nowhere.
pub open spec fn spec_parse_macros(ms: Seq<String>) -> Result<
    Seq<(Seq<char>, Seq<char>)>,
    Seq<char>,
>
    decreases ms,
{
    if ms.len() == 0 {
        Ok(Seq::empty())
    } else {
        match spec_split_macro(ms[0]@) {
            None => Err(ms[0]@),
            Some(p) => match spec_parse_macros(ms.subrange(1, ms.len() as int)) {
                Ok(rest) => Ok(seq![p] + rest),
                Err(e) => Err(e),
            },
        }
    }
}

/// The output format text that the file layer names, if any.
pub open spec fn spec_file_output_text(f: FileConfig) -> Seq<char> {
    match f.output_type {
        Some(s) => s@,
        None => Seq::empty(),
    }
}

/// The file layer laid over a base: a field is overwritten only where the
/// file sets it, and the file's macros are appended.
pub open spec fn spec_apply_file(base: OptsModel, f: FileConfig) -> Result<
    OptsModel,
    ResolveFailure,
> {
    if f.output_type matches Some(s) && spec_parse_output_type(s@) is None {
        Err(ResolveFailure::BadOutputType(spec_file_output_text(f)))
    } else {
        Ok(
            OptsModel {
                output_type: match f.output_type {
                    Some(s) => spec_parse_output_type(s@),
                    None => base.output_type,
                },
                leqno: if f.leqno is Some {
                    f.leqno
                } else {
                    base.leqno
                },
                fleqn: if f.fleqn is Some {
                    f.fleqn
                } else {
                    base.fleqn
                },
                throw_on_error: if f.throw_on_error is Some {
                    f.throw_on_error
                } else {
                    base.throw_on_error
                },
                error_color: if f.error_color is Some {
                    opt_str_model(f.error_color)
                } else {
                    base.error_color
                },
                min_rule_thickness: if f.min_rule_thickness is Some {
                    opt_str_model(f.min_rule_thickness)
                } else {
                    base.min_rule_thickness
                },
                max_size: if f.max_size is Some {
                    opt_str_model(f.max_size)
                } else {
                    base.max_size
                },
                max_expand: if f.max_expand is Some {
                    f.max_expand
                } else {
                    base.max_expand
                },
                trust: if f.trust is Some {
                    f.trust
                } else {
                    base.trust
                },
                macros: base.macros + macro_pairs_model(f.macros@),
            },
        )
    }
}

/// The command-line layer laid over a base: an explicit value wins, a bare
/// switch can only turn its flag on, and the parsed macros are appended
/// after every earlier definition.
pub open spec fn spec_apply_cli(base: OptsModel, cli: CliConfig) -> Result<
    OptsModel,
    ResolveFailure,
> {
    match spec_parse_macros(cli.macros@) {
        Err(e) => Err(ResolveFailure::BadMacro(e)),
        Ok(pairs) => Ok(
            OptsModel {
                output_type: if cli.output_type is Some {
                    cli.output_type
                } else {
                    base.output_type
                },
                leqno: if cli.leqno {
                    Some(true)
                } else {
                    base.leqno
                },
                fleqn: if cli.fleqn {
                    Some(true)
                } else {
                    base.fleqn
                },
                throw_on_error: if cli.throw_on_error {
                    Some(true)
                } else {
                    base.throw_on_error
                },
                error_color: if cli.error_color is Some {
                    opt_str_model(cli.error_color)
                } else {
                    base.error_color
                },
                min_rule_thickness: if cli.min_rule_thickness is Some {
                    opt_str_model(cli.min_rule_thickness)
                } else {
                    base.min_rule_thickness
                },
                max_size: if cli.max_size is Some {
                    opt_str_model(cli.max_size)
                } else {
                    base.max_size
                },
                max_expand: if cli.max_expand is Some {
                    cli.max_expand
                } else {
                    base.max_expand
                },
                trust: if cli.trust {
                    Some(true)
                } else {
                    base.trust
                },
                macros: base.macros + pairs,
            },
        ),
    }
}

/// What resolving means: defaults, then the file layer, then the
/// command-line layer, each later layer taking precedence.
pub open spec fn spec_resolve(file: Option<FileConfig>, cli: CliConfig) -> Result<
    OptsModel,
    ResolveFailure,
> {
    let after_file = match file {
        None => Ok(spec_default_opts()),
        Some(f) => spec_apply_file(spec_default_opts(), f),
    };
    match after_file {
        Err(e) => Err(e),
        Ok(m) => spec_apply_cli(m, cli),
    }
}

/// Lays the file layer over a base options value.
#[verifier::loop_isolation(false)]
pub fn apply_file_layer(base: RenderOptions, f: FileConfig) -> (r: Result<
    RenderOptions,
    ConfigError,
>)
    ensures
        match spec_apply_file(base@, f) {
            Ok(m) => r matches Ok(o) && o@ == m,
            Err(fail) => fail matches ResolveFailure::BadOutputType(s) && (r matches Err(e) && (
            e matches ConfigError::InvalidOutputType(t) && t@ == s)),
        },
{
    let mut opts = base;
    if let Some(s) = &f.output_type {
        match parse_output_type(s) {
            Ok(t) => {
                opts.output_type = Some(t);
            },
            Err(e) => {
                return Err(e);
            },
        }
    }
    if let Some(b) = f.leqno {
        opts.leqno = Some(b);
    }
    if let Some(b) = f.fleqn {
        opts.fleqn = Some(b);
    }
    if let Some(b) = f.throw_on_error {
        opts.throw_on_error = Some(b);
    }
    if let Some(c) = f.error_color {
        opts.error_color = Some(c);
    }
    if let Some(c) = f.min_rule_thickness {
        opts.min_rule_thickness = Some(c);
    }
    if let Some(c) = f.max_size {
        opts.max_size = Some(c);
    }
    if let Some(v) = f.max_expand {
        opts.max_expand = Some(v);
    }
    if let Some(b) = f.trust {
        opts.trust = Some(b);
    }
    let ghost macros_before = opts.macros@;
    let mut extra = f.macros;
    let ghost extra0 = extra@;
    opts.macros.append(&mut extra);
    proof {
        lemma_macro_pairs_model_concat(macros_before, extra0);
    }
    Ok(opts)
}

/// Lays the command-line layer over a base options value.
#[verifier::loop_isolation(false)]
pub fn apply_cli_layer(base: RenderOptions, cli: CliConfig) -> (r: Result<
    RenderOptions,
    ConfigError,
>)
    ensures
        match spec_apply_cli(base@, cli) {
            Ok(m) => r matches Ok(o) && o@ == m,
            Err(fail) => fail matches ResolveFailure::BadMacro(s) && (r matches Err(e) && (
            e matches ConfigError::MalformedMacro(t) && t@ == s)),
        },
{
    let mut opts = base;
    if let Some(t) = cli.output_type {
        opts.output_type = Some(t);
    }
    if cli.leqno {
        opts.leqno = Some(true);
    }
    if cli.fleqn {
        opts.fleqn = Some(true);
    }
    if cli.throw_on_error {
        opts.throw_on_error = Some(true);
    }
    if let Some(c) = cli.error_color {
        opts.error_color = Some(c);
    }
    if let Some(c) = cli.min_rule_thickness {
        opts.min_rule_thickness = Some(c);
    }
    if let Some(c) = cli.max_size {
        opts.max_size = Some(c);
    }
    if let Some(v) = cli.max_expand {
        opts.max_expand = Some(v);
    }
    if cli.trust {
        opts.trust = Some(true);
    }
    let mut parsed = match parse_cli_macros(cli.macros) {
        Ok(v) => v,
        Err(e) => {
            return Err(e);
        },
    };
    let ghost parsed0 = parsed@;
    let ghost macros_before = opts.macros@;
    opts.macros.append(&mut parsed);
    proof {
        lemma_macro_pairs_model_concat(macros_before, parsed0);
    }
    Ok(opts)
}

/// Merges the built-in defaults, the optional file layer and the
/// command-line layer into one options value, lowest precedence first.
pub fn resolve_options(file: Option<FileConfig>, cli: CliConfig) -> (r: Result<
    RenderOptions,
    ConfigError,
>)
    ensures
        match spec_resolve(file, cli) {
            Ok(m) => r matches Ok(o) && o@ == m,
            Err(ResolveFailure::BadOutputType(s)) => r matches Err(e) && (
            e matches ConfigError::InvalidOutputType(t) && t@ == s),
            Err(ResolveFailure::BadMacro(s)) => r matches Err(e) && (
            e matches ConfigError::MalformedMacro(t) && t@ == s),
        },
{
    let defaults = RenderOptions::defaults();
    let after_file = match file {
        Some(f) => match apply_file_layer(defaults, f) {
            Ok(o) => o,
            Err(e) => {
                return Err(e);
            },
        },
        None => defaults,
    };
    match apply_cli_layer(after_file, cli) {
        Ok(o) => Ok(o),
        Err(e) => Err(e),
    }
}

/// Splits every raw command-line macro entry in order; the first entry
/// without a separator is a configuration error.
#[verifier::loop_isolation(false)]
pub fn parse_cli_macros(entries: Vec<String>) -> (r: Result<Vec<(String, String)>, ConfigError>)
    ensures
        match spec_parse_macros(entries@) {
            Ok(pairs) => r matches Ok(v) && macro_pairs_model(v@) == pairs,
            Err(s) => r matches Err(e) && (e matches ConfigError::MalformedMacro(m) && m@ == s),
        },
{
    let ghost raw = entries@;
    let ghost mut done: Seq<(Seq<char>, Seq<char>)> = Seq::empty();
    let mut out: Vec<(String, String)> = Vec::new();
    let mut rest = entries;
    proof {
        if let Ok(pairs) = spec_parse_macros(raw) {
            assert(done + pairs =~= pairs);
        }
        assert(macro_pairs_model(out@) == done);
    }
    while rest.len() > 0
        invariant
            macro_pairs_model(out@) == done,
            spec_parse_macros(raw) == match spec_parse_macros(rest@) {
                Ok(more) => Ok::<Seq<(Seq<char>, Seq<char>)>, Seq<char>>(done + more),
                Err(e) => Err::<Seq<(Seq<char>, Seq<char>)>, Seq<char>>(e),
            },
        decreases rest.len(),
    {
        let ghost rest_before = rest@;
        let entry = rest.remove(0);
        proof {
            assert(rest@ =~= rest_before.subrange(1, rest_before.len() as int));
        }
        match parse_macro_entry(&entry) {
            Ok(pair) => {
                let ghost out_before = out@;
                let ghost p = (pair.0@, pair.1@);
                out.push(pair);
                proof {
                    lemma_macro_pairs_model(out_before);
                    lemma_macro_pairs_model(out@);
                    assert(macro_pairs_model(out@) =~= macro_pairs_model(out_before).push(p));
                    if let Ok(more) = spec_parse_macros(rest@) {
                        assert(done.push(p) + more =~= done + (seq![p] + more));
                    }
                    done = done.push(p);
                }
            },
            Err(e) => {
                return Err(e);
            },
        }
    }
    proof {
        assert(done + Seq::<(Seq<char>, Seq<char>)>::empty() =~= done);
    }
    Ok(out)
}

/// The model of two macro lists laid end to end is the two models laid end
/// to end.
pub proof fn lemma_macro_pairs_model_concat(a: Seq<(String, String)>, b: Seq<(String, String)>)
    ensures
        macro_pairs_model(a + b) == macro_pairs_model(a) + macro_pairs_model(b),
    decreases a.len(),
{
    if a.len() == 0 {
        assert(a + b =~= b);
        assert(macro_pairs_model(a) + macro_pairs_model(b) =~= macro_pairs_model(b));
    } else {
        let t = a.subrange(1, a.len() as int);
        assert((a + b).subrange(1, (a + b).len() as int) =~= t + b);
        lemma_macro_pairs_model_concat(t, b);
        assert((a + b)[0] == a[0]);
        assert(seq![((a + b)[0].0@, (a + b)[0].1@)] + (macro_pairs_model(t) + macro_pairs_model(
            b,
        )) =~= (seq![(a[0].0@, a[0].1@)] + macro_pairs_model(t)) + macro_pairs_model(b));
    }
}

} // verus!
