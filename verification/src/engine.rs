//! The render collaborator: the KaTeX engine, reached through a small set of
//! trusted declarations. Everything the walker learns about rendering it
//! learns from the contracts in this module.

use vstd::prelude::*;
use crate::options::OptsModel;
use crate::options::OutputFormat;
use crate::options::RenderOptions;

verus! {

/// Relies on `katex::Opts`: the engine's own option record, carried here
/// only between the two helpers below.
#[verifier::external_type_specification]
#[verifier::external_body]
pub struct ExKatexOpts(katex::Opts);

/// Relies on `katex::OutputType`: the engine's own format selector.
#[verifier::external_type_specification]
#[verifier::external_body]
pub struct ExKatexOutputType(katex::OutputType);

/// What the engine returns for a TeX source, a display flag and an options
/// value: the rendered markup, or nothing where the engine reports an error.
/// The engine evaluates a fixed script on these inputs alone, so its outcome
/// is a function of them; nothing more is assumed about it.
pub uninterp spec fn spec_render(tex: Seq<char>, display: bool, opts: OptsModel) -> Option<
    Seq<char>,
>;

/// Relies on `katex::OutputType` having the same three selector values as
/// [`OutputFormat`]; this converts ours to the engine's, variant for variant.
#[verifier::external_body]
fn engine_output_type(t: OutputFormat) -> katex::OutputType {
    match t {
        OutputFormat::Html => katex::OutputType::Html,
        OutputFormat::Mathml => katex::OutputType::Mathml,
        OutputFormat::HtmlAndMathml => katex::OutputType::HtmlAndMathml,
    }
}

/// Relies on `katex::Opts::builder`: starts the engine's option record with
/// the macro table, the per-node display flag and the format selector; every
/// other field is filled by the two helpers below.
#[verifier::external_body]
fn engine_opts_base(opts: &RenderOptions, display: bool) -> katex::Opts {
    let macros: std::collections::HashMap<String, String> = opts.macros.iter().cloned().collect();
    let mut k = katex::Opts::builder().macros(macros).build().unwrap_or_default();
    k.set_display_mode(display);
    if let Some(v) = opts.output_type {
        k.set_output_type(engine_output_type(v));
    }
    k
}

/// Relies on the engine's flag setters: copies each switch that a layer set
/// explicitly; one left unset falls to the engine's default.
#[verifier::external_body]
fn engine_opts_flags(mut k: katex::Opts, opts: &RenderOptions) -> katex::Opts {
    if let Some(v) = opts.leqno {
        k.set_leqno(v);
    }
    if let Some(v) = opts.fleqn {
        k.set_fleqn(v);
    }
    if let Some(v) = opts.throw_on_error {
        k.set_throw_on_error(v);
    }
    if let Some(v) = opts.trust {
        k.set_trust(v);
    }
    k
}

/// Relies on the engine's value setters: copies the error colour, the two
/// sizes — decimal text, read as numbers only here, since verified code
/// holds no floating-point values — and the expansion limit.
#[verifier::external_body]
fn engine_opts_values(mut k: katex::Opts, opts: &RenderOptions) -> katex::Opts {
    if let Some(v) = &opts.error_color {
        k.set_error_color(v.clone());
    }
    if let Some(v) = &opts.min_rule_thickness {
        k.set_min_rule_thickness(v.parse().unwrap_or_default());
    }
    if let Some(v) = &opts.max_size {
        k.set_max_size(v.parse().ok());
    }
    if let Some(v) = opts.max_expand {
        k.set_max_expand(Some(v));
    }
    k
}

/// Relies on `katex::render_with_opts`: renders one TeX source under the
/// given options and display flag. The engine is an embedded script engine
/// evaluating a fixed script, pure in its visible inputs, so the outcome is
/// the one that `spec_render` names.
#[verifier::external_body]
pub(crate) fn render_tex(tex: &str, display: bool, opts: &RenderOptions) -> (r: Result<
    String,
    String,
>)
    ensures
        match spec_render(tex@, display, opts@) {
            Some(h) => r matches Ok(s) && s@ == h,
            None => r is Err,
        },
{
    let k = engine_opts_values(engine_opts_flags(engine_opts_base(opts, display), opts), opts);
    katex::render_with_opts(tex, k).map_err(|e| format!("{}", e))
}

} // verus!
