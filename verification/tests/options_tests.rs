use pandoc_katex::options::CliConfig;
use pandoc_katex::options::ConfigError;
use pandoc_katex::options::FileConfig;
use pandoc_katex::options::OutputFormat;
use pandoc_katex::options::parse_macro_entry;
use pandoc_katex::options::parse_output_type;
use pandoc_katex::options::resolve_options;

fn empty_cli() -> CliConfig {
    CliConfig {
        output_type: None,
        leqno: false,
        fleqn: false,
        throw_on_error: false,
        error_color: None,
        min_rule_thickness: None,
        max_size: None,
        max_expand: None,
        trust: false,
        macros: Vec::new(),
    }
}

fn empty_file() -> FileConfig {
    FileConfig {
        output_type: None,
        leqno: None,
        fleqn: None,
        throw_on_error: None,
        error_color: None,
        min_rule_thickness: None,
        max_size: None,
        max_expand: None,
        trust: None,
        macros: Vec::new(),
    }
}

fn effective_macro(macros: &[(String, String)], name: &str) -> Option<String> {
    let mut found = None;
    for (n, b) in macros {
        if n == name {
            found = Some(b.clone());
        }
    }
    found
}

#[test]
fn output_type_accepts_the_three_formats() {
    assert_eq!(
        parse_output_type(&"html".to_string()).unwrap(),
        OutputFormat::Html
    );
    assert_eq!(
        parse_output_type(&"mathml".to_string()).unwrap(),
        OutputFormat::Mathml
    );
    assert_eq!(
        parse_output_type(&"htmlAndMathml".to_string()).unwrap(),
        OutputFormat::HtmlAndMathml
    );
}

#[test]
fn output_type_rejects_anything_else() {
    let err = parse_output_type(&"xml".to_string()).unwrap_err();
    assert!(matches!(err, ConfigError::InvalidOutputType(ref s) if s == "xml"));
    assert!(parse_output_type(&"HTML".to_string()).is_err());
    assert!(parse_output_type(&"".to_string()).is_err());
}

#[test]
fn macro_entry_splits_at_first_colon() {
    let (name, body) = parse_macro_entry(&"\\RR:\\mathbb{R}".to_string()).unwrap();
    assert_eq!(name, "\\RR");
    assert_eq!(body, "\\mathbb{R}");
    let (name, body) = parse_macro_entry(&"a:b:c".to_string()).unwrap();
    assert_eq!(name, "a");
    assert_eq!(body, "b:c");
    let (name, body) = parse_macro_entry(&":x".to_string()).unwrap();
    assert_eq!(name, "");
    assert_eq!(body, "x");
}

#[test]
fn macro_entry_without_separator_is_an_error() {
    let err = parse_macro_entry(&"nocolon".to_string()).unwrap_err();
    assert!(matches!(err, ConfigError::MalformedMacro(ref s) if s == "nocolon"));
    let msg = err.message();
    assert!(msg.contains("nocolon"));
}

#[test]
fn defaults_resolve_to_all_unset() {
    let opts = resolve_options(None, empty_cli()).unwrap();
    assert_eq!(opts.output_type, None);
    assert_eq!(opts.leqno, None);
    assert_eq!(opts.fleqn, None);
    assert_eq!(opts.throw_on_error, None);
    assert_eq!(opts.error_color, None);
    assert_eq!(opts.min_rule_thickness, None);
    assert_eq!(opts.max_size, None);
    assert_eq!(opts.max_expand, None);
    assert_eq!(opts.trust, None);
    assert!(opts.macros.is_empty());
}

#[test]
fn file_layer_sets_what_it_names() {
    let mut file = empty_file();
    file.output_type = Some("mathml".to_string());
    file.leqno = Some(true);
    file.error_color = Some("#ff0000".to_string());
    file.max_expand = Some(32);
    let opts = resolve_options(Some(file), empty_cli()).unwrap();
    assert_eq!(opts.output_type, Some(OutputFormat::Mathml));
    assert_eq!(opts.leqno, Some(true));
    assert_eq!(opts.error_color, Some("#ff0000".to_string()));
    assert_eq!(opts.max_expand, Some(32));
    assert_eq!(opts.fleqn, None);
}

#[test]
fn bad_file_output_type_is_a_hard_error() {
    let mut file = empty_file();
    file.output_type = Some("plaintext".to_string());
    let err = resolve_options(Some(file), empty_cli()).unwrap_err();
    assert!(matches!(err, ConfigError::InvalidOutputType(ref s) if s == "plaintext"));
}

#[test]
fn cli_layer_overrides_the_file_layer() {
    let mut file = empty_file();
    file.output_type = Some("mathml".to_string());
    file.error_color = Some("#ff0000".to_string());
    file.min_rule_thickness = Some("0.04".to_string());
    let mut cli = empty_cli();
    cli.output_type = Some(OutputFormat::Html);
    cli.error_color = Some("#00ff00".to_string());
    let opts = resolve_options(Some(file), cli).unwrap();
    assert_eq!(opts.output_type, Some(OutputFormat::Html));
    assert_eq!(opts.error_color, Some("#00ff00".to_string()));
    assert_eq!(opts.min_rule_thickness, Some("0.04".to_string()));
}

#[test]
fn a_switch_turns_a_flag_on_but_never_off() {
    let mut file = empty_file();
    file.leqno = Some(true);
    file.fleqn = Some(false);
    let mut cli = empty_cli();
    cli.fleqn = false;
    cli.trust = true;
    let opts = resolve_options(Some(file), cli).unwrap();
    assert_eq!(opts.leqno, Some(true));
    assert_eq!(opts.fleqn, Some(false));
    assert_eq!(opts.trust, Some(true));
}

#[test]
fn cli_macro_overrides_file_macro_of_the_same_name() {
    let mut file = empty_file();
    file.macros = vec![("\\A".to_string(), "x".to_string())];
    let mut cli = empty_cli();
    cli.macros = vec!["\\A:y".to_string()];
    let opts = resolve_options(Some(file), cli).unwrap();
    assert_eq!(effective_macro(&opts.macros, "\\A"), Some("y".to_string()));
}

#[test]
fn file_macros_without_a_cli_rival_survive() {
    let mut file = empty_file();
    file.macros = vec![
        ("\\A".to_string(), "x".to_string()),
        ("\\B".to_string(), "z".to_string()),
    ];
    let mut cli = empty_cli();
    cli.macros = vec!["\\A:y".to_string()];
    let opts = resolve_options(Some(file), cli).unwrap();
    assert_eq!(effective_macro(&opts.macros, "\\A"), Some("y".to_string()));
    assert_eq!(effective_macro(&opts.macros, "\\B"), Some("z".to_string()));
}

#[test]
fn malformed_cli_macro_is_a_hard_error() {
    let mut cli = empty_cli();
    cli.macros = vec!["\\A:y".to_string(), "broken".to_string()];
    let err = resolve_options(None, cli).unwrap_err();
    assert!(matches!(err, ConfigError::MalformedMacro(ref s) if s == "broken"));
}
