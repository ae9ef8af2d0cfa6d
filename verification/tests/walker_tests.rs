use pandoc_katex::DocValue;
use pandoc_katex::options::CliConfig;
use pandoc_katex::options::OutputFormat;
use pandoc_katex::options::RenderOptions;
use pandoc_katex::options::resolve_options;
use pandoc_katex::walker::RewriteError;
use pandoc_katex::walker::rewrite;

fn default_opts() -> RenderOptions {
    resolve_options(
        None,
        CliConfig {
            output_type: None,
            leqno: false,
            fleqn: false,
            throw_on_error: false,
            error_color: None,
            min_rule_thickness: None,
            max_size: None,
            max_expand: None,
            trust: false,
            macros: Vec::new(),
        },
    )
    .unwrap()
}

fn math_node(style: &str, tex: &str) -> DocValue {
    DocValue::Obj(vec![
        ("t".to_string(), DocValue::Str("Math".to_string())),
        (
            "c".to_string(),
            DocValue::Arr(vec![
                DocValue::Obj(vec![("t".to_string(), DocValue::Str(style.to_string()))]),
                DocValue::Str(tex.to_string()),
            ]),
        ),
    ])
}

fn plain_document() -> DocValue {
    DocValue::Arr(vec![
        DocValue::Null,
        DocValue::Bool(true),
        DocValue::Num("42".to_string()),
        DocValue::Str("Math".to_string()),
        DocValue::Obj(vec![
            ("t".to_string(), DocValue::Str("Para".to_string())),
            (
                "c".to_string(),
                DocValue::Arr(vec![DocValue::Str("hello".to_string())]),
            ),
        ]),
    ])
}

fn rendered_html(doc: &DocValue) -> &str {
    match doc {
        DocValue::Obj(fields) => {
            assert_eq!(fields.len(), 2);
            assert_eq!(fields[0].0, "t");
            assert_eq!(fields[0].1, DocValue::Str("RawInline".to_string()));
            assert_eq!(fields[1].0, "c");
            match &fields[1].1 {
                DocValue::Arr(pair) => {
                    assert_eq!(pair.len(), 2);
                    assert_eq!(pair[0], DocValue::Str("html".to_string()));
                    match &pair[1] {
                        DocValue::Str(s) => s,
                        other => panic!("rendered content is not a string: {:?}", other),
                    }
                },
                other => panic!("content is not a pair: {:?}", other),
            }
        },
        other => panic!("not a raw HTML node: {:?}", other),
    }
}

#[test]
fn a_document_without_math_comes_back_unchanged() {
    let out = rewrite(plain_document(), &default_opts()).unwrap();
    assert_eq!(out, plain_document());
}

#[test]
fn scalars_come_back_unchanged() {
    let opts = default_opts();
    assert_eq!(rewrite(DocValue::Null, &opts).unwrap(), DocValue::Null);
    assert_eq!(
        rewrite(DocValue::Num("7".to_string()), &opts).unwrap(),
        DocValue::Num("7".to_string())
    );
    assert_eq!(
        rewrite(DocValue::Str("x^2".to_string()), &opts).unwrap(),
        DocValue::Str("x^2".to_string())
    );
}

#[test]
fn an_inline_math_node_becomes_a_raw_html_node() {
    let out = rewrite(math_node("InlineMath", "x^2"), &default_opts()).unwrap();
    let html = rendered_html(&out);
    assert!(!html.is_empty());
    assert!(html.contains("<span"));
    assert_ne!(html, "x^2");
    assert!(!html.contains("katex-display"));
}

#[test]
fn a_display_math_node_renders_in_display_mode() {
    let out = rewrite(math_node("DisplayMath", "x^2"), &default_opts()).unwrap();
    let html = rendered_html(&out);
    assert!(html.contains("katex-display"));
}

#[test]
fn an_unknown_style_renders_inline() {
    let out = rewrite(math_node("SidewaysMath", "x^2"), &default_opts()).unwrap();
    let html = rendered_html(&out);
    assert!(!html.contains("katex-display"));
}

#[test]
fn extra_fields_of_a_math_node_do_not_survive() {
    let doc = DocValue::Obj(vec![
        ("extra".to_string(), DocValue::Str("kept?".to_string())),
        ("t".to_string(), DocValue::Str("Math".to_string())),
        (
            "c".to_string(),
            DocValue::Arr(vec![
                DocValue::Obj(vec![(
                    "t".to_string(),
                    DocValue::Str("InlineMath".to_string()),
                )]),
                DocValue::Str("x".to_string()),
            ]),
        ),
    ]);
    let out = rewrite(doc, &default_opts()).unwrap();
    let _ = rendered_html(&out);
}

#[test]
fn math_nodes_are_rewritten_wherever_they_sit() {
    let doc = DocValue::Obj(vec![(
        "body".to_string(),
        DocValue::Arr(vec![
            DocValue::Str("before".to_string()),
            math_node("InlineMath", "a+b"),
        ]),
    )]);
    let out = rewrite(doc, &default_opts()).unwrap();
    match out {
        DocValue::Obj(fields) => match &fields[0].1 {
            DocValue::Arr(items) => {
                assert_eq!(items[0], DocValue::Str("before".to_string()));
                let _ = rendered_html(&items[1]);
            },
            other => panic!("unexpected shape: {:?}", other),
        },
        other => panic!("unexpected shape: {:?}", other),
    }
}

#[test]
fn a_math_node_without_a_source_fails() {
    let doc = DocValue::Obj(vec![
        ("t".to_string(), DocValue::Str("Math".to_string())),
        (
            "c".to_string(),
            DocValue::Arr(vec![DocValue::Obj(vec![(
                "t".to_string(),
                DocValue::Str("InlineMath".to_string()),
            )])]),
        ),
    ]);
    let err = rewrite(doc, &default_opts()).unwrap_err();
    assert!(matches!(err, RewriteError::Schema(_)));
}

#[test]
fn a_math_node_without_content_fails() {
    let doc = DocValue::Obj(vec![(
        "t".to_string(),
        DocValue::Str("Math".to_string()),
    )]);
    let err = rewrite(doc, &default_opts()).unwrap_err();
    assert!(matches!(err, RewriteError::Schema(_)));
}

#[test]
fn a_math_node_with_a_scalar_source_fails() {
    let doc = DocValue::Obj(vec![
        ("t".to_string(), DocValue::Str("Math".to_string())),
        (
            "c".to_string(),
            DocValue::Arr(vec![
                DocValue::Obj(vec![(
                    "t".to_string(),
                    DocValue::Str("InlineMath".to_string()),
                )]),
                DocValue::Num("3".to_string()),
            ]),
        ),
    ]);
    let err = rewrite(doc, &default_opts()).unwrap_err();
    assert!(matches!(err, RewriteError::Schema(_)));
}

#[test]
fn an_invalid_source_is_a_render_error() {
    let err = rewrite(math_node("InlineMath", "\\frac{"), &default_opts()).unwrap_err();
    assert!(matches!(err, RewriteError::Render(_)));
}

#[test]
fn a_custom_macro_reaches_the_engine() {
    let without = rewrite(math_node("InlineMath", "\\RR"), &default_opts());
    assert!(without.is_err());
    let mut opts = default_opts();
    opts.macros
        .push(("\\RR".to_string(), "\\mathbb{R}".to_string()));
    let out = rewrite(math_node("InlineMath", "\\RR"), &opts).unwrap();
    assert!(!rendered_html(&out).is_empty());
}

#[test]
fn the_output_format_selector_reaches_the_engine() {
    let mut html_only = default_opts();
    html_only.output_type = Some(OutputFormat::Html);
    let out = rewrite(math_node("InlineMath", "x"), &html_only).unwrap();
    assert!(!rendered_html(&out).contains("<math"));
    let mut mathml = default_opts();
    mathml.output_type = Some(OutputFormat::Mathml);
    let out = rewrite(math_node("InlineMath", "x"), &mathml).unwrap();
    assert!(rendered_html(&out).contains("<math"));
}

#[test]
fn a_deeply_nested_array_of_empty_objects_survives() {
    let depth = 10_000;
    let build = || {
        let mut v = DocValue::Obj(Vec::new());
        for _ in 0..depth {
            v = DocValue::Arr(vec![v]);
        }
        v
    };
    let out = rewrite(build(), &default_opts()).unwrap();
    assert_eq!(out, build());
}
