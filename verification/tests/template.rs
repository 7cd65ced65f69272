use cmdproxy::error::ErrorKind;
use cmdproxy::template::{is_specified, render, template_result, FaultKind, TemplateFault};

fn vars(pairs: &[(&str, &str)]) -> Vec<(String, String)> {
    pairs.iter().map(|(k, v)| (k.to_string(), v.to_string())).collect()
}

#[test]
fn render_fills_named_placeholders() {
    let out = render("cat {i} > {o}", &vars(&[("i", "/tmp/a"), ("o", "/tmp/b")])).unwrap();
    assert_eq!(out, "cat /tmp/a > /tmp/b");
}

#[test]
fn render_without_placeholders_gives_the_text() {
    assert_eq!(render("echo hi", &vars(&[])).unwrap(), "echo hi");
    assert_eq!(render("", &vars(&[("x", "y")])).unwrap(), "");
}

#[test]
fn render_repeats_a_placeholder() {
    assert_eq!(render("{x}{x}-{x}", &vars(&[("x", "ab")])).unwrap(), "abab-ab");
}

#[test]
fn render_takes_the_later_of_two_bindings() {
    assert_eq!(render("{x}", &vars(&[("x", "first"), ("x", "second")])).unwrap(), "second");
}

#[test]
fn render_leaves_no_known_placeholder() {
    let out = render("echo {p} and {q}", &vars(&[("p", "1"), ("q", "2")])).unwrap();
    assert!(!out.contains("{p}"));
    assert!(!out.contains("{q}"));
    assert_eq!(out, "echo 1 and 2");
}

#[test]
fn render_keeps_escaped_braces() {
    assert_eq!(render("{{x}} {x}", &vars(&[("x", "v")])).unwrap(), "{x} v");
    assert_eq!(render("awk '{{print $1: $2}}'", &vars(&[])).unwrap(), "awk '{print $1: $2}'");
}

#[test]
fn render_refuses_an_unknown_name() {
    let e = render("{missing}", &vars(&[("x", "v")])).unwrap_err();
    assert_eq!(e.kind, ErrorKind::Template);
    assert_eq!(
        e.to_string(),
        "cannot render template `{missing}': KeyError(Invalid key: missing)"
    );
}

#[test]
fn render_refuses_an_open_placeholder() {
    let e = render("echo {x", &vars(&[("x", "v")])).unwrap_err();
    assert_eq!(e.kind, ErrorKind::Template);
    assert_eq!(
        e.to_string(),
        "cannot render template `echo {x': Invalid(Expected '}' before end of string)"
    );
}

#[test]
fn render_refuses_a_format_specification() {
    let e = render("{x:>10}", &vars(&[("x", "v")])).unwrap_err();
    assert_eq!(e.kind, ErrorKind::Template);
    assert_eq!(
        e.to_string(),
        "cannot render template `{x:>10}': a placeholder holds a format specification"
    );
}

#[test]
fn a_colon_counts_only_behind_a_name_in_a_placeholder() {
    assert!(!is_specified("http://host/{x}"));
    assert!(!is_specified("{{a:b}}"));
    assert!(!is_specified("{x} : {y}"));
    assert!(!is_specified(""));
    assert!(is_specified("{x:5}"));
    assert!(is_specified("{x}{y:>9}"));
    assert!(is_specified("}}{x:>9}"));
    assert_eq!(render("http://host/{x}", &vars(&[("x", "p")])).unwrap(), "http://host/p");
    assert_eq!(render("{{x:>9}}", &vars(&[("x", "p")])).unwrap(), "{x:>9}");
}

#[test]
fn a_brace_behind_a_lone_closing_brace_is_escaped_inside_a_placeholder() {
    // the placeholder opens behind the lone brace, takes the next brace for
    // the twin of the lone one, and ends at the last: its name is `}a`
    assert!(is_specified("}{}a:>9}"));
    let e = render("}{}a:>9}", &vars(&[("}a", "v")])).unwrap_err();
    assert_eq!(
        e.to_string(),
        "cannot render template `}{}a:>9}': a placeholder holds a format specification"
    );
    assert!(!is_specified("}{}a}"));
    assert_eq!(render("}{}a}", &vars(&[("}a", "v")])).unwrap(), "}v");
}

#[test]
fn no_specification_is_read_behind_the_point_where_reading_ends() {
    let bound = vars(&[("x", "v"), ("b", "w")]);
    for (tmpl, words) in [
        ("{:}", "Invalid(must specify identifier)"),
        ("{:>9}", "Invalid(must specify identifier)"),
        ("{}{x:>9}", "Invalid(must specify identifier)"),
        ("a {b} {x:d", "Invalid(Expected '}' before end of string)"),
        ("{x{y:>9}", "Invalid(extra { found)"),
        ("} {x:>9}", "Invalid(Single '}' encountered in format string)"),
        ("{x}}:{x:>9}", "Invalid(Single '}' encountered in format string)"),
        ("}{{x:>9}", "Invalid(Single '}' encountered in format string)"),
    ] {
        assert!(!is_specified(tmpl), "{}", tmpl);
        let e = render(tmpl, &bound).unwrap_err();
        assert_eq!(e.kind, ErrorKind::Template);
        assert_eq!(e.to_string(), format!("cannot render template `{}': {}", tmpl, words));
    }
}

#[test]
fn template_result_words_each_fault() {
    assert_eq!(template_result("t", Ok("done".to_string())).unwrap(), "done");
    for (kind, word) in [
        (FaultKind::Invalid, "Invalid"),
        (FaultKind::KeyError, "KeyError"),
        (FaultKind::TypeError, "TypeError"),
    ] {
        let fault = TemplateFault { kind, detail: "why".to_string() };
        let e = template_result("t", Err(fault)).unwrap_err();
        assert_eq!(e.kind, ErrorKind::Template);
        assert_eq!(e.to_string(), format!("cannot render template `t': {}(why)", word));
    }
}
