use oxc_dom_expressions::html_subset_parser::{parse, HtmlNode};
use oxc_dom_expressions::template_minimalizer::{can_omit_quotes, minimalize_template, serialize_html, serialize_node};
use oxc_dom_expressions::DomExpressionsOptions;

fn opts(omit_quotes: bool, omit_last_closing_tag: bool) -> DomExpressionsOptions {
    let mut options = DomExpressionsOptions::default();
    options.omit_quotes = omit_quotes;
    options.omit_last_closing_tag = omit_last_closing_tag;
    options
}

#[test]
fn test_can_omit_quotes() {
    assert!(can_omit_quotes("main"));
    assert!(can_omit_quotes("my-class"));
    assert!(can_omit_quotes("some_value"));
    assert!(can_omit_quotes("file.txt"));
    assert!(can_omit_quotes("namespace:attr"));

    assert!(!can_omit_quotes(""));
    assert!(!can_omit_quotes("has space"));
    assert!(!can_omit_quotes("has\"quote"));
    assert!(!can_omit_quotes("has'quote"));
}

#[test]
fn test_minimalize_with_quote_omission() {
    let html = r#"<div id="main"></div>"#;
    let result = minimalize_template(html, &opts(true, false));
    assert_eq!(result, "<div id=main></div>");
}

#[test]
fn test_minimalize_with_closing_tag_omission() {
    let html = r#"<div><span></span></div>"#;
    let result = minimalize_template(html, &opts(false, true));
    assert_eq!(result, r#"<div><span>"#);
}

#[test]
fn test_minimalize_nested_with_text() {
    let html = r#"<div><div><button><span>0</span></button></div></div>"#;
    let result = minimalize_template(html, &opts(false, true));
    assert!(result.contains("0"));
    assert_eq!(result, r#"<div><div><button><span>0"#);
}

#[test]
fn test_minimalize_noscript_mixed_content() {
    let html = r#"<div><noscript>No JS!!<style>div</style></noscript></div>"#;
    let result = minimalize_template(html, &opts(false, true));
    assert_eq!(result, r#"<div><noscript>"#);
}

#[test]
fn test_minimalize_without_options_keeps_template() {
    let html = r#"<div id="a b" class="x"><span>1</span><!><img src="p.png"><p>t</p></div>"#;
    assert_eq!(minimalize_template(html, &opts(false, false)), html);
}

#[test]
fn test_minimalize_only_last_path_loses_closing_tags() {
    let html = r#"<ul><li>a</li><li><b>b</b></li></ul>"#;
    assert_eq!(minimalize_template(html, &opts(false, true)), "<ul><li>a</li><li><b>b");
    let quoted = r#"<a href="/x y" title="t">k</a>"#;
    assert_eq!(minimalize_template(quoted, &opts(true, true)), r#"<a href="/x y" title=t>k"#);
}

#[test]
fn test_parse_nodes() {
    let nodes = parse(r#"<div id="x" hidden>hi<!><br></div>"#);
    assert_eq!(
        nodes,
        vec![HtmlNode::Element {
            tag: "div".to_string(),
            attributes: vec![("id".to_string(), "x".to_string()), ("hidden".to_string(), String::new())],
            children: vec![
                HtmlNode::Text("hi".to_string()),
                HtmlNode::Marker,
                HtmlNode::Element { tag: "br".to_string(), attributes: vec![], children: vec![], is_void: true },
            ],
            is_void: false,
        }]
    );
}

#[test]
fn test_serialize_node_and_list() {
    let node = HtmlNode::Element {
        tag: "p".to_string(),
        attributes: vec![("class".to_string(), "a".to_string())],
        children: vec![HtmlNode::Text("x".to_string())],
        is_void: false,
    };
    assert_eq!(serialize_node(&node, &opts(true, true), true, true), "<p class=a>x");
    assert_eq!(serialize_node(&node, &opts(true, true), false, true), "<p class=a>x</p>");
    assert_eq!(serialize_node(&HtmlNode::Marker, &opts(true, true), true, true), "<!>");
    let list = vec![HtmlNode::Text("a".to_string()), node];
    assert_eq!(serialize_html(&list, &opts(false, true), true), "a<p class=\"a\">x");
}
