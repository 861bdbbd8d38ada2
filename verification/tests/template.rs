use oxc_dom_expressions::jsx::{ExprKind, JsxAttrItem, JsxAttrName, JsxAttrValue, JsxChild, JsxElement, JsxElementName, JsxExpr};
use oxc_dom_expressions::template::{build_template, build_template_with_options, DynamicSlot, SlotType};
use oxc_dom_expressions::DomExpressionsOptions;

fn el(tag: &str, attributes: Vec<JsxAttrItem>, children: Vec<JsxChild>) -> JsxElement {
    JsxElement { name: JsxElementName::Ident(tag.to_string()), attributes, children }
}

fn child(e: JsxElement) -> JsxChild {
    JsxChild::Element(Box::new(e))
}

fn name_of(n: &str, id: usize) -> JsxExpr {
    JsxExpr { kind: ExprKind::Ident(n.to_string()), id }
}

fn path(steps: &[&str]) -> Vec<String> {
    steps.iter().map(|s| s.to_string()).collect()
}

#[test]
fn test_module_example_slot_leads_to_span() {
    // <div class="container">
    //   <span>{message}</span>
    // </div>
    let class = JsxAttrItem::Attribute {
        name: JsxAttrName::Ident("class".to_string()),
        value: Some(JsxAttrValue::Str("container".to_string())),
    };
    let e = el(
        "div",
        vec![class],
        vec![
            JsxChild::Text("\n  ".to_string()),
            child(el("span", vec![], vec![JsxChild::Container(name_of("message", 1))])),
            JsxChild::Text("\n".to_string()),
        ],
    );
    let expected_slots =
        vec![DynamicSlot { path: path(&["firstChild"]), slot_type: SlotType::TextContent, marker_path: None }];
    let standard = build_template(&e);
    assert_eq!(standard.html, "<div class=\"container\"><span></span></div>");
    assert_eq!(standard.dynamic_slots, expected_slots);
    let mut options = DomExpressionsOptions::default();
    options.omit_quotes = false;
    let minimal = build_template_with_options(&e, Some(&options));
    assert_eq!(minimal.html, "<div class=\"container\"><span>");
    assert_eq!(minimal.dynamic_slots, expected_slots);
}

#[test]
fn test_nested_slot_paths_lead_from_the_root() {
    // <div><span><b onClick={f}></b></span></div>
    let on_click = JsxAttrItem::Attribute {
        name: JsxAttrName::Ident("onClick".to_string()),
        value: Some(JsxAttrValue::Container(name_of("f", 1))),
    };
    let e = el("div", vec![], vec![child(el("span", vec![], vec![child(el("b", vec![on_click], vec![]))]))]);
    let t = build_template(&e);
    assert_eq!(t.html, "<div><span><b></b></span></div>");
    assert_eq!(
        t.dynamic_slots,
        vec![DynamicSlot {
            path: path(&["firstChild", "firstChild"]),
            slot_type: SlotType::EventHandler("Click".to_string()),
            marker_path: None,
        }]
    );
}

#[test]
fn test_nested_text_marker_leads_from_the_root() {
    // <div><p>a{x}b</p></div>: the marker inside <p> is reached through <p>
    let e = el(
        "div",
        vec![],
        vec![child(el(
            "p",
            vec![],
            vec![JsxChild::Text("a".to_string()), JsxChild::Container(name_of("x", 1)), JsxChild::Text("b".to_string())],
        ))],
    );
    let t = build_template(&e);
    assert_eq!(t.html, "<div><p>a<!>b</p></div>");
    assert_eq!(
        t.dynamic_slots,
        vec![DynamicSlot {
            path: path(&["firstChild"]),
            slot_type: SlotType::TextContent,
            marker_path: Some(path(&["firstChild", "firstChild", "nextSibling"])),
        }]
    );
}
