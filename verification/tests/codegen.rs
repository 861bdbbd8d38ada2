use oxc_dom_expressions::codegen::generate_template_transformation;
use oxc_dom_expressions::template::{DynamicSlot, SlotType, Template};
use oxc_dom_expressions::codegen::{
    generate_clone_code, generate_element_ref, generate_event_handler_code, generate_insert_code,
    generate_set_attribute_code,
};
use oxc_dom_expressions::DomExpressionsOptions;

#[test]
fn test_generate_clone_code() {
    let code = generate_clone_code("_tmpl", "_el");
    assert_eq!(code, "const _el = _tmpl$.cloneNode(true)");
}

#[test]
fn test_generate_element_ref() {
    assert_eq!(generate_element_ref("_el$", &[]), "_el$");
    assert_eq!(
        generate_element_ref("_el$", &["firstChild".to_string()]),
        "_el$.firstChild"
    );
    assert_eq!(
        generate_element_ref("_el$", &["firstChild".to_string(), "nextSibling".to_string()]),
        "_el$.firstChild.nextSibling"
    );
}

#[test]
fn test_generate_insert_code() {
    let options = DomExpressionsOptions::default();
    let code = generate_insert_code(&options, "_el$", "count");
    assert_eq!(code, "insert(_el$, count)");
}

#[test]
fn test_generate_event_handler_code_copies_handler() {
    assert_eq!(generate_event_handler_code("_el$", "Input", "clickHandler", true), "_el$.$$input = clickHandler");
    assert_eq!(
        generate_event_handler_code("_el$", "Input", "clickHandler", false),
        "_el$.addEventListener(\"input\", clickHandler)"
    );
    assert_eq!(generate_event_handler_code("_el$", "Click", "handler", true), "_el$.$$click = handler");
}

#[test]
fn test_template_transformation_names_the_event() {
    let template = Template {
        html: "<div>".to_string(),
        dynamic_slots: vec![DynamicSlot {
            path: vec![],
            slot_type: SlotType::EventHandler("Input".to_string()),
            marker_path: None,
        }],
    };
    let code = generate_template_transformation(&template, "_tmpl", &DomExpressionsOptions::default());
    assert_eq!(
        code,
        "(() => {\n  const _el$ = _tmpl$.cloneNode(true);\n  _el$.$$input = {/* handler */};\n  return _el$;\n})()"
    );
}
