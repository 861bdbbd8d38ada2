use oxc_dom_expressions::utils::{
    decode_html_entities, get_event_name, get_prefix_event_name, get_prefixed_name, is_attr_attribute,
    is_bool_attribute, is_class_list_binding, is_class_name_binding, is_component, is_event_handler,
    is_html_element, is_on_capture_event, is_on_prefix_event, is_prop_attribute, is_ref_binding,
    is_special_binding, is_style_binding, is_style_property, is_use_directive, is_void_element,
    should_delegate_event,
};

#[test]
fn test_is_html_element() {
    assert!(is_html_element("div"));
    assert!(is_html_element("span"));
    assert!(is_html_element("custom-element"));
    assert!(!is_html_element("MyComponent"));
    assert!(!is_html_element("Component"));
}

#[test]
fn test_lowercase_tags_with_digits_are_html_elements() {
    for tag in ["h1", "h2", "h3", "h4", "h5", "h6", "my-element2"] {
        assert!(is_html_element(tag));
    }
    assert!(!is_html_element("H1"));
}

#[test]
fn test_is_component() {
    assert!(is_component("MyComponent"));
    assert!(is_component("Component"));
    assert!(!is_component("div"));
    assert!(!is_component("span"));
}

#[test]
fn test_is_event_handler() {
    assert!(is_event_handler("onClick"));
    assert!(is_event_handler("onChange"));
    assert!(!is_event_handler("class"));
    assert!(!is_event_handler("ref"));
}

#[test]
fn test_get_event_name() {
    assert_eq!(get_event_name("onClick"), Some("Click"));
    assert_eq!(get_event_name("onChange"), Some("Change"));
    assert_eq!(get_event_name("class"), None);
}

#[test]
fn test_should_delegate_event() {
    assert!(should_delegate_event("click"));
    assert!(should_delegate_event("Click"));
    assert!(should_delegate_event("input"));
    assert!(!should_delegate_event("customEvent"));
}

#[test]
fn test_is_void_element() {
    assert!(is_void_element("br"));
    assert!(is_void_element("img"));
    assert!(is_void_element("input"));
    assert!(!is_void_element("div"));
    assert!(!is_void_element("span"));
}

#[test]
fn test_special_bindings() {
    assert!(is_ref_binding("ref"));
    assert!(!is_ref_binding("class"));

    assert!(is_class_list_binding("classList"));
    assert!(!is_class_list_binding("class"));

    assert!(is_style_binding("style"));
    assert!(!is_style_binding("style:color"));

    assert!(is_on_prefix_event("on:CustomEvent"));
    assert!(!is_on_prefix_event("onClick"));

    assert!(is_on_capture_event("oncapture:Click"));
    assert!(!is_on_capture_event("onClick"));

    assert_eq!(get_prefix_event_name("on:CustomEvent"), Some("CustomEvent"));
    assert_eq!(get_prefix_event_name("oncapture:Click"), Some("Click"));
    assert_eq!(get_prefix_event_name("onClick"), None);

    assert!(is_special_binding("ref"));
    assert!(is_special_binding("classList"));
    assert!(is_special_binding("style"));
    assert!(is_special_binding("on:CustomEvent"));
    assert!(!is_special_binding("class"));
}

#[test]
fn test_ref_binding_detection() {
    assert!(is_ref_binding("ref"));
    assert!(!is_ref_binding("onClick"));
    assert!(!is_ref_binding("class"));
}

#[test]
fn test_class_list_binding_detection() {
    assert!(is_class_list_binding("classList"));
    assert!(!is_class_list_binding("class"));
    assert!(!is_class_list_binding("className"));
}

#[test]
fn test_style_binding_detection() {
    assert!(is_style_binding("style"));
    assert!(!is_style_binding("style:color"));
    assert!(!is_style_binding("class"));
}

#[test]
fn test_on_prefix_event_detection() {
    assert!(is_on_prefix_event("on:CustomEvent"));
    assert!(is_on_prefix_event("on:MyEvent"));
    assert!(!is_on_prefix_event("onClick"));
    assert!(!is_on_prefix_event("on"));

    assert_eq!(get_prefix_event_name("on:CustomEvent"), Some("CustomEvent"));
    assert_eq!(get_prefix_event_name("on:MyEvent"), Some("MyEvent"));
    assert_eq!(get_prefix_event_name("onClick"), None);
}

#[test]
fn test_on_capture_event_detection() {
    assert!(is_on_capture_event("oncapture:Click"));
    assert!(is_on_capture_event("oncapture:MouseDown"));
    assert!(!is_on_capture_event("onClick"));
    assert!(!is_on_capture_event("oncapture"));

    assert_eq!(get_prefix_event_name("oncapture:Click"), Some("Click"));
    assert_eq!(get_prefix_event_name("oncapture:MouseDown"), Some("MouseDown"));
}

#[test]
fn test_component_detection() {
    assert!(is_component("MyComponent"));
    assert!(is_component("Component"));
    assert!(is_component("App"));
    assert!(!is_component("div"));
    assert!(!is_component("span"));
    assert!(!is_component("custom-element"));
}

#[test]
fn test_prefixed_attribute_kinds() {
    assert!(is_bool_attribute("bool:disabled"));
    assert!(is_prop_attribute("prop:value"));
    assert!(is_attr_attribute("attr:title"));
    assert!(is_use_directive("use:tooltip"));
    assert!(is_style_property("style:color"));
    assert!(is_class_name_binding("class:active"));
    assert!(!is_bool_attribute("disabled"));
    assert_eq!(get_prefixed_name("bool:disabled"), Some("disabled"));
    assert_eq!(get_prefixed_name("class:active"), Some("active"));
    assert_eq!(get_prefixed_name("plain"), None);
}

#[test]
fn test_decode_html_entities() {
    assert_eq!(decode_html_entities("a &amp; b"), "a & b");
    assert_eq!(decode_html_entities("&lt;div&gt;"), "<div>");
    assert_eq!(decode_html_entities("&quot;x&quot; &#39;y&apos;"), "\"x\" 'y'");
    assert_eq!(decode_html_entities("a&nbsp;b"), "a\u{a0}b");
    assert_eq!(decode_html_entities("&unknown; & plain"), "&unknown; & plain");
    assert_eq!(decode_html_entities(""), "");
}
