use oxc_dom_expressions::compat::constants::{
    BABEL_PURE_COMMENT, DEFAULT_MODULE_NAME, ELEMENT_VAR_PREFIX, OXC_PURE_COMMENT, RUNTIME_FN_PREFIX,
    R_DOM_MODULE_NAME, TEMPLATE_VAR_PREFIX,
};
use oxc_dom_expressions::compat::get_import_priority;
use oxc_dom_expressions::compat::naming::{
    element_var_name, extract_template_counter, is_element_var, is_template_var, runtime_function_name,
    template_var_name,
};
use oxc_dom_expressions::compat::BabelOutputNormalizer;

#[test]
fn test_pure_comments() {
    assert_eq!(BABEL_PURE_COMMENT, "/*#__PURE__*/");
    assert_eq!(OXC_PURE_COMMENT, "/* @__PURE__ */");
}

#[test]
fn test_var_prefixes() {
    assert_eq!(TEMPLATE_VAR_PREFIX, "_tmpl$");
    assert_eq!(ELEMENT_VAR_PREFIX, "_el$");
    assert_eq!(RUNTIME_FN_PREFIX, "_$");
}

#[test]
fn test_module_names() {
    assert_eq!(DEFAULT_MODULE_NAME, "solid-js/web");
    assert_eq!(R_DOM_MODULE_NAME, "r-dom");
}

#[test]
fn test_import_priority_order() {
    assert_eq!(get_import_priority("template"), 0);
    assert_eq!(get_import_priority("ssr"), 0);
    assert_eq!(get_import_priority("delegateEvents"), 1);
    assert_eq!(get_import_priority("createComponent"), 2);
    assert!(get_import_priority("unknown") > 100);
}

#[test]
fn test_template_vs_insert_priority() {
    assert!(get_import_priority("template") < get_import_priority("insert"));
}

#[test]
fn test_import_priority_table_values() {
    assert_eq!(get_import_priority("memo"), 3);
    assert_eq!(get_import_priority("addEventListener"), 4);
    assert_eq!(get_import_priority("insert"), 5);
    assert_eq!(get_import_priority("effect"), 11);
    assert_eq!(get_import_priority("For"), 20);
    assert_eq!(get_import_priority("getOwner"), 29);
    assert_eq!(get_import_priority("somethingElse"), 1000);
}

#[test]
fn test_template_var_name() {
    assert_eq!(template_var_name(1), "_tmpl$");
    assert_eq!(template_var_name(2), "_tmpl$2");
    assert_eq!(template_var_name(10), "_tmpl$10");
}

#[test]
fn test_element_var_name() {
    assert_eq!(element_var_name(1), "_el$1");
    assert_eq!(element_var_name(2), "_el$2");
    assert_eq!(element_var_name(10), "_el$10");
}

#[test]
fn test_runtime_function_name() {
    assert_eq!(runtime_function_name("insert"), "_$insert");
    assert_eq!(runtime_function_name("template"), "_$template");
    assert_eq!(runtime_function_name("delegateEvents"), "_$delegateEvents");
}

#[test]
fn test_is_template_var() {
    assert!(is_template_var("_tmpl$"));
    assert!(is_template_var("_tmpl$2"));
    assert!(is_template_var("_tmpl$100"));
    assert!(!is_template_var("_el$"));
    assert!(!is_template_var("other"));
}

#[test]
fn test_is_element_var() {
    assert!(is_element_var("_el$1"));
    assert!(is_element_var("_el$2"));
    assert!(is_element_var("_el$100"));
    assert!(!is_element_var("_tmpl$"));
    assert!(!is_element_var("other"));
}

#[test]
fn test_extract_template_counter() {
    assert_eq!(extract_template_counter("_tmpl$"), Some(1));
    assert_eq!(extract_template_counter("_tmpl$5"), Some(5));
    assert_eq!(extract_template_counter("_tmpl$100"), Some(100));
    assert_eq!(extract_template_counter("other"), None);
    assert_eq!(extract_template_counter("_el$"), None);
}

#[test]
fn test_template_counter_roundtrip_values() {
    for n in [1usize, 2, 9, 10, 11, 99, 100, 12345] {
        assert_eq!(extract_template_counter(&template_var_name(n)), Some(n));
    }
    assert_eq!(extract_template_counter("_tmpl$x"), None);
    assert_eq!(extract_template_counter("_tmpl$+5"), Some(5));
    assert_eq!(extract_template_counter("_tmpl$"), Some(1));
    assert_eq!(extract_template_counter("_tmpl$-5"), None);
}

#[test]
fn test_pure_comment_normalization() {
    let input = "const x = /* @__PURE__ */ fn();";
    let expected = "const x = /*#__PURE__*/ fn();";
    assert_eq!(BabelOutputNormalizer::normalize(input), expected);
}

#[test]
fn test_tab_normalization() {
    let input = "function test() {\n\treturn true;\n}";
    let expected = "function test() {\n  return true;\n}";
    assert_eq!(BabelOutputNormalizer::normalize(input), expected);
}

#[test]
fn test_template_variable_formatting() {
    let input = "const _tmpl$1 = x(), _tmpl$2 = y();";
    let expected = "const _tmpl$1 = x(),\n  _tmpl$2 = y();";
    assert_eq!(BabelOutputNormalizer::normalize(input), expected);
}

#[test]
fn test_normalize_twice_changes_nothing() {
    let code = "const _tmpl$1 = /* @__PURE__ */ x(), _tmpl$2 = y();\n\tfoo(), _tmpl$3;";
    let once = BabelOutputNormalizer::normalize(code);
    assert!(!once.contains('\t'));
    assert!(!once.contains(", _tmpl$"));
    assert_eq!(BabelOutputNormalizer::normalize(&once), once);
    let plain = "const a = 1;\nconst b = [a, b];";
    assert_eq!(BabelOutputNormalizer::normalize(plain), plain);
}
