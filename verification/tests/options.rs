use oxc_allocator::Allocator;
use oxc_dom_expressions::transform::helper::get_runtime_imports;
use oxc_dom_expressions::{DomExpressions, DomExpressionsOptions, GenerateMode};

#[test]
fn test_basic_options() {
    let options = DomExpressionsOptions::default();
    assert_eq!(options.module_name, "solid-js/web");
    assert_eq!(options.effect_wrapper, "effect");
    assert_eq!(options.memo_wrapper, "memo");
    assert!(options.delegate_events);
    assert!(options.wrap_conditionals);
}

#[test]
fn test_custom_options() {
    let options = DomExpressionsOptions::new("custom-runtime").with_delegate_events(false);

    assert_eq!(options.module_name, "custom-runtime");
    assert!(!options.delegate_events);
}

#[test]
fn test_transformer_creation() {
    let allocator = Allocator::default();
    let options = DomExpressionsOptions::default();
    let transformer = DomExpressions::new(&allocator, options);

    assert_eq!(transformer.options().module_name, "solid-js/web");
}

#[test]
fn test_default_option_values() {
    let o = DomExpressionsOptions::default();
    assert_eq!(o.generate, GenerateMode::Dom);
    assert!(!o.hydratable);
    assert!(!o.context_to_custom_elements);
    assert!(o.built_ins.is_empty());
    assert_eq!(o.static_marker, "@once");
    assert!(o.validate);
    assert!(!o.omit_nested_closing_tags);
    assert!(o.omit_last_closing_tag);
    assert!(o.omit_quotes);
    assert_eq!(o.require_import_source, None);
    assert_eq!(GenerateMode::default(), GenerateMode::Dom);
}

#[test]
fn test_builders_change_only_their_field() {
    let o = DomExpressionsOptions::new("r-dom").with_generate(GenerateMode::Ssr);
    assert_eq!(o.generate, GenerateMode::Ssr);
    assert_eq!(o.module_name, "r-dom");
    assert!(o.delegate_events);
    let o = o.with_delegate_events(false);
    assert_eq!(o.generate, GenerateMode::Ssr);
    assert!(!o.delegate_events);
    assert_eq!(o.effect_wrapper, "effect");
}

#[test]
fn test_imports_generation() {
    let imports = get_runtime_imports("solid-js/web");
    assert!(imports.contains("solid-js/web"));
    assert!(imports.contains("_$template"));
}

#[test]
fn test_runtime_imports_exact_text() {
    assert_eq!(
        get_runtime_imports("r-dom"),
        "import { template as _$template } from \"r-dom\";"
    );
}
