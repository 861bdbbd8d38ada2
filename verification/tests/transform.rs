use oxc_allocator::Allocator;
use oxc_dom_expressions::js::{DeclKind, JsDecl, JsExpr, JsProp, JsStmt};
use oxc_dom_expressions::jsx::{
    CalleeKind, ExprKind, JsxAttrItem, JsxAttrName, JsxAttrValue, JsxChild, JsxElement, JsxElementName, JsxExpr,
    JsxNode,
};
use oxc_dom_expressions::template::Template;
use oxc_dom_expressions::{DomExpressions, DomExpressionsOptions, GenerateMode};

// ---------------------------------------------------------------------------
// Building JSX by hand
// ---------------------------------------------------------------------------

fn el(tag: &str, attributes: Vec<JsxAttrItem>, children: Vec<JsxChild>) -> JsxElement {
    JsxElement { name: JsxElementName::Ident(tag.to_string()), attributes, children }
}

fn attr(name: &str, value: &str) -> JsxAttrItem {
    JsxAttrItem::Attribute {
        name: JsxAttrName::Ident(name.to_string()),
        value: Some(JsxAttrValue::Str(value.to_string())),
    }
}

fn attr_expr(name: &str, x: JsxExpr) -> JsxAttrItem {
    JsxAttrItem::Attribute { name: JsxAttrName::Ident(name.to_string()), value: Some(JsxAttrValue::Container(x)) }
}

fn attr_ns_expr(ns: &str, name: &str, x: JsxExpr) -> JsxAttrItem {
    JsxAttrItem::Attribute {
        name: JsxAttrName::Namespaced(ns.to_string(), name.to_string()),
        value: Some(JsxAttrValue::Container(x)),
    }
}

fn text(s: &str) -> JsxChild {
    JsxChild::Text(s.to_string())
}

fn child(e: JsxElement) -> JsxChild {
    JsxChild::Element(Box::new(e))
}

/// `name()`, the embedded expression with identifier `id`.
fn call_of(name: &str, id: usize) -> JsxExpr {
    JsxExpr { kind: ExprKind::Call { callee: CalleeKind::Ident(name.to_string()), n_args: 0 }, id }
}

/// `name`, the embedded expression with identifier `id`.
fn ident_of(name: &str, id: usize) -> JsxExpr {
    JsxExpr { kind: ExprKind::Ident(name.to_string()), id }
}

fn other_of(id: usize) -> JsxExpr {
    JsxExpr { kind: ExprKind::Other, id }
}

fn id(s: &str) -> JsExpr {
    JsExpr::Ident(s.to_string())
}

fn calls(name: &str, args: Vec<JsExpr>) -> JsExpr {
    JsExpr::Call { callee: Box::new(id(name)), args, pure: false }
}

fn import(name: &str, module: &str) -> JsStmt {
    JsStmt::Import { imported: name.to_string(), local: format!("_${}", name), source: module.to_string() }
}

fn template_decls(list: &[(&str, &str)]) -> JsStmt {
    JsStmt::Var {
        kind: DeclKind::Var,
        decls: list
            .iter()
            .map(|(var, html)| JsDecl {
                name: var.to_string(),
                init: JsExpr::Call {
                    callee: Box::new(id("_$template")),
                    args: vec![JsExpr::TemplateLit(html.to_string())],
                    pure: true,
                },
            })
            .collect(),
    }
}

/// Walk one JSX expression as the syntax-tree traversal does: every
/// element is entered, outer before inner, then the whole expression is
/// left.
fn enter_all(t: &mut DomExpressions, e: &JsxElement) {
    t.enter_jsx_element(e);
    for c in &e.children {
        enter_child(t, c);
    }
}

fn enter_child(t: &mut DomExpressions, c: &JsxChild) {
    match c {
        JsxChild::Element(b) => enter_all(t, b),
        JsxChild::Fragment(cs) => {
            for c in cs {
                enter_child(t, c);
            }
        },
        _ => {},
    }
}

fn transform(t: &mut DomExpressions, e: JsxElement) -> Option<JsExpr> {
    enter_all(t, &e);
    t.exit_expression(&JsxNode::Element(e))
}

/// Transform each element of a program in turn.
fn run_program(t: &mut DomExpressions, elements: Vec<JsxElement>) -> Vec<Option<JsExpr>> {
    t.enter_program();
    let out = elements.into_iter().map(|e| transform(t, e)).collect();
    t.exit_program();
    out
}

// ---------------------------------------------------------------------------
// Transformer configuration
// ---------------------------------------------------------------------------

#[test]
fn test_transformer_with_solid_config() {
    let allocator = Allocator::default();
    let options = DomExpressionsOptions::new("solid-js/web");
    let transformer = DomExpressions::new(&allocator, options);

    assert_eq!(transformer.options().module_name, "solid-js/web");
    assert_eq!(transformer.options().effect_wrapper, "effect");
    assert!(transformer.options().delegate_events);
}

#[test]
fn test_transformer_with_custom_runtime() {
    let allocator = Allocator::default();
    let options = DomExpressionsOptions {
        module_name: String::from("custom-runtime"),
        effect_wrapper: String::from("createEffect"),
        memo_wrapper: String::from("createMemo"),
        ..Default::default()
    };
    let transformer = DomExpressions::new(&allocator, options);

    assert_eq!(transformer.options().module_name, "custom-runtime");
    assert_eq!(transformer.options().effect_wrapper, "createEffect");
    assert_eq!(transformer.options().memo_wrapper, "createMemo");
}

#[test]
fn integration_test_ssr_mode_configuration() {
    let allocator = Allocator::default();
    let options = DomExpressionsOptions {
        module_name: String::from("solid-js/web"),
        generate: GenerateMode::Ssr,
        hydratable: true,
        ..Default::default()
    };
    let transformer = DomExpressions::new(&allocator, options);

    assert_eq!(transformer.options().generate, GenerateMode::Ssr);
    assert!(transformer.options().hydratable);
}

#[test]
fn test_event_delegation_tracking() {
    let allocator = Allocator::default();
    let options = DomExpressionsOptions { delegate_events: true, ..Default::default() };
    let mut transformer = DomExpressions::new(&allocator, options);
    assert!(transformer.options().delegate_events);

    // const App = () => <div onClick={handler}>Click me</div>;
    let e = el("div", vec![attr_expr("onClick", ident_of("handler", 1))], vec![text("Click me")]);
    transformer.enter_program();
    let code = transform(&mut transformer, e).unwrap();
    let expected = JsExpr::Call {
        callee: Box::new(JsExpr::Arrow {
            params: vec![],
            body: vec![
                JsStmt::Var {
                    kind: DeclKind::Var,
                    decls: vec![JsDecl { name: "_el$1".to_string(), init: calls("_tmpl$", vec![]) }],
                },
                JsStmt::Expr(JsExpr::Assign {
                    target: Box::new(JsExpr::Member { object: Box::new(id("_el$1")), property: "$$click".to_string() }),
                    value: Box::new(JsExpr::Source(ident_of("handler", 1))),
                }),
                JsStmt::Return(id("_el$1")),
            ],
            expression: false,
        }),
        args: vec![],
        pure: false,
    };
    assert_eq!(code, expected);
    let (before, after) = transformer.exit_program();
    assert_eq!(
        before,
        vec![
            import("template", "solid-js/web"),
            import("delegateEvents", "solid-js/web"),
            template_decls(&[("_tmpl$", "<div>Click me")]),
        ]
    );
    assert_eq!(
        after,
        Some(JsStmt::Expr(calls("_$delegateEvents", vec![JsExpr::Array(vec![JsExpr::Str("click".to_string())])])))
    );
}

#[test]
fn test_non_delegated_event_handler() {
    let allocator = Allocator::default();
    let options = DomExpressionsOptions { delegate_events: false, ..Default::default() };
    let mut transformer = DomExpressions::new(&allocator, options);
    assert!(!transformer.options().delegate_events);

    let e = el("div", vec![attr_expr("onClick", ident_of("handler", 1))], vec![text("Click me")]);
    transformer.enter_program();
    let code = transform(&mut transformer, e).unwrap();
    let listener = JsStmt::Expr(JsExpr::Call {
        callee: Box::new(JsExpr::Member { object: Box::new(id("_el$1")), property: "addEventListener".to_string() }),
        args: vec![JsExpr::Str("Click".to_string()), JsExpr::Source(ident_of("handler", 1))],
        pure: false,
    });
    match code {
        JsExpr::Call { callee, .. } => match *callee {
            JsExpr::Arrow { body, .. } => assert_eq!(body[1], listener),
            other => panic!("unexpected callee {:?}", other),
        },
        other => panic!("unexpected code {:?}", other),
    }
    let (before, after) = transformer.exit_program();
    assert_eq!(before.len(), 2);
    assert_eq!(after, None);
}

#[test]
fn test_transformer_with_special_bindings() {
    let allocator = Allocator::default();
    let options = DomExpressionsOptions::default();
    let mut transformer = DomExpressions::new(&allocator, options);
    let e = el(
        "div",
        vec![
            attr_expr("ref", ident_of("myRef", 1)),
            attr_expr("classList", other_of(2)),
            attr_expr("style", other_of(3)),
            attr_ns_expr("on", "CustomEvent", ident_of("handleCustom", 4)),
            attr_ns_expr("oncapture", "Click", ident_of("handleClick", 5)),
        ],
        vec![text("Content")],
    );
    transformer.enter_program();
    assert!(transform(&mut transformer, e).is_some());
    let (before, _) = transformer.exit_program();
    // `on:` listeners go through the runtime helper, which is imported.
    assert!(before.contains(&import("addEventListener", "solid-js/web")));
    assert_eq!(transformer.options().generate, GenerateMode::Dom);
    assert!(!transformer.options().hydratable);
}

#[test]
fn test_import_tracking_for_special_features() {
    let allocator = Allocator::default();
    let options = DomExpressionsOptions::default();
    let transformer = DomExpressions::new(&allocator, options);
    assert_eq!(transformer.options().effect_wrapper, "effect");
}

#[test]
fn test_ssr_mode_with_special_bindings() {
    let allocator = Allocator::default();
    let options = DomExpressionsOptions {
        generate: GenerateMode::Ssr,
        delegate_events: false,
        hydratable: true,
        ..Default::default()
    };

    let transformer = DomExpressions::new(&allocator, options);

    assert_eq!(transformer.options().generate, GenerateMode::Ssr);
    assert!(!transformer.options().delegate_events);
    assert!(transformer.options().hydratable);
}

// ---------------------------------------------------------------------------
// Core transformation
// ---------------------------------------------------------------------------

#[test]
fn test_template_generation_simple_element() {
    // const view = <div class="test">Hello</div>;
    let allocator = Allocator::default();
    let mut transformer = DomExpressions::new(&allocator, DomExpressionsOptions::default());
    transformer.enter_program();
    let code = transform(&mut transformer, el("div", vec![attr("class", "test")], vec![text("Hello")]));
    assert_eq!(code, Some(calls("_tmpl$", vec![])));
    let (before, after) = transformer.exit_program();
    assert_eq!(
        before,
        vec![import("template", "solid-js/web"), template_decls(&[("_tmpl$", "<div class=test>Hello")])]
    );
    assert_eq!(after, None);
    assert_eq!(transformer.options().module_name, "solid-js/web");
}

#[test]
fn test_transformer_collects_templates() {
    let allocator = Allocator::default();
    let mut transformer = DomExpressions::new(&allocator, DomExpressionsOptions::default());
    transformer.enter_program();
    let a = transform(&mut transformer, el("div", vec![], vec![text("First")]));
    let b = transform(&mut transformer, el("span", vec![], vec![text("Second")]));
    assert_eq!(a, Some(calls("_tmpl$", vec![])));
    assert_eq!(b, Some(calls("_tmpl$2", vec![])));
    let (before, _) = transformer.exit_program();
    assert_eq!(before[1], template_decls(&[("_tmpl$", "<div>First"), ("_tmpl$2", "<span>Second")]));
    assert!(transformer.options().delegate_events);
}

#[test]
fn test_transformer_tracks_dynamic_content() {
    // const view = <div>{count()}</div>;
    let allocator = Allocator::default();
    let mut transformer = DomExpressions::new(&allocator, DomExpressionsOptions::default());
    transformer.enter_program();
    let code = transform(&mut transformer, el("div", vec![], vec![JsxChild::Container(call_of("count", 7))])).unwrap();
    let expected = JsExpr::Call {
        callee: Box::new(JsExpr::Arrow {
            params: vec![],
            body: vec![
                JsStmt::Var {
                    kind: DeclKind::Var,
                    decls: vec![JsDecl { name: "_el$1".to_string(), init: calls("_tmpl$", vec![]) }],
                },
                JsStmt::Expr(calls(
                    "_$insert",
                    vec![id("_el$1"), JsExpr::Source(call_of("count", 7)), JsExpr::Null],
                )),
                JsStmt::Return(id("_el$1")),
            ],
            expression: false,
        }),
        args: vec![],
        pure: false,
    };
    assert_eq!(code, expected);
    let (before, _) = transformer.exit_program();
    assert_eq!(
        before,
        vec![
            import("template", "solid-js/web"),
            import("insert", "solid-js/web"),
            template_decls(&[("_tmpl$", "<div>")]),
        ]
    );
    assert!(transformer.options().effect_wrapper == "effect");
}

#[test]
fn test_custom_effect_wrapper() {
    let allocator = Allocator::default();
    let options = DomExpressionsOptions { effect_wrapper: String::from("createEffect"), ..Default::default() };
    let mut transformer = DomExpressions::new(&allocator, options);
    run_program(&mut transformer, vec![el("div", vec![], vec![text("Test")])]);
    assert_eq!(transformer.options().effect_wrapper, "createEffect");
}

#[test]
fn test_nested_elements() {
    let allocator = Allocator::default();
    let mut transformer = DomExpressions::new(&allocator, DomExpressionsOptions::default());
    let view = el(
        "div",
        vec![attr("class", "container")],
        vec![
            text("\n                "),
            child(el("h1", vec![], vec![text("Title")])),
            text("\n                "),
            child(el("p", vec![], vec![text("Content")])),
            text("\n            "),
        ],
    );
    transformer.enter_program();
    let code = transform(&mut transformer, view);
    assert_eq!(code, Some(calls("_tmpl$", vec![])));
    let (before, _) = transformer.exit_program();
    assert_eq!(before[1], template_decls(&[("_tmpl$", "<div class=container><h1>Title</h1><p>Content")]));
    assert_eq!(transformer.options().module_name, "solid-js/web");
}

#[test]
fn phase2_core_transformation_test_ssr_mode_configuration() {
    let allocator = Allocator::default();
    let options = DomExpressionsOptions { generate: GenerateMode::Ssr, hydratable: true, ..Default::default() };
    let mut transformer = DomExpressions::new(&allocator, options);
    run_program(&mut transformer, vec![el("div", vec![], vec![text("SSR")])]);
    assert_eq!(transformer.options().generate, GenerateMode::Ssr);
    assert!(transformer.options().hydratable);
}

// ---------------------------------------------------------------------------
// Components and fragments
// ---------------------------------------------------------------------------

#[test]
fn test_component_props_handling() {
    // const App = () => <MyComponent prop={value()} />;
    let allocator = Allocator::default();
    let mut transformer = DomExpressions::new(&allocator, DomExpressionsOptions::default());
    transformer.enter_program();
    let code = transform(&mut transformer, el("MyComponent", vec![attr_expr("prop", call_of("value", 3))], vec![]));
    let expected = calls(
        "_$createComponent",
        vec![
            id("MyComponent"),
            JsExpr::Object(vec![JsProp {
                key: "prop".to_string(),
                value: JsExpr::Source(call_of("value", 3)),
                // A dynamic property is read through a getter.
                getter: true,
            }]),
        ],
    );
    assert_eq!(code, Some(expected));
    let stats = transformer.get_template_stats();
    assert_eq!(stats.total_templates, 0);
    let (before, _) = transformer.exit_program();
    assert_eq!(
        before,
        vec![import("template", "solid-js/web"), import("createComponent", "solid-js/web")]
    );
    assert_eq!(transformer.options().module_name, "solid-js/web");
}

#[test]
fn test_component_children() {
    // <Show when={ok()}><span>Yes</span>{" "}</Show>
    let allocator = Allocator::default();
    let mut transformer = DomExpressions::new(&allocator, DomExpressionsOptions::default());
    transformer.enter_program();
    let e = el(
        "Show",
        vec![attr_expr("when", call_of("ok", 1))],
        vec![text("\n  "), child(el("span", vec![], vec![text("Yes")])), text("\n")],
    );
    let code = transform(&mut transformer, e).unwrap();
    let expected = calls(
        "_$createComponent",
        vec![
            id("Show"),
            JsExpr::Object(vec![
                JsProp { key: "when".to_string(), value: JsExpr::Source(call_of("ok", 1)), getter: true },
                JsProp { key: "children".to_string(), value: calls("_tmpl$", vec![]), getter: false },
            ]),
        ],
    );
    assert_eq!(code, expected);
}

#[test]
fn test_fragment_support() {
    // <><div>First</div><div>Second</div></>
    let allocator = Allocator::default();
    let mut transformer = DomExpressions::new(&allocator, DomExpressionsOptions::default());
    transformer.enter_program();
    let children = vec![
        text("\n                "),
        child(el("div", vec![], vec![text("First")])),
        text("\n                "),
        child(el("div", vec![], vec![text("Second")])),
        text("\n            "),
    ];
    for c in &children {
        enter_child(&mut transformer, c);
    }
    let code = transformer.exit_expression(&JsxNode::Fragment(children));
    assert_eq!(code, Some(JsExpr::Array(vec![calls("_tmpl$", vec![]), calls("_tmpl$2", vec![])])));
    assert_eq!(transformer.get_template_stats().total_templates, 2);
    assert_eq!(transformer.options().module_name, "solid-js/web");
}

#[test]
fn test_fragment_memo_wrapping() {
    // <>{count()}{name}{a + b}</>
    let allocator = Allocator::default();
    let mut transformer = DomExpressions::new(&allocator, DomExpressionsOptions::default());
    transformer.enter_program();
    let children = vec![
        JsxChild::Container(call_of("count", 1)),
        JsxChild::Container(ident_of("name", 2)),
        JsxChild::Container(other_of(3)),
    ];
    let code = transformer.exit_expression(&JsxNode::Fragment(children)).unwrap();
    let thunk = JsExpr::Arrow {
        params: vec![],
        body: vec![JsStmt::Expr(JsExpr::Source(other_of(3)))],
        expression: true,
    };
    assert_eq!(
        code,
        JsExpr::Array(vec![
            calls("_$memo", vec![JsExpr::SourceCallee(1)]),
            JsExpr::Source(ident_of("name", 2)),
            calls("_$memo", vec![thunk]),
        ])
    );
    let (before, _) = transformer.exit_program();
    assert_eq!(before, vec![import("template", "solid-js/web"), import("memo", "solid-js/web")]);
}

#[test]
fn test_fragment_single_child_is_not_an_array() {
    let allocator = Allocator::default();
    let mut transformer = DomExpressions::new(&allocator, DomExpressionsOptions::default());
    transformer.enter_program();
    let code = transformer.exit_expression(&JsxNode::Fragment(vec![text("Hello")]));
    assert_eq!(code, Some(JsExpr::Str("Hello".to_string())));
}

#[test]
fn test_member_element_name_is_left_alone() {
    let allocator = Allocator::default();
    let mut transformer = DomExpressions::new(&allocator, DomExpressionsOptions::default());
    transformer.enter_program();
    let e = JsxElement { name: JsxElementName::Other, attributes: vec![], children: vec![] };
    transformer.enter_jsx_element(&e);
    assert_eq!(transformer.exit_expression(&JsxNode::Element(e)), None);
    assert_eq!(transformer.get_template_stats().total_templates, 0);
}

// ---------------------------------------------------------------------------
// Template statistics
// ---------------------------------------------------------------------------

#[test]
fn test_template_deduplication() {
    let allocator = Allocator::default();
    let mut transformer = DomExpressions::new(&allocator, DomExpressionsOptions::default());
    let view = || el("div", vec![attr("class", "test")], vec![text("Hello")]);
    let out = run_program(&mut transformer, vec![view(), view(), view()]);
    // Every copy clones the one template.
    assert!(out.iter().all(|c| *c == Some(calls("_tmpl$", vec![]))));

    let stats = transformer.get_template_stats();
    assert_eq!(stats.total_templates, 3);
    assert_eq!(stats.unique_templates, 1);
    assert_eq!(stats.reused_templates, 2);
}

#[test]
fn test_multiple_unique_templates() {
    let allocator = Allocator::default();
    let mut transformer = DomExpressions::new(&allocator, DomExpressionsOptions::default());
    run_program(
        &mut transformer,
        vec![
            el("div", vec![], vec![text("First")]),
            el("span", vec![], vec![text("Second")]),
            el("p", vec![], vec![text("Third")]),
        ],
    );
    let stats = transformer.get_template_stats();
    assert_eq!(stats.total_templates, 3);
    assert_eq!(stats.unique_templates, 3);
    assert_eq!(stats.reused_templates, 0);
}

#[test]
fn test_partial_deduplication() {
    let allocator = Allocator::default();
    let mut transformer = DomExpressions::new(&allocator, DomExpressionsOptions::default());
    let same = || el("div", vec![], vec![text("Same")]);
    run_program(&mut transformer, vec![same(), same(), el("span", vec![], vec![text("Different")]), same()]);
    let stats = transformer.get_template_stats();
    assert_eq!(stats.total_templates, 4);
    assert_eq!(stats.unique_templates, 2);
    assert_eq!(stats.reused_templates, 2);
}

#[test]
fn test_deduplication_ratio() {
    let allocator = Allocator::default();
    let mut transformer = DomExpressions::new(&allocator, DomExpressionsOptions::default());
    let rep = || el("div", vec![], vec![text("Repeated")]);
    run_program(&mut transformer, vec![rep(), rep(), rep(), rep(), el("span", vec![], vec![text("Unique")])]);
    let stats = transformer.get_template_stats();
    assert_eq!(stats.total_templates, 5);
    assert_eq!(stats.unique_templates, 2);
    let ratio = (stats.total_templates - stats.unique_templates) as f64 / stats.total_templates as f64;
    assert_eq!(ratio, 0.6);
}

#[test]
fn test_reused_templates_tracking() {
    let allocator = Allocator::default();
    let mut transformer = DomExpressions::new(&allocator, DomExpressionsOptions::default());
    let reused = || el("div", vec![attr("class", "reused")], vec![text("Content")]);
    run_program(&mut transformer, vec![reused(), reused(), el("span", vec![], vec![text("Once")])]);
    let reused = transformer.get_reused_templates();
    assert_eq!(reused.len(), 1);
    assert!(reused[0].1 >= 2);
    assert_eq!(reused[0], ("<div class=reused>Content".to_string(), 2));
}

#[test]
fn test_static_vs_dynamic_templates() {
    let allocator = Allocator::default();
    let mut transformer = DomExpressions::new(&allocator, DomExpressionsOptions::default());
    run_program(
        &mut transformer,
        vec![
            el("div", vec![], vec![text("Static")]),
            el("span", vec![], vec![text("Also Static")]),
            el("div", vec![], vec![JsxChild::Container(call_of("count", 1))]),
            el("span", vec![], vec![JsxChild::Container(call_of("name", 2))]),
        ],
    );
    let stats = transformer.get_template_stats();
    assert_eq!(stats.static_templates, 2);
    assert_eq!(stats.dynamic_templates, 2);
}

#[test]
fn test_template_stats_space_saved() {
    let allocator = Allocator::default();
    let mut transformer = DomExpressions::new(&allocator, DomExpressionsOptions::default());
    let big = || el("div", vec![attr("class", "large-template-content")], vec![text("Repeated")]);
    run_program(&mut transformer, vec![big(), big(), big()]);
    let stats = transformer.get_template_stats();
    assert!(stats.space_saved() > 0);
    assert_eq!(stats.total_html_size, stats.deduplicated_html_size * 3);
    assert_eq!(stats.deduplicated_html_size, "<div class=large-template-content>Repeated".len());
}

#[test]
fn test_nested_element_deduplication() {
    let allocator = Allocator::default();
    let mut transformer = DomExpressions::new(&allocator, DomExpressionsOptions::default());
    let view = || {
        el(
            "div",
            vec![],
            vec![child(el("span", vec![], vec![text("Nested")])), child(el("p", vec![], vec![text("Content")]))],
        )
    };
    run_program(&mut transformer, vec![view(), view()]);
    let stats = transformer.get_template_stats();
    assert!(stats.unique_templates > 0);
    assert!(stats.total_templates >= stats.unique_templates);
    // The outer element and each nested one are recorded, twice over.
    assert_eq!(stats.total_templates, 6);
    assert_eq!(stats.unique_templates, 3);
}

#[test]
fn test_dynamic_content_prevents_deduplication() {
    let allocator = Allocator::default();
    let mut transformer = DomExpressions::new(&allocator, DomExpressionsOptions::default());
    run_program(
        &mut transformer,
        vec![
            el("div", vec![], vec![JsxChild::Container(call_of("count", 1))]),
            el("div", vec![], vec![JsxChild::Container(call_of("name", 2))]),
        ],
    );
    let stats = transformer.get_template_stats();
    assert_eq!(stats.unique_templates, 1);
    assert_eq!(stats.total_templates, 2);
}

#[test]
fn test_attributes_affect_deduplication() {
    let allocator = Allocator::default();
    let mut transformer = DomExpressions::new(&allocator, DomExpressionsOptions::default());
    run_program(
        &mut transformer,
        vec![
            el("div", vec![attr("class", "one")], vec![text("Content")]),
            el("div", vec![attr("class", "two")], vec![text("Content")]),
        ],
    );
    let stats = transformer.get_template_stats();
    assert_eq!(stats.unique_templates, 2);
    assert_eq!(stats.total_templates, 2);
}

#[test]
fn test_ssr_mode_optimization() {
    let allocator = Allocator::default();
    let options = DomExpressionsOptions { generate: GenerateMode::Ssr, ..Default::default() };
    let mut transformer = DomExpressions::new(&allocator, options);
    let view = || el("div", vec![], vec![text("SSR Content")]);
    run_program(&mut transformer, vec![view(), view()]);
    let stats = transformer.get_template_stats();
    assert_eq!(stats.unique_templates, 1);
    assert_eq!(stats.total_templates, 2);
}

#[test]
fn test_enter_program_starts_over() {
    let allocator = Allocator::default();
    let mut transformer = DomExpressions::new(&allocator, DomExpressionsOptions::default());
    run_program(&mut transformer, vec![el("div", vec![], vec![text("One")])]);
    transformer.enter_program();
    let code = transform(&mut transformer, el("span", vec![], vec![text("Two")]));
    // Template numbering starts again in the next program.
    assert_eq!(code, Some(calls("_tmpl$", vec![])));
    let (before, _) = transformer.exit_program();
    assert_eq!(before[1], template_decls(&[("_tmpl$", "<span>Two")]));
    // The statistics cover both programs.
    assert_eq!(transformer.get_template_stats().total_templates, 2);
}

// ---------------------------------------------------------------------------
// Template variables and the modern form
// ---------------------------------------------------------------------------

#[test]
fn test_modern_transform_basic() {
    // const hello = <div>Hello World</div>;
    let allocator = Allocator::default();
    let mut transformer = DomExpressions::new(&allocator, DomExpressionsOptions::new("solid-js/web"));
    transformer.enter_program();
    let code = transformer.transform_jsx_element_modern(&el("div", vec![], vec![text("Hello World")]));
    let decl = JsStmt::Var {
        kind: DeclKind::Const,
        decls: vec![JsDecl { name: "_el$".to_string(), init: calls("_tmpl$", vec![]) }],
    };
    let expected = JsExpr::Call {
        callee: Box::new(JsExpr::Paren(Box::new(JsExpr::Arrow {
            params: vec![],
            body: vec![decl, JsStmt::Return(id("_el$"))],
            expression: false,
        }))),
        args: vec![],
        pure: false,
    };
    assert_eq!(code, expected);
}

#[test]
fn test_modern_transform_with_attributes() {
    // <div id={x} class="test">{y()}</div>
    let allocator = Allocator::default();
    let mut transformer = DomExpressions::new(&allocator, DomExpressionsOptions::new("solid-js/web"));
    transformer.enter_program();
    let code = transformer.transform_jsx_element_modern(&el(
        "div",
        vec![attr_expr("id", ident_of("x", 1)), attr("class", "test")],
        vec![JsxChild::Container(call_of("y", 2))],
    ));
    let text = format!("{:?}", code);
    assert!(text.contains("_$setAttribute"));
    assert!(text.contains("_$insert"));
    let (before, _) = transformer.exit_program();
    assert!(before.contains(&import("insert", "solid-js/web")));
    assert!(before.contains(&import("effect", "solid-js/web")));
}

#[test]
fn test_template_struct() {
    let template = Template { html: String::from("<div></div>"), dynamic_slots: Vec::new() };
    assert_eq!(template.html, "<div></div>");
    assert_eq!(template.dynamic_slots.len(), 0);
}

#[test]
fn test_nested_reference_declared_after_its_parent() {
    // <div>text<span id={x} /></div>
    let allocator = Allocator::default();
    let mut transformer = DomExpressions::new(&allocator, DomExpressionsOptions::default());
    transformer.enter_program();
    let e = el("div", vec![], vec![text("text"), child(el("span", vec![attr_expr("id", ident_of("x", 1))], vec![]))]);
    let code = transform(&mut transformer, e).unwrap();
    let member = |object: &str, property: &str| JsExpr::Member {
        object: Box::new(id(object)),
        property: property.to_string(),
    };
    let decls = JsStmt::Var {
        kind: DeclKind::Var,
        decls: vec![
            JsDecl { name: "_el$1".to_string(), init: calls("_tmpl$", vec![]) },
            JsDecl { name: "_el$2".to_string(), init: member("_el$1", "firstChild") },
            JsDecl { name: "_el$3".to_string(), init: member("_el$2", "nextSibling") },
        ],
    };
    let effect = JsStmt::Expr(calls(
        "_$effect",
        vec![JsExpr::Arrow {
            params: vec![],
            body: vec![JsStmt::Expr(calls(
                "_$setAttribute",
                vec![id("_el$3"), JsExpr::Str("id".to_string()), JsExpr::Source(ident_of("x", 1))],
            ))],
            expression: true,
        }],
    ));
    let expected = JsExpr::Call {
        callee: Box::new(JsExpr::Arrow {
            params: vec![],
            body: vec![decls, effect, JsStmt::Return(id("_el$1"))],
            expression: false,
        }),
        args: vec![],
        pure: false,
    };
    assert_eq!(code, expected);
    let (before, _) = transformer.exit_program();
    assert_eq!(
        before,
        vec![
            import("template", "solid-js/web"),
            import("setAttribute", "solid-js/web"),
            import("effect", "solid-js/web"),
            // Mixed text and elements on the last path stop the template there.
            template_decls(&[("_tmpl$", "<div>")]),
        ]
    );
}

#[test]
fn test_identical_templates_declared_once() {
    let allocator = Allocator::default();
    let mut transformer = DomExpressions::new(&allocator, DomExpressionsOptions::default());
    transformer.enter_program();
    let a = transform(&mut transformer, el("div", vec![], vec![JsxChild::Container(call_of("a", 1))])).unwrap();
    let b = transform(&mut transformer, el("div", vec![], vec![JsxChild::Container(call_of("b", 2))])).unwrap();
    let root_decl = |var: &str| JsStmt::Var {
        kind: DeclKind::Var,
        decls: vec![JsDecl { name: var.to_string(), init: calls("_tmpl$", vec![]) }],
    };
    for (code, var) in [(a, "_el$1"), (b, "_el$2")] {
        match code {
            JsExpr::Call { callee, .. } => match *callee {
                JsExpr::Arrow { body, .. } => assert_eq!(body[0], root_decl(var)),
                other => panic!("unexpected callee {:?}", other),
            },
            other => panic!("unexpected code {:?}", other),
        }
    }
    let (before, _) = transformer.exit_program();
    assert_eq!(before.last(), Some(&template_decls(&[("_tmpl$", "<div>")])));
}

#[test]
fn test_component_static_and_dynamic_props() {
    // <MyComp param={dynamic()} label="x" flag name={n} />
    let allocator = Allocator::default();
    let mut transformer = DomExpressions::new(&allocator, DomExpressionsOptions::default());
    transformer.enter_program();
    let flag = JsxAttrItem::Attribute { name: JsxAttrName::Ident("flag".to_string()), value: None };
    let e = el(
        "MyComp",
        vec![attr_expr("param", call_of("dynamic", 1)), attr("label", "x"), flag, attr_expr("name", ident_of("n", 2))],
        vec![],
    );
    let code = transform(&mut transformer, e).unwrap();
    let expected = calls(
        "_$createComponent",
        vec![
            id("MyComp"),
            JsExpr::Object(vec![
                JsProp { key: "param".to_string(), value: JsExpr::Source(call_of("dynamic", 1)), getter: true },
                JsProp { key: "label".to_string(), value: JsExpr::Str("x".to_string()), getter: false },
                JsProp { key: "flag".to_string(), value: JsExpr::Bool(true), getter: false },
                JsProp { key: "name".to_string(), value: JsExpr::Source(ident_of("n", 2)), getter: false },
            ]),
        ],
    );
    assert_eq!(code, expected);
}

#[test]
fn test_text_inserted_into_its_own_element() {
    // <div><span>{message}</span></div>
    let allocator = Allocator::default();
    let mut transformer = DomExpressions::new(&allocator, DomExpressionsOptions::default());
    transformer.enter_program();
    let e = el("div", vec![], vec![child(el("span", vec![], vec![JsxChild::Container(ident_of("message", 1))]))]);
    let code = transform(&mut transformer, e).unwrap();
    let decls = JsStmt::Var {
        kind: DeclKind::Var,
        decls: vec![
            JsDecl { name: "_el$1".to_string(), init: calls("_tmpl$", vec![]) },
            JsDecl {
                name: "_el$2".to_string(),
                init: JsExpr::Member { object: Box::new(id("_el$1")), property: "firstChild".to_string() },
            },
        ],
    };
    let insert = JsStmt::Expr(calls("_$insert", vec![id("_el$2"), JsExpr::Source(ident_of("message", 1)), JsExpr::Null]));
    let expected = JsExpr::Call {
        callee: Box::new(JsExpr::Arrow {
            params: vec![],
            body: vec![decls, insert, JsStmt::Return(id("_el$1"))],
            expression: false,
        }),
        args: vec![],
        pure: false,
    };
    assert_eq!(code, expected);
}

#[test]
fn test_fragment_drops_line_breaks_of_any_white_space() {
    // A child of tabs, no-break spaces and a line break is layout, not text.
    let allocator = Allocator::default();
    let mut transformer = DomExpressions::new(&allocator, DomExpressionsOptions::default());
    transformer.enter_program();
    let children = vec![text("\t\u{A0}\n"), child(el("div", vec![], vec![text("A")])), text("\u{3000}\n")];
    for c in &children {
        enter_child(&mut transformer, c);
    }
    let code = transformer.exit_expression(&JsxNode::Fragment(children));
    assert_eq!(code, Some(calls("_tmpl$", vec![])));
}
