use oxc_dom_expressions::template::{DynamicSlot, SlotType, Template};
use oxc_dom_expressions::{OptimizationKind, TemplateOptimizer, TemplateStats};

#[test]
fn test_template_stats_empty() {
    let stats = TemplateStats::new();
    assert_eq!(stats.total_templates, 0);
    assert_eq!(stats.unique_templates, 0);
    assert_eq!(stats.space_saved(), 0);
}

#[test]
fn optimizer_test_template_stats_calculations() {
    let stats = TemplateStats {
        total_templates: 10,
        unique_templates: 5,
        reused_templates: 5,
        total_html_size: 1000,
        deduplicated_html_size: 500,
        static_templates: 2,
        dynamic_templates: 3,
    };

    assert_eq!(stats.space_saved(), 500);
}

#[test]
fn test_optimizer_record_template() {
    let mut optimizer = TemplateOptimizer::new();

    let template1 = Template { html: "<div>Hello</div>".to_string(), dynamic_slots: vec![] };
    let template2 = Template { html: "<div>Hello</div>".to_string(), dynamic_slots: vec![] };

    optimizer.record_template(template1);
    optimizer.record_template(template2);

    let stats = optimizer.get_stats();
    assert_eq!(stats.total_templates, 2);
    assert_eq!(stats.unique_templates, 1);
    assert_eq!(stats.reused_templates, 1);
}

#[test]
fn test_optimizer_static_vs_dynamic() {
    let mut optimizer = TemplateOptimizer::new();

    let static_template = Template { html: "<div>Static</div>".to_string(), dynamic_slots: vec![] };
    let dynamic_template = Template {
        html: "<div>Dynamic</div>".to_string(),
        dynamic_slots: vec![DynamicSlot { path: vec![], slot_type: SlotType::TextContent, marker_path: None }],
    };

    optimizer.record_template(static_template);
    optimizer.record_template(dynamic_template);

    let stats = optimizer.get_stats();
    assert_eq!(stats.static_templates, 1);
    assert_eq!(stats.dynamic_templates, 1);
}

fn text_slots(n: usize) -> Vec<DynamicSlot> {
    (0..n)
        .map(|_| DynamicSlot { path: vec![], slot_type: SlotType::TextContent, marker_path: None })
        .collect()
}

#[test]
fn test_optimizer_find_large_templates() {
    let mut optimizer = TemplateOptimizer::new();
    let large_template = Template { html: "x".repeat(1500), dynamic_slots: text_slots(6) };
    optimizer.record_template(large_template);

    let optimizations = optimizer.find_optimizations();
    assert_eq!(optimizations.len(), 1);
    assert_eq!(optimizations[0].kind, OptimizationKind::LargeTemplate);
}

#[test]
fn test_optimizer_find_many_slots() {
    let mut optimizer = TemplateOptimizer::new();
    let template = Template { html: "<div>Many slots</div>".to_string(), dynamic_slots: text_slots(15) };
    optimizer.record_template(template);

    let optimizations = optimizer.find_optimizations();
    assert_eq!(optimizations.len(), 1);
    assert_eq!(optimizations[0].kind, OptimizationKind::ManyDynamicSlots);
}

#[test]
fn test_template_optimizer_empty() {
    let optimizer = TemplateOptimizer::new();
    let stats = optimizer.get_stats();

    assert_eq!(stats.total_templates, 0);
    assert_eq!(stats.unique_templates, 0);
}

#[test]
fn phase4_optimization_test_template_stats_calculations() {
    let stats = TemplateStats {
        total_templates: 10,
        unique_templates: 4,
        reused_templates: 6,
        total_html_size: 1000,
        deduplicated_html_size: 400,
        static_templates: 2,
        dynamic_templates: 2,
    };

    assert_eq!(stats.space_saved(), 600);
}

#[test]
fn test_space_saved_never_underflows() {
    let stats = TemplateStats {
        total_templates: 1,
        unique_templates: 1,
        reused_templates: 0,
        total_html_size: 10,
        deduplicated_html_size: 20,
        static_templates: 1,
        dynamic_templates: 0,
    };
    assert_eq!(stats.space_saved(), 0);
}

#[test]
fn test_stats_sizes_count_each_recording() {
    let mut optimizer = TemplateOptimizer::new();
    for _ in 0..3 {
        optimizer.record_template(Template { html: "<b>é</b>".to_string(), dynamic_slots: vec![] });
    }
    optimizer.record_template(Template { html: "<i>".to_string(), dynamic_slots: text_slots(1) });
    let stats = optimizer.get_stats();
    assert_eq!(stats.total_templates, 4);
    assert_eq!(stats.unique_templates, 2);
    assert_eq!(stats.reused_templates, 2);
    assert_eq!(stats.total_html_size, 3 * 9 + 3);
    assert_eq!(stats.deduplicated_html_size, 9 + 3);
    assert_eq!(stats.space_saved(), 18);
    assert_eq!(stats.static_templates, 1);
    assert_eq!(stats.dynamic_templates, 1);
    let reused = optimizer.get_reused_templates();
    assert_eq!(reused, vec![("<b>é</b>".to_string(), 3)]);
    assert_eq!(optimizer.usage_count("<i>"), 1);
    assert_eq!(optimizer.usage_count("<u>"), 0);
}
