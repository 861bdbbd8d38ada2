//! Configuration options for the DOM expressions transformer

use vstd::prelude::*;
use crate::text::{chars_of, string_of};

verus! {

broadcast use vstd::string::group_string_axioms;

/// Output mode for the compiler
#[derive(Debug, Clone, Copy, PartialEq, Eq, Structural)]
pub enum GenerateMode {
    /// Standard DOM output
    Dom,
    /// Server-side rendering output
    Ssr,
}

impl Default for GenerateMode {
    fn default() -> (r: Self)
        ensures
            r == GenerateMode::Dom,
    {
        GenerateMode::Dom
    }
}

/// Configuration options for the DOM expressions transformer
#[derive(Debug, Clone)]
pub struct DomExpressionsOptions {
    /// The name of the runtime module to import methods from
    pub module_name: String,
    /// The output mode of the compiler
    pub generate: GenerateMode,
    /// Whether the output should contain hydratable markers
    pub hydratable: bool,
    /// Whether to enable automatic event delegation on camelCase
    pub delegate_events: bool,
    /// Whether smart conditional detection should be used
    pub wrap_conditionals: bool,
    /// Whether to set current render context on Custom Elements and slots
    pub context_to_custom_elements: bool,
    /// Array of Component exports from module that aren't included by default
    pub built_ins: Vec<String>,
    /// The reactive wrapper function name
    pub effect_wrapper: String,
    /// Comment decorator string that indicates a static expression
    pub static_marker: String,
    /// The memo function name
    pub memo_wrapper: String,
    /// Whether to validate HTML nesting
    pub validate: bool,
    /// Whether to remove unnecessary closing tags from the template output
    pub omit_nested_closing_tags: bool,
    /// Whether to remove tags if they are the last element
    pub omit_last_closing_tag: bool,
    /// Whether to remove quotes for HTML attributes when possible
    pub omit_quotes: bool,
    /// When set, restricts JSX transformation to files with specific import source pragma
    pub require_import_source: Option<String>,
}

/// Every option but the module name has its documented default.
pub open spec fn has_default_settings(o: DomExpressionsOptions) -> bool {
    &&& o.generate == GenerateMode::Dom
    &&& !o.hydratable
    &&& o.delegate_events
    &&& o.wrap_conditionals
    &&& !o.context_to_custom_elements
    &&& o.built_ins@.len() == 0
    &&& o.effect_wrapper@ == "effect"@
    &&& o.static_marker@ == "@once"@
    &&& o.memo_wrapper@ == "memo"@
    &&& o.validate
    &&& !o.omit_nested_closing_tags
    &&& o.omit_last_closing_tag
    &&& o.omit_quotes
    &&& o.require_import_source is None
}

/// `b` is `a` with only its generate mode and delegation flag possibly changed.
pub open spec fn same_except_mode_and_delegation(a: DomExpressionsOptions, b: DomExpressionsOptions) -> bool {
    &&& a.module_name == b.module_name
    &&& a.hydratable == b.hydratable
    &&& a.wrap_conditionals == b.wrap_conditionals
    &&& a.context_to_custom_elements == b.context_to_custom_elements
    &&& a.built_ins == b.built_ins
    &&& a.effect_wrapper == b.effect_wrapper
    &&& a.static_marker == b.static_marker
    &&& a.memo_wrapper == b.memo_wrapper
    &&& a.validate == b.validate
    &&& a.omit_nested_closing_tags == b.omit_nested_closing_tags
    &&& a.omit_last_closing_tag == b.omit_last_closing_tag
    &&& a.omit_quotes == b.omit_quotes
    &&& a.require_import_source == b.require_import_source
}

fn owned(s: &str) -> (r: String)
    ensures
        r@ == s@,
{
    let v = chars_of(s);
    string_of(&v)
}

impl Default for DomExpressionsOptions {
    fn default() -> (r: Self)
        ensures
            r.module_name@ == "solid-js/web"@,
            has_default_settings(r),
    {
        DomExpressionsOptions {
            module_name: owned("solid-js/web"),
            generate: GenerateMode::Dom,
            hydratable: false,
            delegate_events: true,
            wrap_conditionals: true,
            context_to_custom_elements: false,
            built_ins: Vec::new(),
            effect_wrapper: owned("effect"),
            static_marker: owned("@once"),
            memo_wrapper: owned("memo"),
            validate: true,
            omit_nested_closing_tags: false,
            omit_last_closing_tag: true,
            omit_quotes: true,
            require_import_source: None,
        }
    }
}

impl DomExpressionsOptions {
    /// Create a new options instance with the given module name
    pub fn new(module_name: &str) -> (r: Self)
        ensures
            r.module_name@ == module_name@,
            has_default_settings(r),
    {
        let mut o = Self::default();
        o.module_name = owned(module_name);
        o
    }

    /// Set the generate mode
    pub fn with_generate(self, generate: GenerateMode) -> (r: Self)
        ensures
            r.generate == generate,
            r.delegate_events == self.delegate_events,
            same_except_mode_and_delegation(self, r),
    {
        let mut o = self;
        o.generate = generate;
        o
    }

    /// Set whether to enable event delegation
    pub fn with_delegate_events(self, delegate: bool) -> (r: Self)
        ensures
            r.delegate_events == delegate,
            r.generate == self.generate,
            same_except_mode_and_delegation(self, r),
    {
        let mut o = self;
        o.delegate_events = delegate;
        o
    }
}

} // verus!
