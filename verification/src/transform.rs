//! Main transformer for DOM expressions
//!
//! The transformer turns JSX elements into templates and runtime calls:
//! each distinct template HTML gets one module-level variable, each
//! element with dynamic parts becomes an immediately invoked arrow function
//! that clones the template, walks to the dynamic positions and applies
//! `insert`, `setAttribute`, event handlers and the like; components become
//! `createComponent` calls and fragments become arrays.
//!
//! The transformer decides; whoever walks the syntax tree asks it at each
//! JSX node and puts the code it returns in place (see [`JsExpr`]).

pub mod helper;

use vstd::prelude::*;
use crate::compat::naming::{element_var_name, spec_element_var_name, spec_template_var_name, template_var_name};
use crate::js::{
    DeclKind, JsDecl, JsDeclV, JsExpr, JsExprV, JsProp, JsPropV, JsStmt, JsStmtV, assign_stmt,
    assign_stmt_v, call, call_stmt, call_stmt_v, call_v, decl_view, decls_view, expr_view,
    exprs1, exprs2, exprs3, exprs4, exprs_view, ident, lemma_decls_view, lemma_decls_view_push,
    lemma_exprs_view, lemma_exprs_view_push, lemma_props_view, lemma_props_view_push,
    lemma_stmts_view, lemma_stmts_view_concat, lemma_stmts_view_push, member, member_v, prop_view, props_view, stmt_view,
    stmts_view, str_lit, strings_view, thunk, thunk_v,
};
use crate::template::build_template_with_options;
use crate::jsx::{
    CalleeKind, ExprKind, ExprKindV, CalleeKindV, JsxNode, JsxAttrItem, JsxAttrName, JsxAttrValue, JsxChild,
    JsxElement, JsxElementName, JsxExpr, clone_jsx_expr, kind_view,
};
use crate::optimizer::{TemplateOptimizer, TemplateStats, EntryV, recorded, stats_fit, stats_of, reused};
use crate::options::DomExpressionsOptions;
use crate::template::{
    DynamicSlot, SlotKind, SlotType, SlotV, Template, TemplateV, all_whitespace, clone_path, clone_template, opt_path_view,
    owned, path_view, slots_view, template_of,
};
use crate::text::{has_char, has_prefix, is_whitespace_char, lowercase_of, str_eq, to_lowercase};
use crate::utils::{is_component, should_delegate_event, spec_is_component, spec_should_delegate_event};

verus! {

broadcast use vstd::string::group_string_axioms;

/// The arena allocator of the syntax tree; the transformer carries it for
/// the code that builds the output tree.
#[verifier::external_type_specification]
#[verifier::external_body]
pub struct ExAllocator(oxc_allocator::Allocator);

/// The counter after `c`, wrapping as an unchecked increment does in release builds.
pub open spec fn next_count(c: usize) -> usize {
    if c == usize::MAX {
        0
    } else {
        (c + 1) as usize
    }
}

/// The counter `k` steps after `c`.
pub open spec fn count_after(c: usize, k: nat) -> usize
    decreases k,
{
    if k == 0 {
        c
    } else {
        next_count(count_after(c, (k - 1) as nat))
    }
}

/// The part of the transformer's state that building code changes: the
/// templates by HTML with their variables, the element counter and the
/// runtime functions to import.
pub struct TState {
    pub templates: Seq<(Seq<char>, Seq<char>)>,
    pub element_counter: usize,
    pub imports: Seq<Seq<char>>,
}

/// The position of the template with this HTML.
pub open spec fn find_template(ts: Seq<(Seq<char>, Seq<char>)>, html: Seq<char>) -> Option<int>
    decreases ts.len(),
{
    if ts.len() == 0 {
        None
    } else {
        match find_template(ts.drop_last(), html) {
            Some(k) => Some(k),
            None => if ts.last().0 == html {
                Some(ts.len() - 1)
            } else {
                None
            },
        }
    }
}

/// The variable of a template: the existing one for known HTML, else the
/// next `_tmpl$` name, recorded.
pub open spec fn st_template_var(st: TState, html: Seq<char>) -> (TState, Seq<char>) {
    match find_template(st.templates, html) {
        Some(k) => (st, st.templates[k].1),
        None => {
            let v = spec_template_var_name(st.templates.len() + 1);
            (TState { templates: st.templates.push((html, v)), ..st }, v)
        },
    }
}

/// Record a runtime function to import, once, in the order first needed.
pub open spec fn st_add_import(st: TState, name: Seq<char>) -> TState {
    if st.imports.contains(name) {
        st
    } else {
        TState { imports: st.imports.push(name), ..st }
    }
}

/// The next element variable.
pub open spec fn st_element_var(st: TState) -> (TState, Seq<char>) {
    let c = next_count(st.element_counter);
    (TState { element_counter: c, ..st }, spec_element_var_name(c as nat))
}

/// Well-formed templates: the `k`-th has variable `_tmpl$` numbered `k + 1`,
/// and no HTML occurs twice.
pub open spec fn templates_wf(ts: Seq<(Seq<char>, Seq<char>)>) -> bool {
    &&& forall|k: int| 0 <= k < ts.len() ==> (#[trigger] ts[k]).1 == spec_template_var_name((k + 1) as nat)
    &&& forall|i: int, j: int| 0 <= i < j < ts.len() ==> (#[trigger] ts[i]).0 != (#[trigger] ts[j]).0
}

pub open spec fn tstate_wf(st: TState) -> bool {
    &&& templates_wf(st.templates)
    &&& forall|i: int, j: int| 0 <= i < j < st.imports.len() ==> st.imports[i] != st.imports[j]
}

/// The value of an embedded expression in emitted code.
pub open spec fn src_v(x: JsxExpr) -> JsExprV {
    JsExprV::Source(x.id as nat, kind_view(x.kind))
}

/// The main DOM expressions transformer
pub struct DomExpressions<'a> {
    allocator: &'a oxc_allocator::Allocator,
    options: DomExpressionsOptions,
    /// Templates of the elements seen, in order
    templates: Vec<Template>,
    /// Template HTML with its variable, in the order the variables were made
    template_map: Vec<(String, String)>,
    /// Counter for generating unique template variable names
    template_counter: usize,
    /// Counter for generating unique element variable names
    element_counter: usize,
    /// Runtime functions to import, in the order first needed
    required_imports: Vec<String>,
    /// Events that need delegation, lower case, sorted, each once
    delegated_events: Vec<String>,
    /// Optimizer for template analysis
    optimizer: TemplateOptimizer,
}

impl<'a> DomExpressions<'a> {
    /// The code-building state.
    pub closed spec fn tstate(&self) -> TState {
        TState {
            templates: self.template_map@.map_values(|p: (String, String)| (p.0@, p.1@)),
            element_counter: self.element_counter,
            imports: self.required_imports@.map_values(|s: String| s@),
        }
    }

    /// The events to delegate.
    pub closed spec fn events(&self) -> Seq<Seq<char>> {
        self.delegated_events@.map_values(|s: String| s@)
    }

    /// The templates of the elements seen.
    pub closed spec fn seen(&self) -> Seq<TemplateV> {
        self.templates@.map_values(|t: Template| t@)
    }

    /// The template statistics.
    pub closed spec fn usage(&self) -> Seq<EntryV> {
        self.optimizer.entries()
    }

    pub closed spec fn opts(&self) -> DomExpressionsOptions {
        self.options
    }

    /// The transformer's invariant.
    pub closed spec fn wf(&self) -> bool {
        &&& tstate_wf(self.tstate())
        &&& self.template_counter as int == self.template_map@.len()
        &&& self.optimizer.wf()
        &&& events_sorted(self.events())
    }

    /// Create a new DOM expressions transformer
    pub fn new(allocator: &'a oxc_allocator::Allocator, options: DomExpressionsOptions) -> (r: Self)
        ensures
            r.wf(),
            r.opts() == options,
            r.tstate() == (TState { templates: Seq::empty(), element_counter: 0, imports: Seq::empty() }),
            r.events() == Seq::<Seq<char>>::empty(),
            r.seen() == Seq::<TemplateV>::empty(),
            r.usage() == Seq::<EntryV>::empty(),
    {
        let r = DomExpressions {
            allocator,
            options,
            templates: Vec::new(),
            template_map: Vec::new(),
            template_counter: 0,
            element_counter: 0,
            required_imports: Vec::new(),
            delegated_events: Vec::new(),
            optimizer: TemplateOptimizer::new(),
        };
        assert(r.tstate().templates =~= Seq::<(Seq<char>, Seq<char>)>::empty());
        assert(r.tstate().imports =~= Seq::<Seq<char>>::empty());
        assert(r.events() =~= Seq::<Seq<char>>::empty());
        assert(r.seen() =~= Seq::<TemplateV>::empty());
        r
    }

    /// Get the current options
    pub fn options(&self) -> (r: &DomExpressionsOptions)
        ensures
            *r == self.opts(),
    {
        &self.options
    }

    /// Get template statistics for optimization analysis
    pub fn get_template_stats(&self) -> (r: TemplateStats)
        requires
            self.wf(),
            stats_fit(self.usage()),
        ensures
            stats_of(self.usage(), r),
    {
        self.optimizer.get_stats()
    }

    /// Get list of templates that were reused (deduplicated)
    pub fn get_reused_templates(&self) -> (r: Vec<(String, usize)>)
        requires
            self.wf(),
        ensures
            r@.map_values(|p: (String, usize)| (p.0@, p.1 as nat)) == reused(self.usage()),
    {
        self.optimizer.get_reused_templates()
    }

    /// Generate a unique template variable name
    fn generate_template_var(&mut self) -> (r: String)
        requires
            old(self).template_counter < usize::MAX,
        ensures
            final(self).template_counter == old(self).template_counter + 1,
            r@ == spec_template_var_name(final(self).template_counter as nat),
            final(self).tstate() == old(self).tstate(),
            final(self).keeps_rest(old(self)),
            final(self).keeps_all_but_events(old(self)),
    {
        self.template_counter = self.template_counter + 1;
        template_var_name(self.template_counter)
    }

    /// Get or create a template variable for given HTML
    pub(crate) fn get_template_var(&mut self, html: &str) -> (r: String)
        requires
            old(self).wf(),
        ensures
            final(self).wf(),
            (final(self).tstate(), r@) == st_template_var(old(self).tstate(), html@),
            final(self).keeps_rest(old(self)),
    {
        let ghost ts = old(self).tstate().templates;
        let n = self.template_map.len();
        for i in 0..n
            invariant
                n == self.template_map.len(),
                self == old(self),
                self.wf(),
                ts == self.tstate().templates,
                find_template(ts.take(i as int), html@) is None,
        {
            proof {
                assert(ts.take(i + 1).drop_last() =~= ts.take(i as int));
            }
            if str_eq(self.template_map[i].0.as_str(), html) {
                proof {
                    lemma_find_template_prefix(ts, html@, i as int);
                }
                return self.template_map[i].1.clone();
            }
        }
        assert(ts.take(n as int) =~= ts);
        let ghost before = self.template_map@;
        let key = owned(html);
        self.template_map.push((key, String::new()));
        assert(self.template_counter == n && n < self.template_map.len());
        let ghost pushed = self.tstate().templates;
        let var = self.generate_template_var();
        assert(var@ == spec_template_var_name((n + 1) as nat));
        assert(self.template_map@.len() == pushed.len());
        let h2 = owned(html);
        let v2 = var.clone();
        assert(v2@ == var@);
        self.template_map.set(n, (h2, v2));
        assert(self.tstate().templates[n as int] == (html@, spec_template_var_name((n + 1) as nat)));
        assert(forall|j: int| 0 <= j < n ==> self.tstate().templates[j] == pushed[j]);
        assert(forall|j: int| 0 <= j < n ==> pushed[j] == ts[j]);
        proof {
            assert(self.events() == old(self).events());
            assert(self.tstate().imports == old(self).tstate().imports);
            let nts = self.tstate().templates;
            assert(nts =~= ts.push((html@, spec_template_var_name((n + 1) as nat))));
            assert forall|i: int, j: int| 0 <= i < j < nts.len() implies (#[trigger] nts[i]).0 != (#[trigger] nts[j]).0 by {
                if j == nts.len() - 1 {
                    lemma_find_template_none(ts, html@, i);
                }
            }
        }
        var
    }

    /// Add a required import (preserves insertion order)
    pub(crate) fn add_import(&mut self, name: &str)
        requires
            old(self).wf(),
        ensures
            final(self).wf(),
            final(self).tstate() == st_add_import(old(self).tstate(), name@),
            final(self).keeps_rest(old(self)),
    {
        let ghost im = self.tstate().imports;
        let n = self.required_imports.len();
        for i in 0..n
            invariant
                n == self.required_imports.len(),
                self == old(self),
                self.wf(),
                im == self.tstate().imports,
                forall|j: int| 0 <= j < i ==> im[j] != name@,
        {
            if str_eq(self.required_imports[i].as_str(), name) {
                assert(im[i as int] == name@);
                assert(im.contains(name@));
                return;
            }
        }
        assert(!im.contains(name@));
        self.required_imports.push(owned(name));
        assert(self.tstate().imports =~= im.push(name@));
        assert(self.tstate() == st_add_import(old(self).tstate(), name@));
    }

    /// Generate unique element variable name
    pub(crate) fn generate_element_var(&mut self) -> (r: String)
        requires
            old(self).wf(),
        ensures
            final(self).wf(),
            (final(self).tstate(), r@) == st_element_var(old(self).tstate()),
            final(self).keeps_rest(old(self)),
    {
        self.element_counter = if self.element_counter == usize::MAX {
            0
        } else {
            self.element_counter + 1
        };
        proof {
            assert(self.tstate().templates == old(self).tstate().templates);
            assert(self.tstate().imports == old(self).tstate().imports);
            assert(tstate_wf(self.tstate()));
            assert(self.events() == old(self).events());
        }
        element_var_name(self.element_counter)
    }
}


// ---------------------------------------------------------------------------
// The shapes of the emitted statements
// ---------------------------------------------------------------------------

pub open spec fn id_v(name: Seq<char>) -> JsExprV {
    JsExprV::Ident(name)
}

pub open spec fn str_v(s: Seq<char>) -> JsExprV {
    JsExprV::Str(s)
}

/// `_tmpl$N()`: a fresh copy of a template's nodes.
pub open spec fn template_call_v(template_var: Seq<char>) -> JsExprV {
    call_v(template_var, Seq::empty())
}

/// `el.step`, the next node from `el`.
pub open spec fn ref_decl_v(elem_var: Seq<char>, base_var: Seq<char>, step: Seq<char>) -> JsDeclV {
    JsDeclV { name: elem_var, init: member_v(id_v(base_var), step) }
}

/// `_$insert(el, value, marker)`, with `null` when there is no marker.
pub open spec fn insert_stmt_v(el: Seq<char>, value: JsExprV, marker: Option<Seq<char>>) -> JsStmtV {
    call_stmt_v("_$insert"@, seq![id_v(el), value, marker_arg_v(marker)])
}

/// The marker argument of an insert: the marker's variable, or `null`.
pub open spec fn marker_arg_v(marker: Option<Seq<char>>) -> JsExprV {
    match marker {
        Some(m) => id_v(m),
        None => JsExprV::Null,
    }
}

/// `_$effect(() => _$setAttribute(el, "name", value))`
pub open spec fn set_attribute_effect_v(el: Seq<char>, name: Seq<char>, value: JsExprV) -> JsStmtV {
    call_stmt_v("_$effect"@, seq![thunk_v(call_v("_$setAttribute"@, seq![id_v(el), str_v(name), value]))])
}

/// `_$setAttribute(el, "name", value)`
pub open spec fn set_attribute_v(el: Seq<char>, name: Seq<char>, value: JsExprV) -> JsStmtV {
    call_stmt_v("_$setAttribute"@, seq![id_v(el), str_v(name), value])
}

/// `el.name = value`
pub open spec fn property_assignment_v(el: Seq<char>, name: Seq<char>, value: JsExprV) -> JsStmtV {
    assign_stmt_v(id_v(el), name, value)
}

/// `el.$$event = handler`, the event name in lower case.
pub open spec fn delegated_handler_v(el: Seq<char>, event: Seq<char>, handler: JsExprV) -> JsStmtV {
    assign_stmt_v(id_v(el), "$$"@ + lowercase_of(event), handler)
}

/// `el.$$eventData = data`, the event name in lower case.
pub open spec fn delegated_data_v(el: Seq<char>, event: Seq<char>, data: JsExprV) -> JsStmtV {
    assign_stmt_v(id_v(el), "$$"@ + lowercase_of(event) + "Data"@, data)
}

/// `el.addEventListener("event", args...)`
pub open spec fn listener_call_v(el: Seq<char>, event: Seq<char>, rest: Seq<JsExprV>) -> JsStmtV {
    JsStmtV::Expr(
        JsExprV::Call {
            callee: Box::new(member_v(id_v(el), "addEventListener"@)),
            args: seq![str_v(event)] + rest,
            pure: false,
        },
    )
}

/// `_$addEventListener(el, "event", handler)`, with `true` added for a delegated one.
pub open spec fn listener_helper_v(el: Seq<char>, event: Seq<char>, handler: JsExprV, delegated: bool) -> JsStmtV {
    call_stmt_v(
        "_$addEventListener"@,
        seq![id_v(el), str_v(event), handler] + if delegated {
            seq![JsExprV::Bool(true)]
        } else {
            Seq::empty()
        },
    )
}

/// `e => handler(data, e)`
pub open spec fn event_wrapper_v(handler: JsExprV, data: JsExprV) -> JsExprV {
    JsExprV::Arrow {
        params: seq!["e"@],
        body: seq![JsStmtV::Expr(JsExprV::Call { callee: Box::new(handler), args: seq![data, id_v("e"@)], pure: false })],
        expression: true,
    }
}

/// Is this a call, so that its value may change and wants an effect?
pub open spec fn is_call_v(e: JsExprV) -> bool {
    e is Call || (e matches JsExprV::Source(_, k) && k is Call)
}

/// `f(el, "name", value)`, inside `_$effect(() => ...)` when the value is a call.
pub open spec fn effect_if_call_v(f: Seq<char>, el: Seq<char>, name: Seq<char>, value: JsExprV) -> JsStmtV {
    let c = call_v(f, seq![id_v(el), str_v(name), value]);
    if is_call_v(value) {
        call_stmt_v("_$effect"@, seq![thunk_v(c)])
    } else {
        JsStmtV::Expr(c)
    }
}

pub open spec fn return_v(root: Seq<char>) -> JsStmtV {
    JsStmtV::Return(id_v(root))
}

fn is_call(e: &JsExpr) -> (r: bool)
    ensures
        r == is_call_v(expr_view(*e)),
{
    match e {
        JsExpr::Call { .. } => true,
        JsExpr::Source(x) => match &x.kind {
            ExprKind::Call { .. } => true,
            _ => false,
        },
        _ => false,
    }
}

impl<'a> DomExpressions<'a> {
    /// Create a call expression for cloning a template
    pub fn create_template_call(&self, template_var: &str) -> (r: JsExpr)
        ensures
            expr_view(r) == template_call_v(template_var@),
    {
        let args: Vec<JsExpr> = Vec::new();
        assert(exprs_view(args@) =~= Seq::<JsExprV>::empty());
        call(template_var, args)
    }

    /// Create the root element declarator: var _el$ = _tmpl$()
    pub fn create_root_element_declarator(&self, root_var: &str, template_var: &str) -> (r: JsDecl)
        ensures
            decl_view(r) == (JsDeclV { name: root_var@, init: template_call_v(template_var@) }),
    {
        JsDecl { name: owned(root_var), init: self.create_template_call(template_var) }
    }

    /// Create an element reference declarator: var _el$2 = _el$.firstChild
    pub fn create_element_ref_declarator(&self, elem_var: &str, root_var: &str, step: &str) -> (r: JsDecl)
        ensures
            decl_view(r) == ref_decl_v(elem_var@, root_var@, step@),
    {
        JsDecl { name: owned(elem_var), init: member(ident(root_var), step) }
    }

    /// `return root;`
    pub fn create_return_statement(&self, root_var: &str) -> (r: JsStmt)
        ensures
            stmt_view(r) == return_v(root_var@),
    {
        JsStmt::Return(ident(root_var))
    }

    /// Create an insert call statement with optional marker
    pub fn create_insert_call_with_marker(&self, element_var: &str, expr: JsExpr, marker_var: Option<&str>) -> (r: JsStmt)
        ensures
            stmt_view(r) == insert_stmt_v(
                element_var@,
                expr_view(expr),
                match marker_var {
                    Some(m) => Some(m@),
                    None => None,
                },
            ),
    {
        let ghost mv = match marker_var {
            Some(m) => id_v(m@),
            None => JsExprV::Null,
        };
        let m = match marker_var {
            Some(m) => ident(m),
            None => JsExpr::Null,
        };
        let ghost mo: Option<Seq<char>> = match marker_var {
            Some(m) => Some(m@),
            None => None,
        };
        let ghost e = expr_view(expr);
        assert(expr_view(m) == mv);
        let r = call_stmt("_$insert", exprs3(ident(element_var), expr, m));
        assert(marker_arg_v(mo) == mv);
        r
    }

    /// Create a setAttribute call wrapped in effect
    pub fn create_set_attribute_call(&self, element_var: &str, attr_name: &str, value: JsExpr) -> (r: JsStmt)
        ensures
            stmt_view(r) == set_attribute_effect_v(element_var@, attr_name@, expr_view(value)),
    {
        let inner = call("_$setAttribute", exprs3(ident(element_var), str_lit(attr_name), value));
        call_stmt("_$effect", exprs1(thunk(inner)))
    }

    /// Create a property assignment statement: element.propName = value;
    pub fn create_property_assignment(&self, element_var: &str, prop_name: &str, value: JsExpr) -> (r: JsStmt)
        ensures
            stmt_view(r) == property_assignment_v(element_var@, prop_name@, expr_view(value)),
    {
        assign_stmt(ident(element_var), prop_name, value)
    }

    /// Create a static setAttribute call (without effect wrapper)
    pub fn create_static_set_attribute_call(&self, element_var: &str, attr_name: &str, value: JsExpr) -> (r: JsStmt)
        ensures
            stmt_view(r) == set_attribute_v(element_var@, attr_name@, expr_view(value)),
    {
        call_stmt("_$setAttribute", exprs3(ident(element_var), str_lit(attr_name), value))
    }

    /// Create a delegated event handler assignment: element.$$eventName = handler;
    pub fn create_delegated_event_handler(&self, element_var: &str, event_name: &str, handler: JsExpr) -> (r: JsStmt)
        ensures
            stmt_view(r) == delegated_handler_v(element_var@, event_name@, expr_view(handler)),
    {
        let lower = to_lowercase(event_name);
        let mut prop: Vec<char> = Vec::new();
        crate::text::extend_str(&mut prop, "$$");
        crate::text::extend_str(&mut prop, lower.as_str());
        let p = crate::text::string_of(&prop);
        assign_stmt(ident(element_var), p.as_str(), handler)
    }

    /// Create element.$$eventNameData = data;
    pub fn create_delegated_event_data(&self, element_var: &str, event_name: &str, data: JsExpr) -> (r: JsStmt)
        ensures
            stmt_view(r) == delegated_data_v(element_var@, event_name@, expr_view(data)),
    {
        let lower = to_lowercase(event_name);
        let mut prop: Vec<char> = Vec::new();
        crate::text::extend_str(&mut prop, "$$");
        crate::text::extend_str(&mut prop, lower.as_str());
        crate::text::extend_str(&mut prop, "Data");
        let p = crate::text::string_of(&prop);
        assign_stmt(ident(element_var), p.as_str(), data)
    }

    /// Create an addEventListener call: element.addEventListener(eventName, handler);
    pub fn create_add_event_listener(&self, element_var: &str, event_name: &str, handler: JsExpr) -> (r: JsStmt)
        ensures
            stmt_view(r) == listener_call_v(element_var@, event_name@, seq![expr_view(handler)]),
    {
        let ghost h = expr_view(handler);
        let args = exprs2(str_lit(event_name), handler);
        assert(seq![str_v(event_name@)] + seq![h] =~= seq![str_v(event_name@), h]);
        JsStmt::Expr(JsExpr::Call { callee: Box::new(member(ident(element_var), "addEventListener")), args, pure: false })
    }

    /// Create a capture phase event listener: element.addEventListener(eventName, handler, true);
    pub fn create_capture_event_listener(&self, element_var: &str, event_name: &str, handler: JsExpr) -> (r: JsStmt)
        ensures
            stmt_view(r) == listener_call_v(element_var@, event_name@, seq![expr_view(handler), JsExprV::Bool(true)]),
    {
        let args = exprs3(str_lit(event_name), handler, JsExpr::Bool(true));
        let r = JsStmt::Expr(
            JsExpr::Call { callee: Box::new(member(ident(element_var), "addEventListener")), args, pure: false },
        );
        assert(seq![str_v(event_name@)] + seq![expr_view(handler), JsExprV::Bool(true)] =~= seq![
            str_v(event_name@),
            expr_view(handler),
            JsExprV::Bool(true),
        ]);
        r
    }

    /// Create _$addEventListener helper call
    pub fn create_add_event_listener_helper(
        &self,
        element_var: &str,
        event_name: &str,
        handler: JsExpr,
        is_delegated: bool,
    ) -> (r: JsStmt)
        ensures
            stmt_view(r) == listener_helper_v(element_var@, event_name@, expr_view(handler), is_delegated),
    {
        let ghost h = expr_view(handler);
        if is_delegated {
            let r = call_stmt(
                "_$addEventListener",
                exprs4(ident(element_var), str_lit(event_name), handler, JsExpr::Bool(true)),
            );
            assert(seq![id_v(element_var@), str_v(event_name@), h] + seq![JsExprV::Bool(true)] =~= seq![
                id_v(element_var@),
                str_v(event_name@),
                h,
                JsExprV::Bool(true),
            ]);
            r
        } else {
            let r = call_stmt("_$addEventListener", exprs3(ident(element_var), str_lit(event_name), handler));
            assert(seq![id_v(element_var@), str_v(event_name@), h] + Seq::<JsExprV>::empty() =~= seq![
                id_v(element_var@),
                str_v(event_name@),
                h,
            ]);
            r
        }
    }

    /// Create a wrapper function for event handlers with data: e => handler(data, e)
    pub fn create_event_wrapper(&self, handler: JsExpr, data: JsExpr) -> (r: JsExpr)
        ensures
            expr_view(r) == event_wrapper_v(expr_view(handler), expr_view(data)),
    {
        let c = JsExpr::Call { callee: Box::new(handler), args: exprs2(data, ident("e")), pure: false };
        let mut body: Vec<JsStmt> = Vec::new();
        let s = JsStmt::Expr(c);
        proof {
            lemma_stmts_view_push(body@, s);
        }
        body.push(s);
        assert(stmts_view(Seq::<JsStmt>::empty()) =~= Seq::<JsStmtV>::empty());
        let mut params: Vec<String> = Vec::new();
        params.push(owned("e"));
        assert(strings_view(params@) =~= seq!["e"@]);
        JsExpr::Arrow { params, body, expression: true }
    }

    /// Create wrapped event handler: element.addEventListener(event, e => handler(data, e))
    pub fn create_wrapped_event_handler(&self, element_var: &str, event_name: &str, handler: JsExpr, data: JsExpr) -> (r: JsStmt)
        ensures
            stmt_view(r) == listener_call_v(
                element_var@,
                event_name@,
                seq![event_wrapper_v(expr_view(handler), expr_view(data))],
            ),
    {
        let w = self.create_event_wrapper(handler, data);
        self.create_add_event_listener(element_var, event_name, w)
    }

    /// `f(el, "name", value)`, wrapped in an effect when the value is a call.
    fn effect_if_call(&self, f: &str, element_var: &str, name: &str, value: JsExpr) -> (r: JsStmt)
        ensures
            stmt_view(r) == effect_if_call_v(f@, element_var@, name@, expr_view(value)),
    {
        let reactive = is_call(&value);
        let c = call(f, exprs3(ident(element_var), str_lit(name), value));
        if reactive {
            call_stmt("_$effect", exprs1(thunk(c)))
        } else {
            JsStmt::Expr(c)
        }
    }

    /// Create a setStyleProperty call, wrapped in an effect when the value is a call
    pub fn create_set_style_property_call(&self, element_var: &str, property_name: &str, value: JsExpr) -> (r: JsStmt)
        ensures
            stmt_view(r) == effect_if_call_v("_$setStyleProperty"@, element_var@, property_name@, expr_view(value)),
    {
        self.effect_if_call("_$setStyleProperty", element_var, property_name, value)
    }

    /// Create a setBoolAttribute call, optionally wrapped in effect
    pub fn create_set_bool_attribute_call(&self, element_var: &str, attr_name: &str, value: JsExpr) -> (r: JsStmt)
        ensures
            stmt_view(r) == effect_if_call_v("_$setBoolAttribute"@, element_var@, attr_name@, expr_view(value)),
    {
        self.effect_if_call("_$setBoolAttribute", element_var, attr_name, value)
    }

    /// Create a className call: _$className(element, className, value)
    pub fn create_class_name_call(&self, element_var: &str, class_name: &str, value: JsExpr) -> (r: JsStmt)
        ensures
            stmt_view(r) == call_stmt_v("_$className"@, seq![id_v(element_var@), str_v(class_name@), expr_view(value)]),
    {
        call_stmt("_$className", exprs3(ident(element_var), str_lit(class_name), value))
    }

    /// Create a ref call: _$use(ref, element)
    pub fn create_ref_call(&self, element_var: &str, ref_expr: JsExpr) -> (r: JsStmt)
        ensures
            stmt_view(r) == call_stmt_v("_$use"@, seq![expr_view(ref_expr), id_v(element_var@)]),
    {
        call_stmt("_$use", exprs2(ref_expr, ident(element_var)))
    }

    /// Create a spread call: _$spread(element, props, false, true)
    pub fn create_spread_call(&self, element_var: &str, spread_expr: JsExpr) -> (r: JsStmt)
        ensures
            stmt_view(r) == call_stmt_v(
                "_$spread"@,
                seq![id_v(element_var@), expr_view(spread_expr), JsExprV::Bool(false), JsExprV::Bool(true)],
            ),
    {
        call_stmt("_$spread", exprs4(ident(element_var), spread_expr, JsExpr::Bool(false), JsExpr::Bool(true)))
    }

    /// Create a classList call: _$classList(element, classListObject)
    pub fn create_class_list_call(&self, element_var: &str, class_list: JsExpr) -> (r: JsStmt)
        ensures
            stmt_view(r) == call_stmt_v("_$classList"@, seq![id_v(element_var@), expr_view(class_list)]),
    {
        call_stmt("_$classList", exprs2(ident(element_var), class_list))
    }

    /// Create a style object call: _$style(element, styleObject)
    pub fn create_style_object_call(&self, element_var: &str, style: JsExpr) -> (r: JsStmt)
        ensures
            stmt_view(r) == call_stmt_v("_$style"@, seq![id_v(element_var@), expr_view(style)]),
    {
        call_stmt("_$style", exprs2(ident(element_var), style))
    }

    /// Create a use directive call: directive(element)
    pub fn create_use_directive_call(&self, element_var: &str, directive: JsExpr) -> (r: JsStmt)
        ensures
            stmt_view(r) == JsStmtV::Expr(
                JsExprV::Call { callee: Box::new(expr_view(directive)), args: seq![id_v(element_var@)], pure: false },
            ),
    {
        JsStmt::Expr(JsExpr::Call { callee: Box::new(directive), args: exprs1(ident(element_var)), pure: false })
    }
}


// ---------------------------------------------------------------------------
// Element references
// ---------------------------------------------------------------------------

/// A path of `firstChild` / `nextSibling` steps.
pub type PathV = Seq<Seq<char>>;

pub open spec fn paths_view(v: Seq<Vec<String>>) -> Seq<PathV> {
    v.map_values(|p: Vec<String>| path_view(p@))
}

pub open spec fn add_unique(ps: Seq<PathV>, p: PathV) -> Seq<PathV> {
    if ps.contains(p) {
        ps
    } else {
        ps.push(p)
    }
}

/// Add the prefixes of `p` of lengths 1 to `k`, shortest first, each once.
pub open spec fn add_prefixes(ps: Seq<PathV>, p: PathV, k: int) -> Seq<PathV>
    decreases k,
{
    if k <= 0 {
        ps
    } else {
        add_unique(add_prefixes(ps, p, k - 1), p.take(k))
    }
}

/// `init`, then every non-empty prefix of the slots' paths and marker
/// paths not yet there, in the order first met.
pub open spec fn slot_paths(init: Seq<PathV>, slots: Seq<SlotV>, i: int) -> Seq<PathV>
    decreases i,
{
    if i <= 0 || i > slots.len() {
        init
    } else {
        let ps = slot_paths(init, slots, i - 1);
        let s = slots[i - 1];
        let ps2 = add_prefixes(ps, s.path, s.path.len() as int);
        match s.marker {
            Some(m) => add_prefixes(ps2, m, m.len() as int),
            None => ps2,
        }
    }
}

/// The first position at or after `i` holding a path longer than `n`.
pub open spec fn first_longer(s: Seq<PathV>, n: nat, i: int) -> int
    decreases s.len() - i,
{
    if i < 0 || i >= s.len() || s[i].len() > n {
        i
    } else {
        first_longer(s, n, i + 1)
    }
}

/// Insert `p` after every path not longer than it.
pub open spec fn insert_by_len(s: Seq<PathV>, p: PathV) -> Seq<PathV> {
    s.insert(first_longer(s, p.len(), 0), p)
}

/// The first `i` paths, sorted by length; paths of equal length keep their order.
pub open spec fn sort_by_len(ps: Seq<PathV>, i: int) -> Seq<PathV>
    decreases i,
{
    if i <= 0 || i > ps.len() {
        Seq::empty()
    } else {
        insert_by_len(sort_by_len(ps, i - 1), ps[i - 1])
    }
}

/// The paths that get an element variable, parents before children; with
/// `first_child`, `firstChild` is among them whatever the slots.
pub open spec fn decl_paths(slots: Seq<SlotV>, first_child: bool) -> Seq<PathV> {
    let init = if first_child { seq![seq![first_child_step()]] } else { Seq::empty() };
    let ps = slot_paths(init, slots, slots.len() as int);
    sort_by_len(ps, ps.len() as int)
}

pub open spec fn first_child_step() -> Seq<char> {
    "firstChild"@
}

/// The first position of `p` in `ps`.
pub open spec fn find_path(ps: Seq<PathV>, p: PathV) -> Option<int>
    decreases ps.len(),
{
    if ps.len() == 0 {
        None
    } else {
        match find_path(ps.drop_last(), p) {
            Some(k) => Some(k),
            None => if ps.last() == p {
                Some(ps.len() - 1)
            } else {
                None
            },
        }
    }
}

/// The variable of the `k`-th path, when the element counter stands at `c`.
pub open spec fn ref_var(c: usize, k: int) -> Seq<char> {
    spec_element_var_name(count_after(c, (k + 1) as nat) as nat)
}

/// The variable the `k`-th path steps from: the root for a one-step path,
/// else its parent's variable (the root where the parent has none).
pub open spec fn base_var(paths: Seq<PathV>, c: usize, root: Seq<char>, k: int) -> Seq<char> {
    let p = paths[k];
    if p.len() == 1 {
        root
    } else {
        match find_path(paths.take(k), p.drop_last()) {
            Some(j) => ref_var(c, j),
            None => root,
        }
    }
}

/// The declaration `var root = _tmpl$(), _el$2 = root.firstChild, ...` of
/// a template's element references, when the root is named `root` and the
/// element counter stands at `c`: the new counter, the declaration, and
/// each path with its variable.
pub open spec fn refs_decls_v(slots: Seq<SlotV>, c: usize, template_var: Seq<char>, root: Seq<char>, first_child: bool) -> (
    usize,
    JsStmtV,
    Seq<(PathV, Seq<char>)>,
) {
    let paths = decl_paths(slots, first_child);
    let decls = seq![JsDeclV { name: root, init: template_call_v(template_var) }] + Seq::new(
        paths.len(),
        |k: int| ref_decl_v(ref_var(c, k), base_var(paths, c, root, k), paths[k].last()),
    );
    (
        count_after(c, paths.len()),
        JsStmtV::Var { kind: DeclKind::Var, decls },
        Seq::new(paths.len(), |k: int| (paths[k], ref_var(c, k))),
    )
}

/// The element references of a template when the element counter stands
/// at `c`: the root takes the next variable, then each path: the new
/// counter, the root, the declaration, and each path with its variable.
pub open spec fn element_decls_v(slots: Seq<SlotV>, c: usize, template_var: Seq<char>) -> (
    usize,
    Seq<char>,
    JsStmtV,
    Seq<(PathV, Seq<char>)>,
) {
    let c1 = next_count(c);
    let root = spec_element_var_name(c1 as nat);
    let (c2, decl, ptv) = refs_decls_v(slots, c1, template_var, root, false);
    (c2, root, decl, ptv)
}

pub open spec fn ptv_view(v: Seq<(Vec<String>, String)>) -> Seq<(PathV, Seq<char>)> {
    v.map_values(|e: (Vec<String>, String)| (path_view(e.0@), e.1@))
}

fn paths_eq(a: &Vec<String>, b: &Vec<String>) -> (r: bool)
    ensures
        r == (path_view(a@) == path_view(b@)),
{
    if a.len() != b.len() {
        assert(path_view(a@).len() != path_view(b@).len());
        return false;
    }
    let n = a.len();
    for i in 0..n
        invariant
            n == a.len(),
            n == b.len(),
            forall|j: int| 0 <= j < i ==> a@[j]@ == b@[j]@,
    {
        if !str_eq(a[i].as_str(), b[i].as_str()) {
            assert(path_view(a@)[i as int] != path_view(b@)[i as int]);
            return false;
        }
    }
    assert(path_view(a@) =~= path_view(b@));
    true
}

/// The first `k` steps of `p`.
fn take_path(p: &Vec<String>, k: usize) -> (r: Vec<String>)
    requires
        k <= p.len(),
    ensures
        path_view(r@) == path_view(p@).take(k as int),
{
    let mut r: Vec<String> = Vec::new();
    for i in 0..k
        invariant
            k <= p.len(),
            path_view(r@) == path_view(p@).take(i as int),
    {
        let ghost before = r@;
        r.push(p[i].clone());
        assert(path_view(r@) =~= path_view(before).push(p@[i as int]@));
        assert(path_view(p@).take(i + 1) =~= path_view(p@).take(i as int).push(p@[i as int]@));
    }
    r
}

fn contains_path(ps: &Vec<Vec<String>>, p: &Vec<String>) -> (r: bool)
    ensures
        r == paths_view(ps@).contains(path_view(p@)),
{
    let n = ps.len();
    for i in 0..n
        invariant
            n == ps.len(),
            forall|j: int| 0 <= j < i ==> paths_view(ps@)[j] != path_view(p@),
    {
        if paths_eq(&ps[i], p) {
            assert(paths_view(ps@)[i as int] == path_view(p@));
            return true;
        }
    }
    false
}

fn push_prefixes(ps: &mut Vec<Vec<String>>, p: &Vec<String>)
    ensures
        paths_view(final(ps)@) == add_prefixes(paths_view(old(ps)@), path_view(p@), p@.len() as int),
{
    let n = p.len();
    for k in 0..n
        invariant
            n == p.len(),
            paths_view(ps@) == add_prefixes(paths_view(old(ps)@), path_view(p@), k as int),
    {
        let q = take_path(p, k + 1);
        if !contains_path(ps, &q) {
            let ghost before = ps@;
            ps.push(q);
            assert(paths_view(ps@) =~= paths_view(before).push(path_view(q@)));
        }
    }
}

fn collect_slot_paths(slots: &Vec<DynamicSlot>, first_child: bool) -> (r: Vec<Vec<String>>)
    ensures
        paths_view(r@) == slot_paths(
            if first_child { seq![seq![first_child_step()]] } else { Seq::empty() },
            slots_view(slots@),
            slots@.len() as int,
        ),
{
    let ghost sv = slots_view(slots@);
    let ghost init: Seq<PathV> = if first_child { seq![seq![first_child_step()]] } else { Seq::empty() };
    let mut ps: Vec<Vec<String>> = Vec::new();
    if first_child {
        let mut p: Vec<String> = Vec::new();
        p.push(owned("firstChild"));
        assert(path_view(p@) =~= seq![first_child_step()]);
        ps.push(p);
        assert(paths_view(ps@) =~= init);
    } else {
        assert(paths_view(ps@) =~= init);
    }
    let n = slots.len();
    for i in 0..n
        invariant
            n == slots.len(),
            sv == slots_view(slots@),
            paths_view(ps@) == slot_paths(init, sv, i as int),
    {
        let slot = &slots[i];
        assert(sv[i as int] == slot@);
        push_prefixes(&mut ps, &slot.path);
        match &slot.marker_path {
            Some(m) => {
                push_prefixes(&mut ps, m);
            },
            None => {},
        }
    }
    ps
}

fn sort_paths_by_len(ps: &Vec<Vec<String>>) -> (r: Vec<Vec<String>>)
    ensures
        paths_view(r@) == sort_by_len(paths_view(ps@), ps@.len() as int),
{
    let ghost pv = paths_view(ps@);
    let mut sorted: Vec<Vec<String>> = Vec::new();
    assert(paths_view(sorted@) =~= Seq::<PathV>::empty());
    let n = ps.len();
    for i in 0..n
        invariant
            n == ps.len(),
            pv == paths_view(ps@),
            paths_view(sorted@) == sort_by_len(pv, i as int),
    {
        let p = &ps[i];
        let ghost sv = paths_view(sorted@);
        let mut k: usize = 0;
        while k < sorted.len() && sorted[k].len() <= p.len()
            invariant
                k <= sorted.len(),
                sv == paths_view(sorted@),
                first_longer(sv, path_view(p@).len(), 0) == first_longer(sv, path_view(p@).len(), k as int),
            decreases sorted.len() - k,
        {
            assert(sv[k as int].len() == sorted@[k as int]@.len());
            k = k + 1;
        }
        proof {
            if k < sorted.len() {
                assert(sv[k as int].len() == sorted@[k as int]@.len());
            }
        }
        sorted.insert(k, clone_path(p));
        assert(paths_view(sorted@) =~= sv.insert(k as int, pv[i as int]));
    }
    sorted
}

fn lookup_path(ptv: &Vec<(Vec<String>, String)>, p: &Vec<String>) -> (r: Option<usize>)
    ensures
        r matches Some(j) ==> j < ptv.len(),
        match r {
            Some(j) => find_path(ptv_view(ptv@).map_values(|e: (PathV, Seq<char>)| e.0), path_view(p@)) == Some(
                j as int,
            ),
            None => find_path(ptv_view(ptv@).map_values(|e: (PathV, Seq<char>)| e.0), path_view(p@)) is None,
        },
{
    let ghost keys = ptv_view(ptv@).map_values(|e: (PathV, Seq<char>)| e.0);
    let n = ptv.len();
    for i in 0..n
        invariant
            n == ptv.len(),
            keys == ptv_view(ptv@).map_values(|e: (PathV, Seq<char>)| e.0),
            find_path(keys.take(i as int), path_view(p@)) is None,
    {
        assert(keys.take(i + 1).drop_last() =~= keys.take(i as int));
        if paths_eq(&ptv[i].0, p) {
            proof {
                lemma_find_path_first(keys, path_view(p@), i as int);
            }
            return Some(i);
        }
    }
    assert(keys.take(n as int) =~= keys);
    None
}

proof fn lemma_find_path_bound(ps: Seq<PathV>, p: PathV)
    ensures
        find_path(ps, p) matches Some(j) ==> 0 <= j < ps.len() && ps[j] == p,
    decreases ps.len(),
{
    if ps.len() > 0 {
        lemma_find_path_bound(ps.drop_last(), p);
    }
}

proof fn lemma_find_path_first(ps: Seq<PathV>, p: PathV, i: int)
    requires
        0 <= i < ps.len(),
        find_path(ps.take(i), p) is None,
        ps[i] == p,
    ensures
        find_path(ps, p) == Some(i),
    decreases ps.len(),
{
    if i < ps.len() - 1 {
        assert(ps.drop_last().take(i) =~= ps.take(i));
        lemma_find_path_first(ps.drop_last(), p, i);
    } else {
        assert(ps.drop_last() =~= ps.take(i));
    }
}


pub open spec fn all_nonempty(ps: Seq<PathV>) -> bool {
    forall|i: int| 0 <= i < ps.len() ==> (#[trigger] ps[i]).len() >= 1
}

proof fn lemma_add_prefixes_nonempty(ps: Seq<PathV>, p: PathV, k: int)
    requires
        all_nonempty(ps),
        k <= p.len(),
    ensures
        all_nonempty(add_prefixes(ps, p, k)),
    decreases k,
{
    if k > 0 {
        lemma_add_prefixes_nonempty(ps, p, k - 1);
        assert(p.take(k).len() == k);
    }
}

proof fn lemma_slot_paths_nonempty(init: Seq<PathV>, slots: Seq<SlotV>, i: int)
    requires
        all_nonempty(init),
    ensures
        all_nonempty(slot_paths(init, slots, i)),
    decreases i,
{
    if i > 0 && i <= slots.len() {
        lemma_slot_paths_nonempty(init, slots, i - 1);
        let s = slots[i - 1];
        lemma_add_prefixes_nonempty(slot_paths(init, slots, i - 1), s.path, s.path.len() as int);
        match s.marker {
            Some(m) => {
                lemma_add_prefixes_nonempty(
                    add_prefixes(slot_paths(init, slots, i - 1), s.path, s.path.len() as int),
                    m,
                    m.len() as int,
                );
            },
            None => {},
        }
    }
}

proof fn lemma_first_longer_bounds(s: Seq<PathV>, n: nat, i: int)
    requires
        0 <= i <= s.len(),
    ensures
        i <= first_longer(s, n, i) <= s.len(),
    decreases s.len() - i,
{
    if i < s.len() && s[i].len() <= n {
        lemma_first_longer_bounds(s, n, i + 1);
    }
}

proof fn lemma_sort_nonempty(ps: Seq<PathV>, i: int)
    requires
        all_nonempty(ps),
    ensures
        all_nonempty(sort_by_len(ps, i)),
    decreases i,
{
    if i > 0 && i <= ps.len() {
        lemma_sort_nonempty(ps, i - 1);
        let s = sort_by_len(ps, i - 1);
        let k = first_longer(s, ps[i - 1].len(), 0);
        lemma_first_longer_bounds(s, ps[i - 1].len(), 0);
        s.insert_ensures(k, ps[i - 1]);
        assert forall|j: int| 0 <= j < s.insert(k, ps[i - 1]).len() implies (#[trigger] s.insert(k, ps[i - 1])[j]).len() >= 1 by {
            if j < k {
            } else if j == k {
            } else {
                assert(s.insert(k, ps[i - 1])[(j - 1) + 1] == s[j - 1]);
            }
        }
    }
}

/// Every path that gets a variable has at least one step.
proof fn lemma_decl_paths_nonempty(slots: Seq<SlotV>, first_child: bool)
    ensures
        all_nonempty(decl_paths(slots, first_child)),
{
    let init: Seq<PathV> = if first_child { seq![seq![first_child_step()]] } else { Seq::empty() };
    lemma_slot_paths_nonempty(init, slots, slots.len() as int);
    lemma_sort_nonempty(slot_paths(init, slots, slots.len() as int), slot_paths(init, slots, slots.len() as int).len() as int);
}

/// The variable a path steps from: the root for a one-step path, else the
/// variable recorded for its parent, else the root.
fn step_base(ptv: &Vec<(Vec<String>, String)>, path: &Vec<String>, root_var: &String) -> (r: String)
    requires
        path.len() >= 1,
    ensures
        r@ == (if path@.len() == 1 {
            root_var@
        } else {
            match find_path(ptv_view(ptv@).map_values(|e: (PathV, Seq<char>)| e.0), path_view(path@).drop_last()) {
                Some(j) => ptv_view(ptv@)[j].1,
                None => root_var@,
            }
        }),
{
    if path.len() == 1 {
        root_var.clone()
    } else {
        let parent = take_path(path, path.len() - 1);
        assert(path_view(parent@) =~= path_view(path@).drop_last());
        match lookup_path(ptv, &parent) {
            Some(j) => ptv[j].1.clone(),
            None => root_var.clone(),
        }
    }
}

impl<'a> DomExpressions<'a> {
    /// Declare a template's element references: `var root = _tmpl$()` and
    /// one reference per path, each stepping from its parent's
    #[verifier::rlimit(40)]
    pub(crate) fn declare_element_refs(&mut self, template: &Template, template_var: &str, root_var: &String, first_child: bool) -> (r: (
        JsStmt,
        Vec<(Vec<String>, String)>,
    ))
        requires
            old(self).wf(),
        ensures
            final(self).wf(),
            ({
                let (c2, decl, ptv) = refs_decls_v(
                    template@.slots,
                    old(self).tstate().element_counter,
                    template_var@,
                    root_var@,
                    first_child,
                );
                &&& final(self).tstate() == (TState { element_counter: c2, ..old(self).tstate() })
                &&& stmt_view(r.0) == decl
                &&& ptv_view(r.1@) == ptv
            }),
            final(self).keeps_rest(old(self)),
    {
        let ghost c = old(self).element_counter;
        let ghost slots = template@.slots;
        let ghost root = root_var@;
        let mut decls: Vec<JsDecl> = Vec::new();
        let d0 = self.create_root_element_declarator(root_var.as_str(), template_var);
        proof {
            lemma_decls_view_push(decls@, d0);
        }
        decls.push(d0);
        let collected = collect_slot_paths(&template.dynamic_slots, first_child);
        let sorted = sort_paths_by_len(&collected);
        let ghost paths = paths_view(sorted@);
        assert(paths == decl_paths(slots, first_child));
        proof {
            lemma_decl_paths_nonempty(slots, first_child);
        }
        let mut ptv: Vec<(Vec<String>, String)> = Vec::new();
        let ghost head = seq![JsDeclV { name: root, init: template_call_v(template_var@) }];
        assert(decls_view(decls@) =~= head);
        assert(ptv_view(ptv@) =~= Seq::<(PathV, Seq<char>)>::empty());
        assert(count_after(c, 0) == c);
        let n = sorted.len();
        for k in 0..n
            invariant
                n == sorted.len(),
                paths == paths_view(sorted@),
                paths == decl_paths(slots, first_child),
                all_nonempty(paths),
                root == root_var@,
                self.wf(),
                self.element_counter == count_after(c, k as nat),
                self.tstate() == (TState { element_counter: self.element_counter, ..old(self).tstate() }),
                self.keeps_rest(old(self)),
                decls_view(decls@) == head + Seq::new(
                    k as nat,
                    |j: int| ref_decl_v(ref_var(c, j), base_var(paths, c, root, j), paths[j].last()),
                ),
                ptv_view(ptv@) == Seq::new(k as nat, |j: int| (paths[j], ref_var(c, j))),
        {
            let path = &sorted[k];
            assert(paths[k as int] == path_view(path@));
            assert(paths[k as int].len() >= 1);
            let elem_var = self.generate_element_var();
            assert(elem_var@ == ref_var(c, k as int));
            let ghost keys = ptv_view(ptv@).map_values(|e: (PathV, Seq<char>)| e.0);
            assert(keys =~= paths.take(k as int));
            let base = step_base(&ptv, path, root_var);
            proof {
                match find_path(keys, paths[k as int].drop_last()) {
                    Some(j) => {
                        lemma_find_path_bound(keys, paths[k as int].drop_last());
                    },
                    None => {},
                }
            }
            assert(base@ == base_var(paths, c, root, k as int));
            let step = &path[path.len() - 1];
            assert(step@ == paths[k as int].last());
            let d = self.create_element_ref_declarator(elem_var.as_str(), base.as_str(), step.as_str());
            proof {
                lemma_decls_view_push(decls@, d);
            }
            decls.push(d);
            assert(decls_view(decls@) =~= head + Seq::new(
                (k + 1) as nat,
                |j: int| ref_decl_v(ref_var(c, j), base_var(paths, c, root, j), paths[j].last()),
            ));
            let ghost before_p = ptv@;
            let entry = (clone_path(path), elem_var);
            assert(path_view(entry.0@) == paths[k as int]);
            ptv.push(entry);
            assert(ptv_view(ptv@) =~= ptv_view(before_p).push((paths[k as int], ref_var(c, k as int))));
            assert(ptv_view(ptv@) =~= Seq::new((k + 1) as nat, |j: int| (paths[j], ref_var(c, j))));
        }
        (JsStmt::Var { kind: DeclKind::Var, decls }, ptv)
    }

    /// Create element reference declarations
    /// Returns (root_var_name, statement, path_to_var_map)
    fn create_element_declarations(&mut self, template: &Template, template_var: &str) -> (r: (
        String,
        JsStmt,
        Vec<(Vec<String>, String)>,
    ))
        requires
            old(self).wf(),
        ensures
            final(self).wf(),
            ({
                let (c2, root, decl, ptv) = element_decls_v(
                    template@.slots,
                    old(self).tstate().element_counter,
                    template_var@,
                );
                &&& final(self).tstate() == (TState { element_counter: c2, ..old(self).tstate() })
                &&& r.0@ == root
                &&& stmt_view(r.1) == decl
                &&& ptv_view(r.2@) == ptv
            }),
            final(self).keeps_rest(old(self)),
    {
        let root_var = self.generate_element_var();
        let (decl, ptv) = self.declare_element_refs(template, template_var, &root_var, false);
        (root_var, decl, ptv)
    }
}


// ---------------------------------------------------------------------------
// Runtime calls
// ---------------------------------------------------------------------------

/// The variable recorded for a path.
pub open spec fn lookup_var(ptv: Seq<(PathV, Seq<char>)>, p: PathV) -> Option<Seq<char>> {
    match find_path(ptv.map_values(|e: (PathV, Seq<char>)| e.0), p) {
        Some(j) => Some(ptv[j].1),
        None => None,
    }
}

/// The element a slot applies to: the root for the empty path, else the
/// path's variable (the root where there is none).
pub open spec fn slot_element(ptv: Seq<(PathV, Seq<char>)>, root: Seq<char>, path: PathV) -> Seq<char> {
    if path.len() == 0 {
        root
    } else {
        match lookup_var(ptv, path) {
            Some(v) => v,
            None => root,
        }
    }
}

/// The values of embedded expressions in emitted code.
pub open spec fn srcs_v(xs: Seq<JsxExpr>) -> Seq<JsExprV> {
    xs.map_values(|x: JsxExpr| src_v(x))
}

/// One slot's runtime code. The state carries the code-building state, the
/// number of expressions used and the statements so far. Each slot that
/// takes an expression takes the next one, while there are any.
pub open spec fn runtime_step(
    acc: (TState, nat, Seq<JsStmtV>),
    slot: SlotV,
    exprs: Seq<JsExprV>,
    root: Seq<char>,
    ptv: Seq<(PathV, Seq<char>)>,
    delegate: bool,
) -> (TState, nat, Seq<JsStmtV>) {
    let st = acc.0;
    let i = acc.1;
    let out = acc.2;
    let has = i < exprs.len();
    let el = slot_element(ptv, root, slot.path);
    match slot.kind {
        SlotKind::TextContent => {
            let st1 = st_add_import(st, "insert"@);
            if has {
                let marker = match slot.marker {
                    Some(m) => lookup_var(ptv, m),
                    None => None,
                };
                (st1, i + 1, out.push(insert_stmt_v(el, exprs[i as int], marker)))
            } else {
                (st1, i, out)
            }
        },
        SlotKind::Attribute(name) => {
            let st1 = st_add_import(st_add_import(st, "setAttribute"@), "effect"@);
            if has {
                (st1, i + 1, out.push(set_attribute_effect_v(el, name, exprs[i as int])))
            } else {
                (st1, i, out)
            }
        },
        SlotKind::BoolAttribute(_) => {
            let st1 = st_add_import(st, "setBoolAttribute"@);
            if has {
                (st1, i + 1, out)
            } else {
                (st1, i, out)
            }
        },
        SlotKind::PropAttribute(name) => if has {
            (st, i + 1, out.push(property_assignment_v(el, name, exprs[i as int])))
        } else {
            acc
        },
        SlotKind::AttrAttribute(name) => {
            let st1 = st_add_import(st, "setAttribute"@);
            if has {
                (st1, i + 1, out.push(set_attribute_v(el, name, exprs[i as int])))
            } else {
                (st1, i, out)
            }
        },
        SlotKind::EventHandler(name) => if has {
            let s = if delegate && spec_should_delegate_event(name) {
                delegated_handler_v(el, name, exprs[i as int])
            } else {
                listener_call_v(el, name, seq![exprs[i as int]])
            };
            (st, i + 1, out.push(s))
        } else {
            acc
        },
        SlotKind::OnEvent(name) => {
            let st1 = st_add_import(st, "addEventListener"@);
            if has {
                (st1, i + 1, out.push(listener_helper_v(el, name, exprs[i as int], false)))
            } else {
                (st1, i, out)
            }
        },
        SlotKind::OnCaptureEvent(name) => if has {
            (st, i + 1, out.push(listener_call_v(el, name, seq![exprs[i as int], JsExprV::Bool(true)])))
        } else {
            acc
        },
        _ => if has {
            (st, i + 1, out)
        } else {
            acc
        },
    }
}

/// An `oncapture:` slot with an expression left emits
/// `el.addEventListener("event", x, true)` on its element: a listener of
/// the capture phase, the arguments being exactly the event name, the
/// slot's expression and `true`.
pub proof fn law_capture_listener_statement(
    acc: (TState, nat, Seq<JsStmtV>),
    slot: SlotV,
    exprs: Seq<JsExprV>,
    root: Seq<char>,
    ptv: Seq<(PathV, Seq<char>)>,
    delegate: bool,
    event: Seq<char>,
)
    requires
        slot.kind == SlotKind::OnCaptureEvent(event),
        acc.1 < exprs.len(),
    ensures
        runtime_step(acc, slot, exprs, root, ptv, delegate) == (
            acc.0,
            acc.1 + 1,
            acc.2.push(
                JsStmtV::Expr(
                    JsExprV::Call {
                        callee: Box::new(
                            JsExprV::Member {
                                object: Box::new(JsExprV::Ident(slot_element(ptv, root, slot.path))),
                                property: "addEventListener"@,
                            },
                        ),
                        args: seq![JsExprV::Str(event), exprs[acc.1 as int], JsExprV::Bool(true)],
                        pure: false,
                    },
                ),
            ),
        ),
{
    assert(seq![str_v(event)] + seq![exprs[acc.1 as int], JsExprV::Bool(true)] =~= seq![
        JsExprV::Str(event),
        exprs[acc.1 as int],
        JsExprV::Bool(true),
    ]);
}

/// An event handler slot with an expression left emits, on its element,
/// `el.$$event = x` (the event in lower case) when delegation is on and the
/// event is delegated, else `el.addEventListener("event", x)`, with the
/// event name and the handler as its only arguments.
pub proof fn law_handler_statement(
    acc: (TState, nat, Seq<JsStmtV>),
    slot: SlotV,
    exprs: Seq<JsExprV>,
    root: Seq<char>,
    ptv: Seq<(PathV, Seq<char>)>,
    delegate: bool,
    event: Seq<char>,
)
    requires
        slot.kind == SlotKind::EventHandler(event),
        acc.1 < exprs.len(),
    ensures
        ({
            let el = Box::new(JsExprV::Ident(slot_element(ptv, root, slot.path)));
            let x = exprs[acc.1 as int];
            runtime_step(acc, slot, exprs, root, ptv, delegate) == (
                acc.0,
                acc.1 + 1,
                acc.2.push(
                    if delegate && spec_should_delegate_event(event) {
                        JsStmtV::Expr(
                            JsExprV::Assign {
                                target: Box::new(JsExprV::Member { object: el, property: "$$"@ + lowercase_of(event) }),
                                value: Box::new(x),
                            },
                        )
                    } else {
                        JsStmtV::Expr(
                            JsExprV::Call {
                                callee: Box::new(JsExprV::Member { object: el, property: "addEventListener"@ }),
                                args: seq![JsExprV::Str(event), x],
                                pure: false,
                            },
                        )
                    },
                ),
            )
        }),
{
    assert(seq![str_v(event)] + seq![exprs[acc.1 as int]] =~= seq![JsExprV::Str(event), exprs[acc.1 as int]]);
}

/// A dynamic attribute slot with an expression left emits
/// `_$effect(() => _$setAttribute(el, "name", x))` on its element, so that
/// the attribute follows its value.
pub proof fn law_attribute_statement(
    acc: (TState, nat, Seq<JsStmtV>),
    slot: SlotV,
    exprs: Seq<JsExprV>,
    root: Seq<char>,
    ptv: Seq<(PathV, Seq<char>)>,
    delegate: bool,
    name: Seq<char>,
)
    requires
        slot.kind == SlotKind::Attribute(name),
        acc.1 < exprs.len(),
    ensures
        runtime_step(acc, slot, exprs, root, ptv, delegate).1 == acc.1 + 1,
        runtime_step(acc, slot, exprs, root, ptv, delegate).2 == acc.2.push(
            JsStmtV::Expr(
                JsExprV::Call {
                    callee: Box::new(JsExprV::Ident("_$effect"@)),
                    args: seq![
                        JsExprV::Arrow {
                            params: Seq::empty(),
                            body: seq![
                                JsStmtV::Expr(
                                    JsExprV::Call {
                                        callee: Box::new(JsExprV::Ident("_$setAttribute"@)),
                                        args: seq![
                                            JsExprV::Ident(slot_element(ptv, root, slot.path)),
                                            JsExprV::Str(name),
                                            exprs[acc.1 as int],
                                        ],
                                        pure: false,
                                    },
                                ),
                            ],
                            expression: true,
                        },
                    ],
                    pure: false,
                },
            ),
        ),
{
}

/// A text slot with an expression left emits `_$insert(el, x, marker)` on
/// the element the text goes into, `null` standing for a missing marker.
pub proof fn law_insert_statement(
    acc: (TState, nat, Seq<JsStmtV>),
    slot: SlotV,
    exprs: Seq<JsExprV>,
    root: Seq<char>,
    ptv: Seq<(PathV, Seq<char>)>,
    delegate: bool,
)
    requires
        slot.kind == SlotKind::TextContent,
        acc.1 < exprs.len(),
    ensures
        runtime_step(acc, slot, exprs, root, ptv, delegate).1 == acc.1 + 1,
        runtime_step(acc, slot, exprs, root, ptv, delegate).2 == acc.2.push(
            JsStmtV::Expr(
                JsExprV::Call {
                    callee: Box::new(JsExprV::Ident("_$insert"@)),
                    args: seq![
                        JsExprV::Ident(slot_element(ptv, root, slot.path)),
                        exprs[acc.1 as int],
                        if slot.marker is Some && lookup_var(ptv, slot.marker->0) is Some {
                            JsExprV::Ident(lookup_var(ptv, slot.marker->0)->0)
                        } else {
                            JsExprV::Null
                        },
                    ],
                    pure: false,
                },
            ),
        ),
{
}

/// A slot finds no expression left once all are taken: it then emits
/// nothing and takes none.
pub proof fn law_no_expression_left(
    acc: (TState, nat, Seq<JsStmtV>),
    slot: SlotV,
    exprs: Seq<JsExprV>,
    root: Seq<char>,
    ptv: Seq<(PathV, Seq<char>)>,
    delegate: bool,
)
    requires
        acc.1 >= exprs.len(),
    ensures
        runtime_step(acc, slot, exprs, root, ptv, delegate).1 == acc.1,
        runtime_step(acc, slot, exprs, root, ptv, delegate).2 == acc.2,
{
}

/// The runtime code of the first `k` slots.
pub open spec fn runtime_fold(
    st: TState,
    slots: Seq<SlotV>,
    exprs: Seq<JsExprV>,
    root: Seq<char>,
    ptv: Seq<(PathV, Seq<char>)>,
    delegate: bool,
    k: int,
) -> (TState, nat, Seq<JsStmtV>)
    decreases k,
{
    if k <= 0 || k > slots.len() {
        (st, 0, Seq::empty())
    } else {
        runtime_step(runtime_fold(st, slots, exprs, root, ptv, delegate, k - 1), slots[k - 1], exprs, root, ptv, delegate)
    }
}

fn lookup_var_exec(ptv: &Vec<(Vec<String>, String)>, p: &Vec<String>) -> (r: Option<String>)
    ensures
        match r {
            Some(v) => lookup_var(ptv_view(ptv@), path_view(p@)) == Some(v@),
            None => lookup_var(ptv_view(ptv@), path_view(p@)) is None,
        },
{
    match lookup_path(ptv, p) {
        Some(j) => Some(ptv[j].1.clone()),
        None => None,
    }
}

fn slot_element_exec(ptv: &Vec<(Vec<String>, String)>, root: &str, path: &Vec<String>) -> (r: String)
    ensures
        r@ == slot_element(ptv_view(ptv@), root@, path_view(path@)),
{
    if path.len() == 0 {
        owned(root)
    } else {
        match lookup_var_exec(ptv, path) {
            Some(v) => v,
            None => owned(root),
        }
    }
}

fn source_expr(x: &JsxExpr) -> (r: JsExpr)
    ensures
        expr_view(r) == src_v(*x),
{
    JsExpr::Source(clone_jsx_expr(x))
}

impl<'a> DomExpressions<'a> {
    /// Create runtime calls for dynamic content from extracted expressions
    #[verifier::rlimit(60)]
    pub(crate) fn create_runtime_calls_from_expressions(
        &mut self,
        expressions: &Vec<JsxExpr>,
        template: &Template,
        root_var: &str,
        path_to_var: &Vec<(Vec<String>, String)>,
    ) -> (r: Vec<JsStmt>)
        requires
            old(self).wf(),
        ensures
            final(self).wf(),
            ({
                let f = runtime_fold(
                    old(self).tstate(),
                    template@.slots,
                    srcs_v(expressions@),
                    root_var@,
                    ptv_view(path_to_var@),
                    old(self).opts().delegate_events,
                    template@.slots.len() as int,
                );
                final(self).tstate() == f.0 && stmts_view(r@) == f.2
            }),
            final(self).keeps_rest(old(self)),
    {
        let ghost slots = template@.slots;
        let ghost exprs = srcs_v(expressions@);
        let ghost ptv = ptv_view(path_to_var@);
        let ghost delegate = self.options.delegate_events;
        let mut stmts: Vec<JsStmt> = Vec::new();
        let mut expr_index: usize = 0;
        assert(stmts_view(stmts@) =~= Seq::<JsStmtV>::empty());
        let n = template.dynamic_slots.len();
        for k in 0..n
            invariant
                n == template.dynamic_slots.len(),
                slots == template@.slots,
                exprs == srcs_v(expressions@),
                ptv == ptv_view(path_to_var@),
                delegate == self.options.delegate_events,
                self.wf(),
                self.keeps_rest(old(self)),
                ({
                    let f = runtime_fold(old(self).tstate(), slots, exprs, root_var@, ptv, delegate, k as int);
                    self.tstate() == f.0 && expr_index == f.1 && stmts_view(stmts@) == f.2
                }),
                expr_index <= expressions.len(),
        {
            let slot = &template.dynamic_slots[k];
            assert(slots[k as int] == slot@);
            let has = expr_index < expressions.len();
            let ghost before = stmts@;
            match &slot.slot_type {
                SlotType::TextContent => {
                    self.add_import("insert");
                    if has {
                        let marker = match &slot.marker_path {
                            Some(m) => lookup_var_exec(path_to_var, m),
                            None => None,
                        };
                        let el = slot_element_exec(path_to_var, root_var, &slot.path);
                        let e = source_expr(&expressions[expr_index]);
                        let st = match &marker {
                            Some(m) => self.create_insert_call_with_marker(el.as_str(), e, Some(m.as_str())),
                            None => self.create_insert_call_with_marker(el.as_str(), e, None),
                        };
                        proof {
                            lemma_stmts_view_push(stmts@, st);
                        }
                        stmts.push(st);
                        expr_index = expr_index + 1;
                    }
                },
                SlotType::Attribute(name) => {
                    self.add_import("setAttribute");
                    self.add_import("effect");
                    if has {
                        let el = slot_element_exec(path_to_var, root_var, &slot.path);
                        let st = self.create_set_attribute_call(el.as_str(), name.as_str(), source_expr(&expressions[expr_index]));
                        proof {
                            lemma_stmts_view_push(stmts@, st);
                        }
                        stmts.push(st);
                        expr_index = expr_index + 1;
                    }
                },
                SlotType::BoolAttribute(_) => {
                    self.add_import("setBoolAttribute");
                    if has {
                        expr_index = expr_index + 1;
                    }
                },
                SlotType::PropAttribute(name) => {
                    if has {
                        let el = slot_element_exec(path_to_var, root_var, &slot.path);
                        let st = self.create_property_assignment(el.as_str(), name.as_str(), source_expr(&expressions[expr_index]));
                        proof {
                            lemma_stmts_view_push(stmts@, st);
                        }
                        stmts.push(st);
                        expr_index = expr_index + 1;
                    }
                },
                SlotType::AttrAttribute(name) => {
                    self.add_import("setAttribute");
                    if has {
                        let el = slot_element_exec(path_to_var, root_var, &slot.path);
                        let st = self.create_static_set_attribute_call(el.as_str(), name.as_str(), source_expr(&expressions[expr_index]));
                        proof {
                            lemma_stmts_view_push(stmts@, st);
                        }
                        stmts.push(st);
                        expr_index = expr_index + 1;
                    }
                },
                SlotType::EventHandler(name) => {
                    if has {
                        let el = slot_element_exec(path_to_var, root_var, &slot.path);
                        let delegated = self.options.delegate_events && should_delegate_event(name.as_str());
                        let e = source_expr(&expressions[expr_index]);
                        let st = if delegated {
                            self.create_delegated_event_handler(el.as_str(), name.as_str(), e)
                        } else {
                            self.create_add_event_listener(el.as_str(), name.as_str(), e)
                        };
                        proof {
                            lemma_stmts_view_push(stmts@, st);
                        }
                        stmts.push(st);
                        expr_index = expr_index + 1;
                    }
                },
                SlotType::OnEvent(name) => {
                    self.add_import("addEventListener");
                    if has {
                        let el = slot_element_exec(path_to_var, root_var, &slot.path);
                        let st = self.create_add_event_listener_helper(
                            el.as_str(),
                            name.as_str(),
                            source_expr(&expressions[expr_index]),
                            false,
                        );
                        proof {
                            lemma_stmts_view_push(stmts@, st);
                        }
                        stmts.push(st);
                        expr_index = expr_index + 1;
                    }
                },
                SlotType::OnCaptureEvent(name) => {
                    if has {
                        let el = slot_element_exec(path_to_var, root_var, &slot.path);
                        let st = self.create_capture_event_listener(el.as_str(), name.as_str(), source_expr(&expressions[expr_index]));
                        proof {
                            lemma_stmts_view_push(stmts@, st);
                        }
                        stmts.push(st);
                        expr_index = expr_index + 1;
                    }
                },
                _ => {
                    if has {
                        expr_index = expr_index + 1;
                    }
                },
            }
        }
        stmts
    }
}


// ---------------------------------------------------------------------------
// The dynamic expressions of an element
// ---------------------------------------------------------------------------

/// An expression the template cannot hold: not a string or numeric literal
/// and not empty.
pub open spec fn is_dynamic_kind(k: ExprKind) -> bool {
    !(k is StringLit || k is NumericLit || k is Empty)
}

/// The dynamic expressions of the first `i` attributes.
pub open spec fn attr_exprs(items: Seq<JsxAttrItem>, i: int) -> Seq<JsExprV>
    decreases i,
{
    if i <= 0 || i > items.len() {
        Seq::empty()
    } else {
        let rest = attr_exprs(items, i - 1);
        match items[i - 1] {
            JsxAttrItem::Attribute { value: Some(JsxAttrValue::Container(x)), .. } => if is_dynamic_kind(x.kind) {
                rest.push(src_v(x))
            } else {
                rest
            },
            _ => rest,
        }
    }
}

/// The dynamic expressions of an element in source order: its attributes'
/// first, then its children's, nested elements included.
pub open spec fn elem_exprs(e: JsxElement) -> Seq<JsExprV>
    decreases e, 1int,
{
    attr_exprs(e.attributes@, e.attributes@.len() as int) + child_exprs(e.children@, e.children@.len() as int)
}

/// The dynamic expressions of the first `i` children.
pub open spec fn child_exprs(cs: Seq<JsxChild>, i: int) -> Seq<JsExprV>
    decreases cs, i,
{
    if i <= 0 || i > cs.len() {
        Seq::empty()
    } else {
        child_exprs(cs, i - 1) + one_child_exprs(cs[i - 1])
    }
}

/// The dynamic expressions of one child.
pub open spec fn one_child_exprs(c: JsxChild) -> Seq<JsExprV>
    decreases c, 2int,
{
    match c {
        JsxChild::Element(b) => elem_exprs(*b),
        JsxChild::Container(x) => if is_dynamic_kind(x.kind) {
            seq![src_v(x)]
        } else {
            Seq::empty()
        },
        _ => Seq::empty(),
    }
}

fn is_dynamic_kind_exec(k: &ExprKind) -> (r: bool)
    ensures
        r == is_dynamic_kind(*k),
{
    match k {
        ExprKind::StringLit(_) | ExprKind::NumericLit(_) | ExprKind::Empty => false,
        _ => true,
    }
}

/// Extract all dynamic expressions from JSX element in order
pub(crate) fn extract_expressions_from_jsx(e: &JsxElement, out: &mut Vec<JsxExpr>)
    ensures
        srcs_v(final(out)@) == srcs_v(old(out)@) + elem_exprs(*e),
    decreases e, 1int,
{
    let ghost start = srcs_v(out@);
    let items = &e.attributes;
    let n = items.len();
    assert(start + attr_exprs(items@, 0) =~= start);
    for i in 0..n
        invariant
            n == items.len(),
            items == &e.attributes,
            srcs_v(out@) == start + attr_exprs(items@, i as int),
    {
        match &items[i] {
            JsxAttrItem::Attribute { value: Some(JsxAttrValue::Container(x)), .. } => {
                if is_dynamic_kind_exec(&x.kind) {
                    let ghost before = out@;
                    out.push(clone_jsx_expr(x));
                    assert(srcs_v(out@) =~= srcs_v(before).push(src_v(*x)));
                }
            },
            _ => {},
        }
    }
    let ghost mid = srcs_v(out@);
    let cs = &e.children;
    let m = cs.len();
    assert(mid + child_exprs(cs@, 0) =~= mid);
    for i in 0..m
        invariant
            m == cs.len(),
            cs == &e.children,
            srcs_v(out@) == mid + child_exprs(cs@, i as int),
    {
        extract_expressions_from_child(&cs[i], out);
        assert(srcs_v(out@) =~= mid + child_exprs(cs@, i + 1));
    }
    assert(srcs_v(out@) =~= start + elem_exprs(*e));
}

/// Extract expressions from a JSX child
pub(crate) fn extract_expressions_from_child(c: &JsxChild, out: &mut Vec<JsxExpr>)
    ensures
        srcs_v(final(out)@) == srcs_v(old(out)@) + one_child_exprs(*c),
    decreases c, 2int,
{
    let ghost start = srcs_v(out@);
    match c {
        JsxChild::Element(b) => {
            extract_expressions_from_jsx(b, out);
        },
        JsxChild::Container(x) => {
            if is_dynamic_kind_exec(&x.kind) {
                out.push(clone_jsx_expr(x));
                assert(srcs_v(out@) =~= start + seq![src_v(*x)]);
            } else {
                assert(srcs_v(out@) =~= start + Seq::<JsExprV>::empty());
            }
        },
        _ => {
            assert(srcs_v(out@) =~= start + Seq::<JsExprV>::empty());
        },
    }
}

/// `(() => { body })()`
pub open spec fn iife_v(body: Seq<JsStmtV>) -> JsExprV {
    JsExprV::Call {
        callee: Box::new(JsExprV::Arrow { params: Seq::empty(), body, expression: false }),
        args: Seq::empty(),
        pure: false,
    }
}

/// The code for an element with dynamic parts: a function, called at once,
/// that declares the element references, applies the runtime calls and
/// returns the root.
pub open spec fn template_iife(st: TState, delegate: bool, exprs: Seq<JsExprV>, t: TemplateV, template_var: Seq<char>) -> (
    TState,
    JsExprV,
) {
    let (c2, root, decl, ptv) = element_decls_v(t.slots, st.element_counter, template_var);
    let st1 = TState { element_counter: c2, ..st };
    let f = runtime_fold(st1, t.slots, exprs, root, ptv, delegate, t.slots.len() as int);
    (f.0, iife_v(seq![decl] + f.2 + seq![return_v(root)]))
}

impl<'a> DomExpressions<'a> {
    /// Create an IIFE that clones template and applies dynamic bindings
    fn create_template_iife_from_expressions(
        &mut self,
        expressions: Vec<JsxExpr>,
        template: &Template,
        template_var: &str,
    ) -> (r: JsExpr)
        requires
            old(self).wf(),
        ensures
            final(self).wf(),
            (final(self).tstate(), expr_view(r)) == template_iife(
                old(self).tstate(),
                old(self).opts().delegate_events,
                srcs_v(expressions@),
                template@,
                template_var@,
            ),
            final(self).keeps_rest(old(self)),
    {
        let (root_var, elem_decls, path_to_var) = self.create_element_declarations(template, template_var);
        let runtime = self.create_runtime_calls_from_expressions(&expressions, template, root_var.as_str(), &path_to_var);
        let mut body: Vec<JsStmt> = Vec::new();
        proof {
            lemma_stmts_view_push(body@, elem_decls);
        }
        body.push(elem_decls);
        assert(stmts_view(Seq::<JsStmt>::empty()) =~= Seq::<JsStmtV>::empty());
        let ghost rv = stmts_view(runtime@);
        let ghost before_b = body@;
        let ghost rt = runtime@;
        let mut runtime = runtime;
        body.append(&mut runtime);
        proof {
            lemma_stmts_view_concat(before_b, rt);
        }
        let ret = self.create_return_statement(root_var.as_str());
        let ghost before_ret = body@;
        proof {
            lemma_stmts_view_push(body@, ret);
        }
        body.push(ret);
        let params: Vec<String> = Vec::new();
        assert(strings_view(params@) =~= Seq::<Seq<char>>::empty());
        let args: Vec<JsExpr> = Vec::new();
        assert(exprs_view(args@) =~= Seq::<JsExprV>::empty());
        let ghost bv = seq![stmt_view(elem_decls)] + rv + seq![return_v(root_var@)];
        assert(stmts_view(body@) =~= bv);
        let arrow = JsExpr::Arrow { params, body, expression: false };
        assert(expr_view(arrow) == JsExprV::Arrow { params: Seq::empty(), body: bv, expression: false });
        let r = JsExpr::Call { callee: Box::new(arrow), args, pure: false };
        assert(expr_view(r) == iife_v(bv));
        r
    }
}


// ---------------------------------------------------------------------------
// Module-level code: imports, templates, event delegation
// ---------------------------------------------------------------------------

/// Where an import goes among the imports; unknown names go last.
pub open spec fn import_rank(name: Seq<char>) -> nat {
    if name == "template"@ {
        0
    } else if name == "delegateEvents"@ {
        1
    } else if name == "createComponent"@ {
        2
    } else if name == "memo"@ {
        3
    } else if name == "For"@ {
        4
    } else if name == "Show"@ {
        5
    } else if name == "Suspense"@ {
        6
    } else if name == "SuspenseList"@ {
        7
    } else if name == "Switch"@ {
        8
    } else if name == "Match"@ {
        9
    } else if name == "Index"@ {
        10
    } else if name == "ErrorBoundary"@ {
        11
    } else if name == "mergeProps"@ {
        12
    } else if name == "spread"@ {
        13
    } else if name == "use"@ {
        14
    } else if name == "insert"@ {
        15
    } else if name == "setAttribute"@ {
        16
    } else if name == "setAttributeNS"@ {
        17
    } else if name == "setBoolAttribute"@ {
        18
    } else if name == "className"@ {
        19
    } else if name == "style"@ {
        20
    } else if name == "setStyleProperty"@ {
        21
    } else if name == "addEventListener"@ {
        22
    } else if name == "effect"@ {
        23
    } else if name == "getOwner"@ {
        24
    } else {
        100
    }
}

fn import_rank_exec(name: &str) -> (r: usize)
    ensures
        r == import_rank(name@),
{
    proof {
        reveal_strlit("template");
        reveal_strlit("delegateEvents");
        reveal_strlit("createComponent");
        reveal_strlit("memo");
    }
    if str_eq(name, "template") {
        0
    } else if str_eq(name, "delegateEvents") {
        1
    } else if str_eq(name, "createComponent") {
        2
    } else if str_eq(name, "memo") {
        3
    } else if str_eq(name, "For") {
        4
    } else if str_eq(name, "Show") {
        5
    } else if str_eq(name, "Suspense") {
        6
    } else if str_eq(name, "SuspenseList") {
        7
    } else if str_eq(name, "Switch") {
        8
    } else if str_eq(name, "Match") {
        9
    } else if str_eq(name, "Index") {
        10
    } else if str_eq(name, "ErrorBoundary") {
        11
    } else if str_eq(name, "mergeProps") {
        12
    } else if str_eq(name, "spread") {
        13
    } else if str_eq(name, "use") {
        14
    } else if str_eq(name, "insert") {
        15
    } else if str_eq(name, "setAttribute") {
        16
    } else if str_eq(name, "setAttributeNS") {
        17
    } else if str_eq(name, "setBoolAttribute") {
        18
    } else if str_eq(name, "className") {
        19
    } else if str_eq(name, "style") {
        20
    } else if str_eq(name, "setStyleProperty") {
        21
    } else if str_eq(name, "addEventListener") {
        22
    } else if str_eq(name, "effect") {
        23
    } else if str_eq(name, "getOwner") {
        24
    } else {
        100
    }
}

/// The first position at or after `i` whose name ranks after `r`.
pub open spec fn first_ranked_after(s: Seq<Seq<char>>, r: nat, i: int) -> int
    decreases s.len() - i,
{
    if i < 0 || i >= s.len() || import_rank(s[i]) > r {
        i
    } else {
        first_ranked_after(s, r, i + 1)
    }
}

/// The first `i` names sorted by rank; names of equal rank keep their order.
pub open spec fn sort_by_rank(xs: Seq<Seq<char>>, i: int) -> Seq<Seq<char>>
    decreases i,
{
    if i <= 0 || i > xs.len() {
        Seq::empty()
    } else {
        let s = sort_by_rank(xs, i - 1);
        s.insert(first_ranked_after(s, import_rank(xs[i - 1]), 0), xs[i - 1])
    }
}

/// `import { name as _$name } from "module";`
pub open spec fn import_stmt_v(name: Seq<char>, module: Seq<char>) -> JsStmtV {
    JsStmtV::Import { imported: name, local: "_$"@ + name, source: module }
}

/// One import per runtime function, in rank order.
pub open spec fn import_stmts_v(imports: Seq<Seq<char>>, module: Seq<char>) -> Seq<JsStmtV> {
    let sorted = sort_by_rank(imports, imports.len() as int);
    Seq::new(sorted.len(), |k: int| import_stmt_v(sorted[k], module))
}

/// `_tmpl$N = /*#__PURE__*/ _$template(`html`)`
pub open spec fn template_decl_v(html: Seq<char>, var: Seq<char>) -> JsDeclV {
    JsDeclV {
        name: var,
        init: JsExprV::Call {
            callee: Box::new(id_v("_$template"@)),
            args: seq![JsExprV::TemplateLit(html)],
            pure: true,
        },
    }
}

/// One `var` declaring every template, in the order of their numbers.
pub open spec fn template_decls_v(ts: Seq<(Seq<char>, Seq<char>)>) -> Option<JsStmtV> {
    if ts.len() == 0 {
        None
    } else {
        Some(JsStmtV::Var { kind: DeclKind::Var, decls: Seq::new(ts.len(), |k: int| template_decl_v(ts[k].0, ts[k].1)) })
    }
}

/// `_$delegateEvents(["event", ...])`
pub open spec fn delegate_call_v(events: Seq<Seq<char>>) -> Option<JsStmtV> {
    if events.len() == 0 {
        None
    } else {
        Some(call_stmt_v("_$delegateEvents"@, seq![JsExprV::Array(events.map_values(|e: Seq<char>| str_v(e)))]))
    }
}

/// Insert an event into a sorted list, unless it is there.
pub open spec fn insert_event(es: Seq<Seq<char>>, e: Seq<char>) -> Seq<Seq<char>> {
    if es.contains(e) {
        es
    } else {
        es.insert(first_greater(es, e, 0), e)
    }
}

/// The first position at or after `i` holding a string after `e`.
pub open spec fn first_greater(es: Seq<Seq<char>>, e: Seq<char>, i: int) -> int
    decreases es.len() - i,
{
    if i < 0 || i >= es.len() || str_less(e, es[i]) {
        i
    } else {
        first_greater(es, e, i + 1)
    }
}

fn str_less_exec(a: &str, b: &str) -> (r: bool)
    ensures
        r == str_less(a@, b@),
{
    let x = crate::text::chars_of(a);
    let y = crate::text::chars_of(b);
    let mut i: usize = 0;
    assert(x@.skip(0) =~= x@);
    assert(y@.skip(0) =~= y@);
    loop
        invariant
            i <= x.len(),
            i <= y.len(),
            str_less(a@, b@) == str_less(x@.skip(i as int), y@.skip(i as int)),
            x@ == a@,
            y@ == b@,
        decreases x.len() - i,
    {
        let ghost xs = x@.skip(i as int);
        let ghost ys = y@.skip(i as int);
        if i == y.len() {
            return false;
        }
        if i == x.len() {
            return true;
        }
        if x[i] != y[i] {
            assert(xs[0] == x@[i as int] && ys[0] == y@[i as int]);
            return x[i] < y[i];
        }
        assert(xs.drop_first() =~= x@.skip(i + 1));
        assert(ys.drop_first() =~= y@.skip(i + 1));
        i = i + 1;
    }
}

proof fn lemma_str_less_irreflexive(a: Seq<char>)
    ensures
        !str_less(a, a),
    decreases a.len(),
{
    if a.len() > 0 {
        lemma_str_less_irreflexive(a.drop_first());
    }
}

proof fn lemma_str_less_transitive(a: Seq<char>, b: Seq<char>, c: Seq<char>)
    requires
        str_less(a, b),
        str_less(b, c),
    ensures
        str_less(a, c),
    decreases a.len(),
{
    if a.len() > 0 && b.len() > 0 && c.len() > 0 {
        if a[0] == b[0] && b[0] == c[0] {
            lemma_str_less_transitive(a.drop_first(), b.drop_first(), c.drop_first());
        }
    }
}

proof fn lemma_str_less_total(a: Seq<char>, b: Seq<char>)
    requires
        a != b,
    ensures
        str_less(a, b) || str_less(b, a),
    decreases a.len(),
{
    if a.len() > 0 && b.len() > 0 {
        if a[0] == b[0] {
            if a.drop_first() == b.drop_first() {
                assert(a =~= seq![a[0]] + a.drop_first());
                assert(b =~= seq![b[0]] + b.drop_first());
            }
            lemma_str_less_total(a.drop_first(), b.drop_first());
        } else {
        }
    } else if a.len() == 0 && b.len() == 0 {
        assert(a =~= b);
    }
}

proof fn lemma_first_greater_bounds(es: Seq<Seq<char>>, e: Seq<char>, i: int)
    requires
        0 <= i <= es.len(),
    ensures
        i <= first_greater(es, e, i) <= es.len(),
        forall|k: int| i <= k < first_greater(es, e, i) ==> !str_less(e, #[trigger] es[k]),
        first_greater(es, e, i) < es.len() ==> str_less(e, es[first_greater(es, e, i)]),
    decreases es.len() - i,
{
    if i < es.len() && !str_less(e, es[i]) {
        lemma_first_greater_bounds(es, e, i + 1);
    }
}

/// Inserting an event keeps the list sorted and free of repeats.
proof fn lemma_insert_event_sorted(es: Seq<Seq<char>>, e: Seq<char>)
    requires
        events_sorted(es),
    ensures
        events_sorted(insert_event(es, e)),
        insert_event(es, e).to_set() == es.to_set().insert(e),
{
    if es.contains(e) {
        assert(es.to_set().insert(e) =~= es.to_set());
    } else {
        let j = first_greater(es, e, 0);
        lemma_first_greater_bounds(es, e, 0);
        let r = es.insert(j, e);
        es.insert_ensures(j, e);
        assert forall|a: int, b: int| 0 <= a < b < r.len() implies str_less(r[a], r[b]) by {
            if a < j && b == j {
                assert(!str_less(e, es[a]));
                assert(es[a] != e);
                lemma_str_less_total(es[a], e);
            } else if a == j && b > j {
                assert(r[b] == es[b - 1]);
                if b - 1 == j {
                } else {
                    lemma_str_less_transitive(e, es[j], es[b - 1]);
                }
            } else if a < j && b > j {
                assert(r[b] == es[b - 1]);
            } else if a > j {
                assert(r[a] == es[a - 1]);
                assert(r[b] == es[b - 1]);
            }
        }
        assert(r.to_set() =~= es.to_set().insert(e)) by {
            assert forall|x: Seq<char>| r.to_set().contains(x) <==> es.to_set().insert(e).contains(x) by {
                if r.to_set().contains(x) {
                    let k = choose|k: int| 0 <= k < r.len() && r[k] == x;
                    if k < j {
                        assert(es[k] == x);
                    } else if k > j {
                        assert(es[k - 1] == x);
                    }
                }
                if es.to_set().contains(x) && x != e {
                    let k = choose|k: int| 0 <= k < es.len() && es[k] == x;
                    if k < j {
                        assert(r[k] == x);
                    } else {
                        assert(r[k + 1] == x);
                    }
                }
                if x == e {
                    assert(r[j] == e);
                }
            }
        }
    }
}


impl<'a> DomExpressions<'a> {
    /// Add an event for delegation, in lower case
    pub(crate) fn add_delegated_event(&mut self, event: &str)
        requires
            old(self).wf(),
        ensures
            final(self).wf(),
            final(self).events() == insert_event(old(self).events(), lowercase_of(event@)),
            final(self).tstate() == old(self).tstate(),
            final(self).keeps_all_but_events(old(self)),
    {
        let lower = to_lowercase(event);
        let ghost es = self.events();
        let ghost e = lower@;
        let n = self.delegated_events.len();
        let mut k: usize = 0;
        loop
            invariant
                n == self.delegated_events.len(),
                k <= n,
                es == self.events(),
                self == old(self),
                self.wf(),
                e == lower@,
                e == lowercase_of(event@),
                first_greater(es, e, 0) == first_greater(es, e, k as int),
                forall|j: int| 0 <= j < k ==> es[j] != e,
            ensures
                k <= n,
                first_greater(es, e, 0) == k,
                forall|j: int| 0 <= j < k ==> es[j] != e,
            decreases n - k,
        {
            if k >= n {
                break;
            }
            let cur = &self.delegated_events[k];
            assert(es[k as int] == cur@);
            if str_eq(lower.as_str(), cur.as_str()) {
                assert(es.contains(e));
                assert(insert_event(es, e) == es);
                return;
            }
            if str_less_exec(lower.as_str(), cur.as_str()) {
                break;
            }
            k = k + 1;
        }
        proof {
            lemma_first_greater_bounds(es, e, 0);
            if es.contains(e) {
                let j = choose|j: int| 0 <= j < es.len() && es[j] == e;
                if j >= k {
                    // e sorts after the entry at k, so it cannot come later
                    assert(str_less(e, es[k as int]));
                    if j > k {
                        lemma_str_less_transitive(e, es[k as int], es[j]);
                    }
                    lemma_str_less_irreflexive(e);
                }
            }
            lemma_insert_event_sorted(es, e);
        }
        self.delegated_events.insert(k, lower);
        assert(self.events() =~= es.insert(k as int, e));
    }

    /// One import statement per runtime function, in rank order; equal
    /// ranks keep the order in which the functions were first needed
    pub fn create_import_statements(&self) -> (r: Vec<JsStmt>)
        requires
            self.wf(),
        ensures
            stmts_view(r@) == import_stmts_v(self.tstate().imports, self.opts().module_name@),
    {
        let ghost im = self.tstate().imports;
        let mut sorted: Vec<String> = Vec::new();
        let n = self.required_imports.len();
        assert(sorted@.map_values(|x: String| x@) =~= sort_by_rank(im, 0));
        for i in 0..n
            invariant
                n == self.required_imports.len(),
                im == self.tstate().imports,
                sorted@.map_values(|x: String| x@) == sort_by_rank(im, i as int),
        {
            let name = &self.required_imports[i];
            let ghost sv = sorted@.map_values(|x: String| x@);
            assert(im[i as int] == name@);
            let rank = import_rank_exec(name.as_str());
            let mut k: usize = 0;
            while k < sorted.len() && import_rank_exec(sorted[k].as_str()) <= rank
                invariant
                    k <= sorted.len(),
                    sv == sorted@.map_values(|x: String| x@),
                    rank == import_rank(name@),
                    first_ranked_after(sv, rank as nat, 0) == first_ranked_after(sv, rank as nat, k as int),
                decreases sorted.len() - k,
            {
                k = k + 1;
            }
            sorted.insert(k, name.clone());
            assert(sorted@.map_values(|x: String| x@) =~= sv.insert(k as int, name@));
        }
        let ghost sorted_v = sort_by_rank(im, im.len() as int);
        assert(sorted@.map_values(|x: String| x@) == sorted_v);
        let mut out: Vec<JsStmt> = Vec::new();
        let m = sorted.len();
        assert(stmts_view(out@) =~= Seq::<JsStmtV>::empty());
        for k in 0..m
            invariant
                m == sorted.len(),
                sorted@.map_values(|x: String| x@) == sorted_v,
                stmts_view(out@) == Seq::new(k as nat, |j: int| import_stmt_v(sorted_v[j], self.options.module_name@)),
        {
            assert(sorted_v[k as int] == sorted@[k as int]@);
            let mut local: Vec<char> = Vec::new();
            crate::text::extend_str(&mut local, "_$");
            crate::text::extend_str(&mut local, sorted[k].as_str());
            let st = JsStmt::Import {
                imported: sorted[k].clone(),
                local: crate::text::string_of(&local),
                source: self.options.module_name.clone(),
            };
            let ghost before = out@;
            proof {
                lemma_stmts_view_push(out@, st);
            }
            out.push(st);
            assert(stmts_view(out@) =~= Seq::new((k + 1) as nat, |j: int| import_stmt_v(sorted_v[j], self.options.module_name@)));
        }
        out
    }

    /// One `var` holding every template, in the order of their numbers
    pub fn create_template_declarations(&self) -> (r: Option<JsStmt>)
        requires
            self.wf(),
        ensures
            match r {
                Some(s) => template_decls_v(self.tstate().templates) == Some(stmt_view(s)),
                None => template_decls_v(self.tstate().templates) is None,
            },
    {
        let ghost ts = self.tstate().templates;
        let n = self.template_map.len();
        if n == 0 {
            return None;
        }
        let mut decls: Vec<JsDecl> = Vec::new();
        assert(decls_view(decls@) =~= Seq::<JsDeclV>::empty());
        for k in 0..n
            invariant
                n == self.template_map.len(),
                ts == self.tstate().templates,
                decls_view(decls@) == Seq::new(k as nat, |j: int| template_decl_v(ts[j].0, ts[j].1)),
        {
            let html = &self.template_map[k].0;
            let var = &self.template_map[k].1;
            let d = JsDecl {
                name: var.clone(),
                init: JsExpr::Call {
                    callee: Box::new(ident("_$template")),
                    args: exprs1(JsExpr::TemplateLit(html.clone())),
                    pure: true,
                },
            };
            proof {
                lemma_decls_view_push(decls@, d);
            }
            decls.push(d);
            assert(decls_view(decls@) =~= Seq::new((k + 1) as nat, |j: int| template_decl_v(ts[j].0, ts[j].1)));
        }
        Some(JsStmt::Var { kind: DeclKind::Var, decls })
    }

    /// `_$delegateEvents([...])` with every delegated event, sorted
    pub fn create_delegate_events_call(&self) -> (r: Option<JsStmt>)
        requires
            self.wf(),
        ensures
            match r {
                Some(s) => delegate_call_v(self.events()) == Some(stmt_view(s)),
                None => delegate_call_v(self.events()) is None,
            },
    {
        let ghost es = self.events();
        let n = self.delegated_events.len();
        if n == 0 {
            return None;
        }
        let mut elems: Vec<JsExpr> = Vec::new();
        assert(exprs_view(elems@) =~= Seq::<JsExprV>::empty());
        for k in 0..n
            invariant
                n == self.delegated_events.len(),
                es == self.events(),
                exprs_view(elems@) == es.take(k as int).map_values(|e: Seq<char>| str_v(e)),
        {
            let e = str_lit(self.delegated_events[k].as_str());
            proof {
                lemma_exprs_view_push(elems@, e);
            }
            elems.push(e);
            assert(exprs_view(elems@) =~= es.take(k + 1).map_values(|e: Seq<char>| str_v(e)));
        }
        assert(es.take(n as int) =~= es);
        Some(call_stmt("_$delegateEvents", exprs1(JsExpr::Array(elems))))
    }
}


// ---------------------------------------------------------------------------
// Components, children and fragments
// ---------------------------------------------------------------------------

/// The name a component is called by; names other than identifiers become `Unknown`.
pub open spec fn component_name(n: JsxElementName) -> Seq<char> {
    match n {
        JsxElementName::Ident(s) => s@,
        _ => "Unknown"@,
    }
}

/// The tag an element is classified by: its identifier, else nothing.
pub open spec fn tag_name_of(n: JsxElementName) -> Seq<char> {
    match n {
        JsxElementName::Ident(s) => s@,
        _ => Seq::empty(),
    }
}

pub open spec fn first_non_space(t: Seq<char>, i: int) -> int
    decreases t.len() - i,
{
    if i < 0 || i >= t.len() || !is_whitespace_char(t[i]) {
        i
    } else {
        first_non_space(t, i + 1)
    }
}

pub open spec fn last_non_space_end(t: Seq<char>, j: int) -> int
    decreases j,
{
    if j <= 0 || j > t.len() || !is_whitespace_char(t[j - 1]) {
        j
    } else {
        last_non_space_end(t, j - 1)
    }
}

/// `str::trim`: white space removed from both ends.
pub open spec fn trim_v(t: Seq<char>) -> Seq<char> {
    let a = first_non_space(t, 0);
    let b = last_non_space_end(t, t.len() as int);
    if a >= b {
        Seq::empty()
    } else {
        t.subrange(a, b)
    }
}

/// Text as a string child: trimmed when it spans lines.
pub open spec fn text_child_v(t: Seq<char>) -> Seq<char> {
    if has_char(t, '\n') {
        trim_v(t)
    } else {
        t
    }
}

/// A component child that counts: anything but text that is all white space.
pub open spec fn significant_component_child(c: JsxChild) -> bool {
    match c {
        JsxChild::Text(t) => !all_whitespace(t@),
        _ => true,
    }
}

/// A fragment child that counts: anything but white-space text that spans
/// lines or is empty.
pub open spec fn significant_fragment_child(c: JsxChild) -> bool {
    match c {
        JsxChild::Text(t) => !all_whitespace(t@) || (!has_char(t@, '\n') && t@.len() > 0),
        _ => true,
    }
}

/// The value of a component property written as an attribute: the string,
/// the expression, or `true` for a bare attribute, an empty expression or an
/// element.
pub open spec fn prop_value_v(v: Option<JsxAttrValue>) -> JsExprV {
    match v {
        Some(JsxAttrValue::Str(s)) => JsExprV::Str(s@),
        Some(JsxAttrValue::Container(x)) => if x.kind is Empty {
            JsExprV::Bool(true)
        } else {
            src_v(x)
        },
        _ => JsExprV::Bool(true),
    }
}

/// A property whose value is an embedded expression other than a literal
/// or a plain name (a call, a member access, ...): the component reads it
/// through a getter, so that it stays reactive.
pub open spec fn prop_is_dynamic(v: Option<JsxAttrValue>) -> bool {
    v matches Some(JsxAttrValue::Container(x)) && (x.kind is Call || x.kind is Other)
}

pub(crate) fn prop_is_dynamic_exec(v: &Option<JsxAttrValue>) -> (r: bool)
    ensures
        r == prop_is_dynamic(*v),
{
    match v {
        Some(JsxAttrValue::Container(x)) => match &x.kind {
            ExprKind::Call { .. } => true,
            ExprKind::Other => true,
            _ => false,
        },
        _ => false,
    }
}

/// The properties written as attributes with plain names, in order, those
/// with a dynamic value as getters; spread and namespaced attributes are
/// left out.
pub open spec fn attr_props(items: Seq<JsxAttrItem>, i: int) -> Seq<JsPropV>
    decreases i,
{
    if i <= 0 || i > items.len() {
        Seq::empty()
    } else {
        let rest = attr_props(items, i - 1);
        match items[i - 1] {
            JsxAttrItem::Attribute { name: JsxAttrName::Ident(n), value } => rest.push(
                JsPropV { key: n@, value: prop_value_v(value), getter: prop_is_dynamic(value) },
            ),
            _ => rest,
        }
    }
}

/// Does the memo wrapper leave this callee's call alone: a function called
/// at once, a template clone or a component creation?
pub open spec fn keeps_call(callee: JsExprV) -> bool {
    callee is Arrow || callee is Paren || (callee matches JsExprV::Ident(n) && (has_prefix(n, "_tmpl$"@)
        || has_prefix(n, "_$createComponent"@)))
}

pub open spec fn keeps_source_call(callee: CalleeKindV) -> bool {
    callee is FunctionLike || (callee matches CalleeKindV::Ident(n) && (has_prefix(n, "_tmpl$"@) || has_prefix(
        n,
        "_$createComponent"@,
    )))
}

/// `_$memo(x)`
pub open spec fn memo_call_v(x: JsExprV) -> JsExprV {
    call_v("_$memo"@, seq![x])
}

/// A child of a fragment, made reactive where it may change: whether
/// `memo` is used, and the result. Literals, identifiers, template clones,
/// component creations and functions called at once stay as they are; a
/// call without arguments of an identifier or member is memoized by its
/// callee, another call as it is, anything else behind `() =>`.
pub open spec fn memo_v(e: JsExprV) -> (bool, JsExprV) {
    match e {
        JsExprV::Call { callee, args, pure } => if keeps_call(*callee) {
            (false, e)
        } else if args.len() == 0 && (*callee is Ident || *callee is Member) {
            (true, memo_call_v(*callee))
        } else {
            (true, memo_call_v(e))
        },
        JsExprV::Source(id, k) => match k {
            ExprKindV::Call { callee, n_args } => if keeps_source_call(callee) {
                (false, e)
            } else if n_args == 0 && (callee is Ident || callee is Member) {
                (true, memo_call_v(JsExprV::SourceCallee(id)))
            } else {
                (true, memo_call_v(e))
            },
            ExprKindV::Ident(_) | ExprKindV::StringLit(_) | ExprKindV::NumericLit(_) | ExprKindV::BooleanLit(_)
            | ExprKindV::NullLit => (false, e),
            _ => (true, memo_call_v(thunk_v(e))),
        },
        JsExprV::Ident(_) | JsExprV::Str(_) | JsExprV::Bool(_) | JsExprV::Null => (false, e),
        _ => (true, memo_call_v(thunk_v(e))),
    }
}

pub open spec fn memo_code(st: TState, e: JsExprV) -> (TState, JsExprV) {
    let (uses, w) = memo_v(e);
    (if uses { st_add_import(st, "memo"@) } else { st }, w)
}

/// The code of an element that is not a component: a template clone, or a
/// function called at once when the template has slots.
pub open spec fn element_code(st: TState, o: DomExpressionsOptions, e: JsxElement) -> (TState, JsExprV) {
    let t = template_of(e, Some(&o));
    let (st1, var) = st_template_var(st, t.html);
    if t.slots.len() > 0 {
        template_iife(st1, o.delegate_events, elem_exprs(e), t, var)
    } else {
        (st1, template_call_v(var))
    }
}

/// `_$createComponent(Name, { props })`
pub open spec fn component_code(st: TState, o: DomExpressionsOptions, e: JsxElement) -> (TState, JsExprV)
    decreases e, 1int,
{
    let st1 = st_add_import(st, "createComponent"@);
    let (st2, props) = props_code(st1, o, e);
    (st2, call_v("_$createComponent"@, seq![id_v(component_name(e.name)), JsExprV::Object(props)]))
}

/// A component's properties: its attributes, then `children` when it has any.
pub open spec fn props_code(st: TState, o: DomExpressionsOptions, e: JsxElement) -> (TState, Seq<JsPropV>)
    decreases e, 0int,
{
    let attrs = attr_props(e.attributes@, e.attributes@.len() as int);
    if e.children@.len() == 0 {
        (st, attrs)
    } else {
        let (st2, ch) = children_code(st, o, e.children@);
        (st2, attrs.push(JsPropV { key: "children"@, value: ch, getter: false }))
    }
}

/// A component's children: the one significant child, or an array of them.
pub open spec fn children_code(st: TState, o: DomExpressionsOptions, cs: Seq<JsxChild>) -> (TState, JsExprV)
    decreases cs, cs.len() + 1,
{
    let (st2, xs) = component_children_fold(st, o, cs, cs.len() as int);
    if xs.len() == 1 {
        (st2, xs[0])
    } else {
        (st2, JsExprV::Array(xs))
    }
}

pub open spec fn component_children_fold(st: TState, o: DomExpressionsOptions, cs: Seq<JsxChild>, i: int) -> (
    TState,
    Seq<JsExprV>,
)
    decreases cs, i,
{
    if i <= 0 || i > cs.len() {
        (st, Seq::empty())
    } else {
        let (s1, xs) = component_children_fold(st, o, cs, i - 1);
        if significant_component_child(cs[i - 1]) {
            let (s2, x) = child_code(s1, o, cs[i - 1]);
            (s2, xs.push(x))
        } else {
            (s1, xs)
        }
    }
}

/// A fragment: its one significant child, or an array of them, each made
/// reactive where it may change.
pub open spec fn fragment_code(st: TState, o: DomExpressionsOptions, cs: Seq<JsxChild>) -> (TState, JsExprV)
    decreases cs, cs.len() + 1,
{
    let (st2, xs) = fragment_fold(st, o, cs, cs.len() as int);
    if xs.len() == 1 {
        (st2, xs[0])
    } else {
        (st2, JsExprV::Array(xs))
    }
}

pub open spec fn fragment_fold(st: TState, o: DomExpressionsOptions, cs: Seq<JsxChild>, i: int) -> (
    TState,
    Seq<JsExprV>,
)
    decreases cs, i,
{
    if i <= 0 || i > cs.len() {
        (st, Seq::empty())
    } else {
        let (s1, xs) = fragment_fold(st, o, cs, i - 1);
        if significant_fragment_child(cs[i - 1]) {
            let (s2, x) = child_code(s1, o, cs[i - 1]);
            let (s3, w) = memo_code(s2, x);
            (s3, xs.push(w))
        } else {
            (s1, xs)
        }
    }
}

/// The value of a child: text as a string, an expression as it is (`null`
/// when empty), a component's creation, an element's template code, a
/// fragment's code, `null` for a spread.
pub open spec fn child_code(st: TState, o: DomExpressionsOptions, c: JsxChild) -> (TState, JsExprV)
    decreases c, 0int,
{
    match c {
        JsxChild::Text(t) => (st, JsExprV::Str(text_child_v(t@))),
        JsxChild::Container(x) => (st, if x.kind is Empty { JsExprV::Null } else { src_v(x) }),
        JsxChild::Element(b) => if spec_is_component(tag_name_of(b.name)) {
            component_code(st, o, *b)
        } else {
            element_code(st, o, *b)
        },
        JsxChild::Fragment(v) => fragment_code(st, o, v@),
        JsxChild::Spread => (st, JsExprV::Null),
    }
}


pub(crate) fn all_whitespace_exec(t: &str) -> (r: bool)
    ensures
        r == all_whitespace(t@),
{
    let v = crate::text::chars_of(t);
    let n = v.len();
    for i in 0..n
        invariant
            n == v.len(),
            v@ == t@,
            forall|j: int| 0 <= j < i ==> #[trigger] is_whitespace_char(v@[j]),
    {
        if !crate::text::char_is_whitespace(v[i]) {
            return false;
        }
    }
    true
}

/// `str::trim`
fn trim_text(t: &str) -> (r: String)
    ensures
        r@ == trim_v(t@),
{
    let v = crate::text::chars_of(t);
    let n = v.len();
    let mut a: usize = 0;
    assert(first_non_space(t@, 0) == first_non_space(t@, 0));
    while a < n && crate::text::char_is_whitespace(v[a])
        invariant
            n == v.len(),
            v@ == t@,
            a <= n,
            first_non_space(t@, 0) == first_non_space(t@, a as int),
        decreases n - a,
    {
        a = a + 1;
    }
    let mut b: usize = n;
    while b > 0 && crate::text::char_is_whitespace(v[b - 1])
        invariant
            n == v.len(),
            v@ == t@,
            b <= n,
            last_non_space_end(t@, n as int) == last_non_space_end(t@, b as int),
        decreases b,
    {
        b = b - 1;
    }
    if a >= b {
        return String::new();
    }
    let mut out: Vec<char> = Vec::new();
    let mut k = a;
    while k < b
        invariant
            a <= k <= b <= n,
            n == v.len(),
            v@ == t@,
            out@ == t@.subrange(a as int, k as int),
        decreases b - k,
    {
        out.push(v[k]);
        assert(t@.subrange(a as int, k + 1) =~= t@.subrange(a as int, k as int).push(v@[k as int]));
        k = k + 1;
    }
    crate::text::string_of(&out)
}

pub(crate) fn text_child(t: &str) -> (r: String)
    ensures
        r@ == text_child_v(t@),
{
    let v = crate::text::chars_of(t);
    if crate::text::chars_contain(&v, '\n') {
        trim_text(t)
    } else {
        owned(t)
    }
}

fn prop_value(v: &Option<JsxAttrValue>) -> (r: JsExpr)
    ensures
        expr_view(r) == prop_value_v(*v),
{
    match v {
        Some(JsxAttrValue::Str(s)) => JsExpr::Str(s.clone()),
        Some(JsxAttrValue::Container(x)) => match &x.kind {
            ExprKind::Empty => JsExpr::Bool(true),
            _ => source_expr(x),
        },
        _ => JsExpr::Bool(true),
    }
}

fn starts_like_kept_callee(n: &str) -> (r: bool)
    ensures
        r == (has_prefix(n@, "_tmpl$"@) || has_prefix(n@, "_$createComponent"@)),
{
    crate::text::str_starts_with(n, "_tmpl$") || crate::text::str_starts_with(n, "_$createComponent")
}

impl<'a> DomExpressions<'a> {
    /// The fields other than the events are as in `old`.
    pub closed spec fn keeps_all_but_events(&self, old: &Self) -> bool {
        &&& self.options == old.options
        &&& self.templates == old.templates
        &&& self.optimizer == old.optimizer
        &&& self.allocator == old.allocator
    }

    /// The allocator the transformer carries.
    pub closed spec fn allocator_ref(&self) -> &'a oxc_allocator::Allocator {
        self.allocator
    }

    /// What building code leaves alone is as in `old`: the options, the
    /// templates seen, the events, the template statistics and the allocator.
    pub open spec fn keeps_rest(&self, old: &Self) -> bool {
        &&& self.opts() == old.opts()
        &&& self.seen() == old.seen()
        &&& self.events() == old.events()
        &&& self.usage() == old.usage()
        &&& self.allocator_ref() == old.allocator_ref()
    }

    /// Wrap a fragment child in `_$memo` where it may change
    pub(crate) fn maybe_wrap_with_memo(&mut self, expr: JsExpr) -> (r: JsExpr)
        requires
            old(self).wf(),
        ensures
            final(self).wf(),
            final(self).keeps_rest(old(self)),
            (final(self).tstate(), expr_view(r)) == memo_code(old(self).tstate(), expr_view(expr)),
    {
        let ghost ev = expr_view(expr);
        match expr {
            JsExpr::Call { callee, args, pure } => {
                let keep = match &*callee {
                    JsExpr::Arrow { .. } => true,
                    JsExpr::Paren(_) => true,
                    JsExpr::Ident(n) => starts_like_kept_callee(n.as_str()),
                    _ => false,
                };
                let unwrap = args.len() == 0 && match &*callee {
                    JsExpr::Ident(_) => true,
                    JsExpr::Member { .. } => true,
                    _ => false,
                };
                proof {
                    lemma_exprs_view(args@);
                }
                let ghost cv = expr_view(*callee);
                assert(ev == JsExprV::Call { callee: Box::new(cv), args: exprs_view(args@), pure });
                assert(keep == keeps_call(cv));
                assert(unwrap == (exprs_view(args@).len() == 0 && (cv is Ident || cv is Member)));
                if keep {
                    return JsExpr::Call { callee, args, pure };
                }
                self.add_import("memo");
                if unwrap {
                    call("_$memo", exprs1(*callee))
                } else {
                    call("_$memo", exprs1(JsExpr::Call { callee, args, pure }))
                }
            },
            JsExpr::Source(x) => {
                let ghost xv = src_v(x);
                match &x.kind {
                    ExprKind::Call { callee, n_args } => {
                        let keep = match callee {
                            CalleeKind::FunctionLike => true,
                            CalleeKind::Ident(n) => starts_like_kept_callee(n.as_str()),
                            _ => false,
                        };
                        if keep {
                            return JsExpr::Source(x);
                        }
                        let unwrap = *n_args == 0 && match callee {
                            CalleeKind::Ident(_) => true,
                            CalleeKind::Member => true,
                            _ => false,
                        };
                        self.add_import("memo");
                        if unwrap {
                            call("_$memo", exprs1(JsExpr::SourceCallee(x.id)))
                        } else {
                            call("_$memo", exprs1(JsExpr::Source(x)))
                        }
                    },
                    ExprKind::Ident(_) | ExprKind::StringLit(_) | ExprKind::NumericLit(_) | ExprKind::BooleanLit(_)
                    | ExprKind::NullLit => JsExpr::Source(x),
                    _ => {
                        self.add_import("memo");
                        call("_$memo", exprs1(thunk(JsExpr::Source(x))))
                    },
                }
            },
            JsExpr::Ident(n) => JsExpr::Ident(n),
            JsExpr::Str(v) => JsExpr::Str(v),
            JsExpr::Bool(b) => JsExpr::Bool(b),
            JsExpr::Null => JsExpr::Null,
            other => {
                self.add_import("memo");
                call("_$memo", exprs1(thunk(other)))
            },
        }
    }
}


impl<'a> DomExpressions<'a> {
    /// The code of an element that is not a component
    fn element_expression(&mut self, e: &JsxElement) -> (r: JsExpr)
        requires
            old(self).wf(),
        ensures
            final(self).wf(),
            final(self).keeps_rest(old(self)),
            (final(self).tstate(), expr_view(r)) == element_code(old(self).tstate(), old(self).opts(), *e),
    {
        let template = build_template_with_options(e, Some(&self.options));
        let var = self.get_template_var(template.html.as_str());
        if template.dynamic_slots.len() > 0 {
            let mut exprs: Vec<JsxExpr> = Vec::new();
            assert(srcs_v(exprs@) =~= Seq::<JsExprV>::empty());
            extract_expressions_from_jsx(e, &mut exprs);
            assert(srcs_v(exprs@) =~= elem_exprs(*e));
            self.create_template_iife_from_expressions(exprs, &template, var.as_str())
        } else {
            self.create_template_call(var.as_str())
        }
    }

    /// Transform a component into `_$createComponent(Name, props)`
    fn transform_component(&mut self, e: &JsxElement) -> (r: JsExpr)
        requires
            old(self).wf(),
        ensures
            final(self).wf(),
            final(self).keeps_rest(old(self)),
            (final(self).tstate(), expr_view(r)) == component_code(old(self).tstate(), old(self).opts(), *e),
        decreases e, 1int,
    {
        self.add_import("createComponent");
        let name = match &e.name {
            JsxElementName::Ident(s) => s.clone(),
            _ => owned("Unknown"),
        };
        let props = self.create_component_props(e);
        call("_$createComponent", exprs2(JsExpr::Ident(name), JsExpr::Object(props)))
    }

    /// The properties of a component: attributes, then children
    fn create_component_props(&mut self, e: &JsxElement) -> (r: Vec<JsProp>)
        requires
            old(self).wf(),
        ensures
            final(self).wf(),
            final(self).keeps_rest(old(self)),
            (final(self).tstate(), props_view(r@)) == props_code(old(self).tstate(), old(self).opts(), *e),
        decreases e, 0int,
    {
        let items = &e.attributes;
        let mut props: Vec<JsProp> = Vec::new();
        assert(props_view(props@) =~= Seq::<JsPropV>::empty());
        let n = items.len();
        for i in 0..n
            invariant
                n == items.len(),
                items == &e.attributes,
                props_view(props@) == attr_props(items@, i as int),
        {
            match &items[i] {
                JsxAttrItem::Attribute { name: JsxAttrName::Ident(nm), value } => {
                    let p = JsProp { key: nm.clone(), value: prop_value(value), getter: prop_is_dynamic_exec(value) };
                    proof {
                        lemma_props_view_push(props@, p);
                    }
                    props.push(p);
                },
                _ => {},
            }
        }
        if e.children.len() > 0 {
            let ch = self.create_component_children(&e.children);
            let p = JsProp { key: owned("children"), value: ch, getter: false };
            proof {
                lemma_props_view_push(props@, p);
            }
            props.push(p);
        }
        props
    }

    /// The children of a component: the one significant child, or an array
    fn create_component_children(&mut self, children: &Vec<JsxChild>) -> (r: JsExpr)
        requires
            old(self).wf(),
        ensures
            final(self).wf(),
            final(self).keeps_rest(old(self)),
            (final(self).tstate(), expr_view(r)) == children_code(old(self).tstate(), old(self).opts(), children@),
        decreases children@, children@.len() + 1,
    {
        let ghost o = self.opts();
        let mut xs: Vec<JsExpr> = Vec::new();
        assert(exprs_view(xs@) =~= Seq::<JsExprV>::empty());
        let n = children.len();
        for i in 0..n
            invariant
                n == children.len(),
                o == old(self).opts(),
                self.wf(),
                self.keeps_rest(old(self)),
                (self.tstate(), exprs_view(xs@)) == component_children_fold(old(self).tstate(), o, children@, i as int),
        {
            let c = &children[i];
            let significant = match c {
                JsxChild::Text(t) => !all_whitespace_exec(t.as_str()),
                _ => true,
            };
            if significant {
                let x = self.jsx_child_to_expression(c);
                proof {
                    lemma_exprs_view_push(xs@, x);
                }
                xs.push(x);
            }
        }
        proof {
            lemma_exprs_view(xs@);
        }
        if xs.len() == 1 {
            let x = xs.pop().unwrap();
            x
        } else {
            JsExpr::Array(xs)
        }
    }

    /// The value of a JSX child as an expression
    fn jsx_child_to_expression(&mut self, c: &JsxChild) -> (r: JsExpr)
        requires
            old(self).wf(),
        ensures
            final(self).wf(),
            final(self).keeps_rest(old(self)),
            (final(self).tstate(), expr_view(r)) == child_code(old(self).tstate(), old(self).opts(), *c),
        decreases c, 0int,
    {
        match c {
            JsxChild::Text(t) => JsExpr::Str(text_child(t.as_str())),
            JsxChild::Container(x) => match &x.kind {
                ExprKind::Empty => JsExpr::Null,
                _ => source_expr(x),
            },
            JsxChild::Element(b) => {
                let tag: &str = match &b.name {
                    JsxElementName::Ident(s) => s.as_str(),
                    _ => "",
                };
                proof {
                    reveal_strlit("");
                }
                if is_component(tag) {
                    self.transform_component(b)
                } else {
                    self.element_expression(b)
                }
            },
            JsxChild::Fragment(v) => self.transform_fragment(v),
            JsxChild::Spread => JsExpr::Null,
        }
    }

    /// Transform a fragment into its one child or an array of its children
    fn transform_fragment(&mut self, children: &Vec<JsxChild>) -> (r: JsExpr)
        requires
            old(self).wf(),
        ensures
            final(self).wf(),
            final(self).keeps_rest(old(self)),
            (final(self).tstate(), expr_view(r)) == fragment_code(old(self).tstate(), old(self).opts(), children@),
        decreases children@, children@.len() + 1,
    {
        let ghost o = self.opts();
        let mut xs: Vec<JsExpr> = Vec::new();
        assert(exprs_view(xs@) =~= Seq::<JsExprV>::empty());
        let n = children.len();
        for i in 0..n
            invariant
                n == children.len(),
                o == old(self).opts(),
                self.wf(),
                self.keeps_rest(old(self)),
                (self.tstate(), exprs_view(xs@)) == fragment_fold(old(self).tstate(), o, children@, i as int),
        {
            let c = &children[i];
            let significant = match c {
                JsxChild::Text(t) => {
                    let v = crate::text::chars_of(t.as_str());
                    !all_whitespace_exec(t.as_str()) || (!crate::text::chars_contain(&v, '\n') && v.len() > 0)
                },
                _ => true,
            };
            if significant {
                let x = self.jsx_child_to_expression(c);
                let w = self.maybe_wrap_with_memo(x);
                proof {
                    lemma_exprs_view_push(xs@, w);
                }
                xs.push(w);
            }
        }
        proof {
            lemma_exprs_view(xs@);
        }
        if xs.len() == 1 {
            let x = xs.pop().unwrap();
            x
        } else {
            JsExpr::Array(xs)
        }
    }
}


// ---------------------------------------------------------------------------
// The walk over a program
// ---------------------------------------------------------------------------

/// The events a template adds for delegation: the names of its event
/// handler slots that delegate, when delegation is on.
pub open spec fn events_fold(es: Seq<Seq<char>>, slots: Seq<SlotV>, delegate: bool, i: int) -> Seq<Seq<char>>
    decreases i,
{
    if i <= 0 || i > slots.len() {
        es
    } else {
        let prev = events_fold(es, slots, delegate, i - 1);
        match slots[i - 1].kind {
            SlotKind::EventHandler(name) => if delegate && spec_should_delegate_event(name) {
                insert_event(prev, lowercase_of(name))
            } else {
                prev
            },
            _ => prev,
        }
    }
}

/// The code for a JSX expression: a fragment's code, a component's
/// creation, an element's template code; nothing for an element whose name
/// is not an identifier.
pub open spec fn node_code(st: TState, o: DomExpressionsOptions, n: JsxNode) -> (TState, Option<JsExprV>) {
    match n {
        JsxNode::Fragment(cs) => {
            let (st2, x) = fragment_code(st, o, cs@);
            (st2, Some(x))
        },
        JsxNode::Element(e) => match e.name {
            JsxElementName::Ident(s) => {
                let (st2, x) = if spec_is_component(s@) {
                    component_code(st, o, e)
                } else {
                    element_code(st, o, e)
                };
                (st2, Some(x))
            },
            _ => (st, None),
        },
    }
}

/// What leaving the program adds: the state with `delegateEvents` imported
/// when events are delegated, the statements put before the program (the
/// imports, then the template declarations) and the one put after it (the
/// delegation call).
pub open spec fn program_code(st: TState, events: Seq<Seq<char>>, o: DomExpressionsOptions) -> (
    TState,
    Seq<JsStmtV>,
    Option<JsStmtV>,
) {
    let delegating = o.delegate_events && events.len() > 0;
    let st1 = if delegating { st_add_import(st, "delegateEvents"@) } else { st };
    let imports = if st1.imports.len() > 0 { import_stmts_v(st1.imports, o.module_name@) } else { Seq::empty() };
    let decls = match template_decls_v(st1.templates) {
        Some(d) => seq![d],
        None => Seq::empty(),
    };
    (st1, imports + decls, if delegating { delegate_call_v(events) } else { None })
}

impl<'a> DomExpressions<'a> {
    /// Can another template be recorded without a counter overflowing?
    pub open spec fn can_record(&self) -> bool {
        forall|i: int| 0 <= i < self.usage().len() ==> #[trigger] self.usage()[i].count < usize::MAX
    }

    /// Whether every template usage count is below the largest `usize`.
    pub fn usage_counts_below_max(&self) -> (r: bool)
        requires
            self.wf(),
        ensures
            r == self.can_record(),
    {
        let n = self.optimizer.len();
        for i in 0..n
            invariant
                n == self.usage().len(),
                self.wf(),
                forall|j: int| 0 <= j < i ==> #[trigger] self.usage()[j].count < usize::MAX,
        {
            if self.optimizer.count_at(i) == usize::MAX {
                return false;
            }
        }
        true
    }

    /// Start a program: forget earlier templates, counters, imports and
    /// events; `template` is always imported.
    pub fn enter_program(&mut self)
        requires
            old(self).wf(),
        ensures
            final(self).wf(),
            final(self).tstate() == (TState {
                templates: Seq::empty(),
                element_counter: 0,
                imports: seq!["template"@],
            }),
            final(self).events() == Seq::<Seq<char>>::empty(),
            final(self).seen() == Seq::<TemplateV>::empty(),
            final(self).usage() == old(self).usage(),
            final(self).opts() == old(self).opts(),
    {
        self.templates = Vec::new();
        self.template_map = Vec::new();
        self.template_counter = 0;
        self.element_counter = 0;
        self.required_imports = Vec::new();
        self.delegated_events = Vec::new();
        assert(self.tstate().templates =~= Seq::<(Seq<char>, Seq<char>)>::empty());
        assert(self.tstate().imports =~= Seq::<Seq<char>>::empty());
        assert(self.events() =~= Seq::<Seq<char>>::empty());
        assert(self.seen() =~= Seq::<TemplateV>::empty());
        self.add_import("template");
        assert(self.tstate().imports =~= seq!["template"@]);
    }

    /// Leave a program: the statements to put before it and the one to put after it
    pub fn exit_program(&mut self) -> (r: (Vec<JsStmt>, Option<JsStmt>))
        requires
            old(self).wf(),
        ensures
            final(self).wf(),
            ({
                let (st, pre, post) = program_code(old(self).tstate(), old(self).events(), old(self).opts());
                &&& final(self).tstate() == st
                &&& stmts_view(r.0@) == pre
                &&& match r.1 {
                    Some(s) => post == Some(stmt_view(s)),
                    None => post is None,
                }
            }),
            final(self).events() == old(self).events(),
            final(self).seen() == old(self).seen(),
            final(self).usage() == old(self).usage(),
            final(self).opts() == old(self).opts(),
    {
        let delegating = self.options.delegate_events && self.delegated_events.len() > 0;
        if delegating {
            self.add_import("delegateEvents");
        }
        let mut out: Vec<JsStmt> = Vec::new();
        if self.required_imports.len() > 0 {
            out = self.create_import_statements();
        } else {
            assert(stmts_view(out@) =~= Seq::<JsStmtV>::empty());
        }
        let ghost before = out@;
        match self.create_template_declarations() {
            Some(d) => {
                proof {
                    lemma_stmts_view_push(out@, d);
                }
                out.push(d);
            },
            None => {
                assert(stmts_view(out@) =~= stmts_view(before) + Seq::<JsStmtV>::empty());
            },
        }
        let post = if delegating {
            self.create_delegate_events_call()
        } else {
            None
        };
        (out, post)
    }

    /// Record the template of an element that is not a component, and the
    /// events its handlers delegate
    pub fn enter_jsx_element(&mut self, e: &JsxElement)
        requires
            old(self).wf(),
            old(self).can_record(),
        ensures
            final(self).wf(),
            final(self).tstate() == old(self).tstate(),
            final(self).opts() == old(self).opts(),
            ({
                let t = template_of(*e, Some(&old(self).opts()));
                if e.name is Ident && !spec_is_component(tag_name_of(e.name)) {
                    &&& final(self).seen() == old(self).seen().push(t)
                    &&& final(self).usage() == recorded(old(self).usage(), t)
                    &&& final(self).events() == events_fold(
                        old(self).events(),
                        t.slots,
                        old(self).opts().delegate_events,
                        t.slots.len() as int,
                    )
                } else {
                    &&& final(self).seen() == old(self).seen()
                    &&& final(self).usage() == old(self).usage()
                    &&& final(self).events() == old(self).events()
                }
            }),
    {
        let tag: &str = match &e.name {
            JsxElementName::Ident(s) => s.as_str(),
            _ => {
                return;
            },
        };
        if is_component(tag) {
            return;
        }
        let template = build_template_with_options(e, Some(&self.options));
        let ghost t = template@;
        assert forall|i: int| 0 <= i < self.optimizer.entries().len() implies #[trigger] self.optimizer.entries()[i].count < usize::MAX by {
            assert(self.usage()[i].count < usize::MAX);
        }
        self.optimizer.record_template(clone_template(&template));
        let delegate = self.options.delegate_events;
        let n = template.dynamic_slots.len();
        assert(events_fold(old(self).events(), t.slots, delegate, 0) == old(self).events());
        for i in 0..n
            invariant
                n == template.dynamic_slots.len(),
                t == template@,
                delegate == self.options.delegate_events,
                self.wf(),
                self.tstate() == old(self).tstate(),
                self.options == old(self).options,
                self.templates == old(self).templates,
                self.usage() == recorded(old(self).usage(), t),
                self.events() == events_fold(old(self).events(), t.slots, delegate, i as int),
        {
            let slot = &template.dynamic_slots[i];
            assert(t.slots[i as int] == slot@);
            match &slot.slot_type {
                SlotType::EventHandler(name) => {
                    if delegate && should_delegate_event(name.as_str()) {
                        self.add_delegated_event(name.as_str());
                    }
                },
                _ => {},
            }
        }
        let ghost before = self.templates@;
        self.templates.push(template);
        assert(self.seen() =~= old(self).seen().push(t));
    }

    /// Replace a JSX expression, once its inner expressions are done: a
    /// fragment, a component or an element; `None` leaves it as it is
    pub fn exit_expression(&mut self, node: &JsxNode) -> (r: Option<JsExpr>)
        requires
            old(self).wf(),
        ensures
            final(self).wf(),
            final(self).keeps_rest(old(self)),
            ({
                let (st, x) = node_code(old(self).tstate(), old(self).opts(), *node);
                &&& final(self).tstate() == st
                &&& match r {
                    Some(e) => x == Some(expr_view(e)),
                    None => x is None,
                }
            }),
    {
        match node {
            JsxNode::Fragment(cs) => Some(self.transform_fragment(cs)),
            JsxNode::Element(e) => match &e.name {
                JsxElementName::Ident(s) => {
                    if is_component(s.as_str()) {
                        Some(self.transform_component(e))
                    } else {
                        Some(self.element_expression(e))
                    }
                },
                _ => None,
            },
        }
    }
}


// ---------------------------------------------------------------------------
// The modern output form: `const _el$ = _tmpl$()` and direct runtime calls
// ---------------------------------------------------------------------------

/// `base.step1.step2...`
pub open spec fn navigate_v(base: Seq<char>, path: PathV) -> JsExprV
    decreases path.len(),
{
    if path.len() == 0 {
        id_v(base)
    } else {
        member_v(navigate_v(base, path.drop_last()), path.last())
    }
}

/// The value of an optional expression, `null` for none.
pub open spec fn opt_expr_v(m: Option<JsExpr>) -> JsExprV {
    match m {
        Some(x) => expr_view(x),
        None => JsExprV::Null,
    }
}

/// `const name = init;`
pub open spec fn const_decl_v(name: Seq<char>, init: JsExprV) -> JsStmtV {
    JsStmtV::Var { kind: DeclKind::Const, decls: seq![JsDeclV { name, init }] }
}

/// `(() => { stmts; return root; })()`
pub open spec fn paren_iife_v(stmts: Seq<JsStmtV>, root: Seq<char>) -> JsExprV {
    JsExprV::Call {
        callee: Box::new(
            JsExprV::Paren(
                Box::new(
                    JsExprV::Arrow { params: Seq::empty(), body: stmts.push(return_v(root)), expression: false },
                ),
            ),
        ),
        args: Seq::empty(),
        pure: false,
    }
}

/// `_$effect(() => { _$setAttribute(el, "name", value); })`
pub open spec fn effect_block_v(el: JsExprV, name: Seq<char>, value: JsExprV) -> JsStmtV {
    call_stmt_v(
        "_$effect"@,
        seq![JsExprV::Arrow {
            params: Seq::empty(),
            body: seq![JsStmtV::Expr(call_v("_$setAttribute"@, seq![el, str_v(name), value]))],
            expression: false,
        }],
    )
}

/// One slot's code in the modern form; once the expressions run out the
/// remaining slots add nothing.
pub open spec fn modern_step(
    acc: (TState, nat, Seq<JsStmtV>),
    slot: SlotV,
    exprs: Seq<JsExprV>,
    root: Seq<char>,
) -> (TState, nat, Seq<JsStmtV>) {
    let st = acc.0;
    let i = acc.1;
    let out = acc.2;
    if i >= exprs.len() {
        acc
    } else {
        let el = navigate_v(root, slot.path);
        match slot.kind {
            SlotKind::TextContent => {
                let marker = match slot.marker {
                    Some(m) => navigate_v(root, m),
                    None => JsExprV::Null,
                };
                (
                    st_add_import(st, "insert"@),
                    i + 1,
                    out.push(call_stmt_v("_$insert"@, seq![el, exprs[i as int], marker])),
                )
            },
            SlotKind::Attribute(name) => (
                st_add_import(st_add_import(st, "setAttribute"@), "effect"@),
                i + 1,
                out.push(effect_block_v(el, name, exprs[i as int])),
            ),
            SlotKind::EventHandler(name) => (
                st_add_import(st, "addEventListener"@),
                i + 1,
                out.push(call_stmt_v("_$addEventListener"@, seq![el, str_v(name), exprs[i as int], JsExprV::Bool(true)])),
            ),
            _ => (st, i + 1, out),
        }
    }
}

pub open spec fn modern_fold(st: TState, slots: Seq<SlotV>, exprs: Seq<JsExprV>, root: Seq<char>, k: int) -> (
    TState,
    nat,
    Seq<JsStmtV>,
)
    decreases k,
{
    if k <= 0 || k > slots.len() {
        (st, 0, Seq::empty())
    } else {
        modern_step(modern_fold(st, slots, exprs, root, k - 1), slots[k - 1], exprs, root)
    }
}

/// The modern code of an element: the template is recorded, its variable
/// found, and a function called at once clones it into `_el$`, applies the
/// runtime calls and returns it.
pub open spec fn modern_code(st: TState, o: DomExpressionsOptions, e: JsxElement) -> (TState, TemplateV, JsExprV) {
    let t = template_of(e, Some(&o));
    let (st1, var) = st_template_var(st, t.html);
    let head = seq![const_decl_v("_el$"@, template_call_v(var))];
    if t.slots.len() == 0 {
        (st1, t, paren_iife_v(head, "_el$"@))
    } else {
        let f = modern_fold(st1, t.slots, elem_exprs(e), "_el$"@, t.slots.len() as int);
        (f.0, t, paren_iife_v(head + f.2, "_el$"@))
    }
}

impl<'a> DomExpressions<'a> {
    /// `base.step1.step2...`
    pub fn navigate_to_element(&self, base_var: &str, path: &Vec<String>) -> (r: JsExpr)
        ensures
            expr_view(r) == navigate_v(base_var@, path_view(path@)),
    {
        let mut e = ident(base_var);
        let n = path.len();
        for k in 0..n
            invariant
                n == path.len(),
                expr_view(e) == navigate_v(base_var@, path_view(path@).take(k as int)),
        {
            let ghost before = expr_view(e);
            e = self.create_member_expr(e, path[k].as_str());
            assert(path_view(path@).take(k + 1).drop_last() =~= path_view(path@).take(k as int));
        }
        assert(path_view(path@).take(n as int) =~= path_view(path@));
        e
    }

    /// `object.property`
    pub fn create_member_expr(&self, object: JsExpr, property: &str) -> (r: JsExpr)
        ensures
            expr_view(r) == member_v(expr_view(object), property@),
    {
        member(object, property)
    }

    /// `const name = init;`
    pub fn const_decl(&self, name: &str, init: JsExpr) -> (r: JsStmt)
        ensures
            stmt_view(r) == const_decl_v(name@, expr_view(init)),
    {
        let mut decls: Vec<JsDecl> = Vec::new();
        let d = JsDecl { name: owned(name), init };
        proof {
            lemma_decls_view_push(decls@, d);
        }
        decls.push(d);
        assert(decls_view(Seq::<JsDecl>::empty()) =~= Seq::<JsDeclV>::empty());
        assert(decls_view(decls@) =~= seq![JsDeclV { name: name@, init: expr_view(init) }]);
        JsStmt::Var { kind: DeclKind::Const, decls }
    }

    /// `_tmpl$()`
    pub fn create_clone_call(&self, template_var: &str) -> (r: JsExpr)
        ensures
            expr_view(r) == template_call_v(template_var@),
    {
        self.create_template_call(template_var)
    }

    /// `(() => { statements; return root; })()`
    pub fn create_iife(&self, statements: Vec<JsStmt>, root_var: &str) -> (r: JsExpr)
        ensures
            expr_view(r) == paren_iife_v(stmts_view(statements@), root_var@),
    {
        let mut body = statements;
        let ret = self.create_return_statement(root_var);
        proof {
            lemma_stmts_view_push(body@, ret);
        }
        body.push(ret);
        let params: Vec<String> = Vec::new();
        assert(strings_view(params@) =~= Seq::<Seq<char>>::empty());
        let args: Vec<JsExpr> = Vec::new();
        assert(exprs_view(args@) =~= Seq::<JsExprV>::empty());
        let ghost bv = stmts_view(statements@).push(return_v(root_var@));
        assert(stmts_view(body@) == bv);
        let arrow = JsExpr::Arrow { params, body, expression: false };
        assert(expr_view(arrow) == JsExprV::Arrow { params: Seq::empty(), body: bv, expression: false });
        let paren = JsExpr::Paren(Box::new(arrow));
        assert(expr_view(paren) == JsExprV::Paren(Box::new(JsExprV::Arrow { params: Seq::empty(), body: bv, expression: false })));
        JsExpr::Call { callee: Box::new(paren), args, pure: false }
    }

    /// `_$insert(parent, value, marker)`, with `null` when there is no marker
    pub fn create_insert_call(&self, element: JsExpr, value: JsExpr, marker: Option<JsExpr>) -> (r: JsStmt)
        ensures
            stmt_view(r) == call_stmt_v("_$insert"@, seq![expr_view(element), expr_view(value), opt_expr_v(marker)]),
    {
        let ghost mv = opt_expr_v(marker);
        let m = match marker {
            Some(m) => m,
            None => JsExpr::Null,
        };
        assert(expr_view(m) == mv);
        call_stmt("_$insert", exprs3(element, value, m))
    }

    /// `_$effect(() => { _$setAttribute(element, "name", value); })`
    pub fn create_set_attribute_effect(&self, element: JsExpr, attr_name: &str, value: JsExpr) -> (r: JsStmt)
        ensures
            stmt_view(r) == effect_block_v(expr_view(element), attr_name@, expr_view(value)),
    {
        let inner = call("_$setAttribute", exprs3(element, str_lit(attr_name), value));
        let mut body: Vec<JsStmt> = Vec::new();
        let st = JsStmt::Expr(inner);
        proof {
            lemma_stmts_view_push(body@, st);
        }
        body.push(st);
        assert(stmts_view(Seq::<JsStmt>::empty()) =~= Seq::<JsStmtV>::empty());
        let params: Vec<String> = Vec::new();
        assert(strings_view(params@) =~= Seq::<Seq<char>>::empty());
        call_stmt("_$effect", exprs1(JsExpr::Arrow { params, body, expression: false }))
    }

    /// `_$addEventListener(element, "name", handler, true)`
    pub fn create_event_listener(&self, element: JsExpr, event_name: &str, handler: JsExpr) -> (r: JsStmt)
        ensures
            stmt_view(r) == call_stmt_v(
                "_$addEventListener"@,
                seq![expr_view(element), str_v(event_name@), expr_view(handler), JsExprV::Bool(true)],
            ),
    {
        call_stmt("_$addEventListener", exprs4(element, str_lit(event_name), handler, JsExpr::Bool(true)))
    }

    /// An empty bindings object `{}`
    pub fn create_empty_bindings_object(&self) -> (r: Vec<JsProp>)
        ensures
            props_view(r@) == Seq::<JsPropV>::empty(),
    {
        let r: Vec<JsProp> = Vec::new();
        assert(props_view(r@) =~= Seq::<JsPropV>::empty());
        r
    }

    /// Add `key: value` to a bindings object
    pub fn add_binding_property(&self, obj: &mut Vec<JsProp>, key: &str, value: JsExpr)
        ensures
            props_view(final(obj)@) == props_view(old(obj)@).push(JsPropV { key: key@, value: expr_view(value), getter: false }),
    {
        let p = JsProp { key: owned(key), value, getter: false };
        proof {
            lemma_props_view_push(obj@, p);
        }
        obj.push(p);
    }

    /// `() => expr`
    pub fn wrap_in_arrow(&self, expr: JsExpr) -> (r: JsExpr)
        ensures
            expr_view(r) == thunk_v(expr_view(expr)),
    {
        thunk(expr)
    }

    /// Transform an element into the modern form, recording its template
    pub fn transform_jsx_element_modern(&mut self, e: &JsxElement) -> (r: JsExpr)
        requires
            old(self).wf(),
        ensures
            final(self).wf(),
            ({
                let (st, t, x) = modern_code(old(self).tstate(), old(self).opts(), *e);
                &&& final(self).tstate() == st
                &&& final(self).seen() == old(self).seen().push(t)
                &&& expr_view(r) == x
            }),
            final(self).opts() == old(self).opts(),
            final(self).events() == old(self).events(),
            final(self).usage() == old(self).usage(),
    {
        let template = build_template_with_options(e, Some(&self.options));
        let ghost t = template@;
        let template_var = self.get_template_var(template.html.as_str());
        let clone_call = self.create_clone_call(template_var.as_str());
        let decl = self.const_decl("_el$", clone_call);
        let mut statements: Vec<JsStmt> = Vec::new();
        proof {
            lemma_stmts_view_push(statements@, decl);
        }
        statements.push(decl);
        assert(stmts_view(Seq::<JsStmt>::empty()) =~= Seq::<JsStmtV>::empty());
        let ghost head = stmts_view(statements@);
        assert(head =~= seq![const_decl_v("_el$"@, template_call_v(template_var@))]);
        if template.dynamic_slots.len() == 0 {
            self.templates.push(template);
            assert(self.seen() =~= old(self).seen().push(t));
            return self.create_iife(statements, "_el$");
        }
        let mut expressions: Vec<JsxExpr> = Vec::new();
        assert(srcs_v(expressions@) =~= Seq::<JsExprV>::empty());
        extract_expressions_from_jsx(e, &mut expressions);
        assert(srcs_v(expressions@) =~= elem_exprs(*e));
        let ghost exprs = srcs_v(expressions@);
        let ghost st1 = self.tstate();
        let ghost slots = t.slots;
        let mut expr_index: usize = 0;
        let n = template.dynamic_slots.len();
        assert(head + modern_fold(st1, slots, exprs, "_el$"@, 0).2 =~= head);
        for k in 0..n
            invariant
                n == template.dynamic_slots.len(),
                slots == template@.slots,
                t == template@,
                exprs == srcs_v(expressions@),
                self.wf(),
                self.opts() == old(self).opts(),
                self.seen() == old(self).seen(),
                self.events() == old(self).events(),
                self.usage() == old(self).usage(),
                ({
                    let f = modern_fold(st1, slots, exprs, "_el$"@, k as int);
                    &&& self.tstate() == f.0
                    &&& expr_index == f.1
                    &&& stmts_view(statements@) == head + f.2
                }),
                expr_index <= expressions.len(),
        {
            let slot = &template.dynamic_slots[k];
            assert(slots[k as int] == slot@);
            let ghost fk = modern_fold(st1, slots, exprs, "_el$"@, k as int);
            assert(modern_fold(st1, slots, exprs, "_el$"@, k + 1) == modern_step(fk, slot@, exprs, "_el$"@));
            if expr_index < expressions.len() {
                let ghost before = statements@;
                let element = self.navigate_to_element("_el$", &slot.path);
                let value = source_expr(&expressions[expr_index]);
                match &slot.slot_type {
                    SlotType::TextContent => {
                        self.add_import("insert");
                        let marker = match &slot.marker_path {
                            Some(m) => Some(self.navigate_to_element("_el$", m)),
                            None => None,
                        };
                        assert(opt_expr_v(marker) == match slot@.marker {
                            Some(m) => navigate_v("_el$"@, m),
                            None => JsExprV::Null,
                        });
                        let st = self.create_insert_call(element, value, marker);
                        proof {
                            lemma_stmts_view_push(statements@, st);
                        }
                        statements.push(st);
                    },
                    SlotType::Attribute(name) => {
                        self.add_import("setAttribute");
                        self.add_import("effect");
                        let st = self.create_set_attribute_effect(element, name.as_str(), value);
                        proof {
                            lemma_stmts_view_push(statements@, st);
                        }
                        statements.push(st);
                    },
                    SlotType::EventHandler(name) => {
                        self.add_import("addEventListener");
                        let st = self.create_event_listener(element, name.as_str(), value);
                        proof {
                            lemma_stmts_view_push(statements@, st);
                        }
                        statements.push(st);
                    },
                    _ => {},
                }
                expr_index = expr_index + 1;
            }
        }
        self.templates.push(template);
        assert(self.seen() =~= old(self).seen().push(t));
        self.create_iife(statements, "_el$")
    }
}


// ---------------------------------------------------------------------------
// Laws
// ---------------------------------------------------------------------------

proof fn lemma_find_template_some(ts: Seq<(Seq<char>, Seq<char>)>, html: Seq<char>)
    ensures
        find_template(ts, html) matches Some(k) ==> 0 <= k < ts.len() && ts[k].0 == html,
    decreases ts.len(),
{
    if ts.len() > 0 {
        lemma_find_template_some(ts.drop_last(), html);
    }
}

proof fn lemma_find_template_unique(ts: Seq<(Seq<char>, Seq<char>)>, html: Seq<char>, i: int)
    requires
        templates_wf(ts),
        0 <= i < ts.len(),
        ts[i].0 == html,
    ensures
        find_template(ts, html) == Some(i),
{
    lemma_find_template_some(ts, html);
    match find_template(ts, html) {
        Some(k) => {
            if k != i {
                if k < i {
                    assert(ts[k].0 != ts[i].0);
                } else {
                    assert(ts[i].0 != ts[k].0);
                }
            }
        },
        None => {
            if find_template(ts, html) is None {
                lemma_find_template_none(ts, html, i);
            }
        },
    }
}

/// Asking for the variable of a template keeps the state well formed.
pub proof fn lemma_template_var_wf(st: TState, html: Seq<char>)
    requires
        tstate_wf(st),
    ensures
        tstate_wf(st_template_var(st, html).0),
{
    lemma_find_template_some(st.templates, html);
    if find_template(st.templates, html) is None {
        let ts2 = st.templates.push((html, spec_template_var_name(st.templates.len() + 1)));
        assert forall|i: int, j: int| 0 <= i < j < ts2.len() implies (#[trigger] ts2[i]).0 != (#[trigger] ts2[j]).0 by {
            if j == ts2.len() - 1 {
                lemma_find_template_none(st.templates, html, i);
            }
        }
    }
}

/// Template deduplication: once a template's HTML has a variable, asking
/// again gives the same variable and changes nothing.
pub proof fn law_template_var_reused(st: TState, html: Seq<char>)
    requires
        tstate_wf(st),
    ensures
        st_template_var(st_template_var(st, html).0, html) == st_template_var(st, html),
{
    let (s1, v1) = st_template_var(st, html);
    lemma_template_var_wf(st, html);
    lemma_find_template_some(st.templates, html);
    match find_template(st.templates, html) {
        Some(k) => {},
        None => {
            let n = st.templates.len();
            lemma_find_template_unique(s1.templates, html, n as int);
        },
    }
}

/// Templates with different HTML get different variables.
pub proof fn law_template_vars_distinct(st: TState, h1: Seq<char>, h2: Seq<char>)
    requires
        tstate_wf(st),
        h1 != h2,
    ensures
        st_template_var(st, h1).1 != st_template_var(st_template_var(st, h1).0, h2).1,
{
    let (s1, v1) = st_template_var(st, h1);
    lemma_template_var_wf(st, h1);
    lemma_find_template_some(st.templates, h1);
    lemma_find_template_some(s1.templates, h2);
    let (s2, v2) = st_template_var(s1, h2);
    let k1: int = match find_template(st.templates, h1) {
        Some(k) => k,
        None => st.templates.len() as int,
    };
    if find_template(st.templates, h1) is None {
        lemma_find_template_unique(s1.templates, h1, k1);
    }
    assert(s1.templates[k1].0 == h1);
    assert(v1 == spec_template_var_name((k1 + 1) as nat));
    let k2: int = match find_template(s1.templates, h2) {
        Some(k) => k,
        None => s1.templates.len() as int,
    };
    assert(v2 == spec_template_var_name((k2 + 1) as nat));
    assert(k1 != k2);
    if v1 == v2 {
        crate::compat::naming::lemma_template_var_name_injective((k1 + 1) as nat, (k2 + 1) as nat);
    }
}

proof fn lemma_runtime_fold_templates(
    st: TState,
    slots: Seq<SlotV>,
    exprs: Seq<JsExprV>,
    root: Seq<char>,
    ptv: Seq<(PathV, Seq<char>)>,
    delegate: bool,
    k: int,
)
    ensures
        runtime_fold(st, slots, exprs, root, ptv, delegate, k).0.templates == st.templates,
    decreases k,
{
    if k > 0 && k <= slots.len() {
        lemma_runtime_fold_templates(st, slots, exprs, root, ptv, delegate, k - 1);
    }
}

proof fn lemma_element_code_templates(st: TState, o: DomExpressionsOptions, e: JsxElement)
    ensures
        element_code(st, o, e).0.templates == st_template_var(st, template_of(e, Some(&o)).html).0.templates,
{
    let t = template_of(e, Some(&o));
    let (st1, var) = st_template_var(st, t.html);
    if t.slots.len() > 0 {
        let (c2, root, decl, ptv) = element_decls_v(t.slots, st1.element_counter, var);
        let st2 = TState { element_counter: c2, ..st1 };
        lemma_runtime_fold_templates(st2, t.slots, elem_exprs(e), root, ptv, o.delegate_events, t.slots.len() as int);
    }
}

/// Identical templates are declared once: after the code for one element,
/// the code for another element with the same template HTML declares no new
/// template and uses the variable that the first one got.
pub proof fn law_identical_templates_declared_once(
    st: TState,
    o: DomExpressionsOptions,
    e1: JsxElement,
    e2: JsxElement,
)
    requires
        tstate_wf(st),
        template_of(e1, Some(&o)).html == template_of(e2, Some(&o)).html,
    ensures
        ({
            let html = template_of(e1, Some(&o)).html;
            let st1 = element_code(st, o, e1).0;
            &&& element_code(st1, o, e2).0.templates == st1.templates
            &&& st_template_var(st1, html).1 == st_template_var(st, html).1
        }),
{
    let html = template_of(e1, Some(&o)).html;
    let (sa, v) = st_template_var(st, html);
    law_template_var_reused(st, html);
    lemma_element_code_templates(st, o, e1);
    let st1 = element_code(st, o, e1).0;
    assert(st1.templates == sa.templates);
    assert(find_template(st1.templates, html) == find_template(sa.templates, html));
    lemma_element_code_templates(st1, o, e2);
}

/// Every event that a delegating handler of a template names is collected
/// for delegation, in lower case; events collected before stay, and the
/// collection stays sorted without repeats.
pub proof fn law_delegated_events_collected(es: Seq<Seq<char>>, slots: Seq<SlotV>, delegate: bool, i: int)
    requires
        events_sorted(es),
        0 <= i <= slots.len(),
    ensures
        events_sorted(events_fold(es, slots, delegate, i)),
        forall|e: Seq<char>| es.contains(e) ==> events_fold(es, slots, delegate, i).contains(e),
        forall|j: int|
            0 <= j < i ==> match (#[trigger] slots[j]).kind {
                SlotKind::EventHandler(name) => delegate && spec_should_delegate_event(name)
                    ==> events_fold(es, slots, delegate, i).contains(lowercase_of(name)),
                _ => true,
            },
    decreases i,
{
    if i > 0 {
        law_delegated_events_collected(es, slots, delegate, i - 1);
        let prev = events_fold(es, slots, delegate, i - 1);
        let cur = events_fold(es, slots, delegate, i);
        match slots[i - 1].kind {
            SlotKind::EventHandler(name) => {
                if delegate && spec_should_delegate_event(name) {
                    lemma_insert_event_sorted(prev, lowercase_of(name));
                    assert(cur == insert_event(prev, lowercase_of(name)));
                    assert(forall|x: Seq<char>| prev.contains(x) ==> cur.to_set().contains(x));
                    assert(cur.to_set().contains(lowercase_of(name)));
                }
            },
            _ => {},
        }
    }
}

impl<'a> DomExpressions<'a> {
    /// Delegated events are kept in sorted order, each once.
    pub proof fn law_delegated_events_sorted(&self)
        requires
            self.wf(),
        ensures
            events_sorted(self.events()),
            forall|i: int, j: int| 0 <= i < j < self.events().len() ==> self.events()[i] != self.events()[j],
    {
        assert forall|i: int, j: int| 0 <= i < j < self.events().len() implies self.events()[i] != self.events()[j] by {
            if self.events()[i] == self.events()[j] {
                lemma_str_less_irreflexive(self.events()[i]);
            }
        }
    }

    /// Each runtime function is imported once; each template HTML has one
    /// variable, the `k`-th being `_tmpl$` numbered `k + 1`.
    pub proof fn law_state_invariant(&self)
        requires
            self.wf(),
        ensures
            tstate_wf(self.tstate()),
    {
    }

    /// The template declarations come in the order of their variables'
    /// numbers: the `k`-th declares the variable numbered `k + 1`.
    pub proof fn law_template_declarations_numbered(&self, k: int)
        requires
            self.wf(),
            0 <= k < self.tstate().templates.len(),
        ensures
            template_decls_v(self.tstate().templates) matches Some(JsStmtV::Var { decls, .. }) && k < decls.len()
                && crate::compat::naming::spec_template_counter(decls[k].name) == Some((k + 1) as nat),
    {
        let ts = self.tstate().templates;
        assert(ts[k].1 == spec_template_var_name((k + 1) as nat));
        assert(k + 1 <= usize::MAX) by {
            assert(self.template_map@.len() <= usize::MAX);
        }
        crate::compat::naming::lemma_template_counter_roundtrip((k + 1) as usize);
    }
}

proof fn lemma_first_ranked_after_bounds(s: Seq<Seq<char>>, r: nat, i: int)
    requires
        0 <= i <= s.len(),
    ensures
        i <= first_ranked_after(s, r, i) <= s.len(),
        forall|k: int| i <= k < first_ranked_after(s, r, i) ==> import_rank(#[trigger] s[k]) <= r,
        first_ranked_after(s, r, i) < s.len() ==> import_rank(s[first_ranked_after(s, r, i)]) > r,
    decreases s.len() - i,
{
    if i < s.len() && import_rank(s[i]) <= r {
        lemma_first_ranked_after_bounds(s, r, i + 1);
    }
}

/// The imports come sorted by rank, every needed function exactly once as
/// often as it was needed.
pub proof fn law_import_order(xs: Seq<Seq<char>>, i: int)
    requires
        0 <= i <= xs.len(),
    ensures
        forall|a: int, b: int|
            0 <= a < b < sort_by_rank(xs, i).len() ==> import_rank(sort_by_rank(xs, i)[a]) <= import_rank(
                sort_by_rank(xs, i)[b],
            ),
        sort_by_rank(xs, i).to_multiset() == xs.take(i).to_multiset(),
    decreases i,
{
    if i > 0 {
        law_import_order(xs, i - 1);
        let s = sort_by_rank(xs, i - 1);
        let x = xs[i - 1];
        let r = import_rank(x);
        let k = first_ranked_after(s, r, 0);
        lemma_first_ranked_after_bounds(s, r, 0);
        let t = s.insert(k, x);
        s.insert_ensures(k, x);
        assert forall|a: int, b: int| 0 <= a < b < t.len() implies import_rank(t[a]) <= import_rank(t[b]) by {
            if b < k {
            } else if a < k && b == k {
            } else if a < k && b > k {
                assert(t[b] == s[b - 1]);
            } else if a == k && b > k {
                assert(t[b] == s[b - 1]);
                assert(import_rank(s[k]) > r || k == s.len());
                if b - 1 > k {
                    assert(import_rank(s[k]) <= import_rank(s[b - 1]));
                }
            } else {
                assert(t[a] == s[a - 1]);
                assert(t[b] == s[b - 1]);
            }
        }
        vstd::seq_lib::lemma_multiset_commutative(s.take(k).push(x), s.skip(k));
        assert(t =~= s.take(k).push(x) + s.skip(k));
        assert(s =~= s.take(k) + s.skip(k));
        vstd::seq_lib::lemma_multiset_commutative(s.take(k), s.skip(k));
        assert(xs.take(i) =~= xs.take(i - 1).push(x));
        assert(t.to_multiset() =~= s.to_multiset().insert(x)) by {
            broadcast use vstd::seq_lib::group_to_multiset_ensures;
        }
        assert(xs.take(i).to_multiset() =~= xs.take(i - 1).to_multiset().insert(x)) by {
            broadcast use vstd::seq_lib::group_to_multiset_ensures;
        }
        assert(sort_by_rank(xs, i) == t);
    } else {
        assert(xs.take(i) =~= Seq::<Seq<char>>::empty());
        assert(sort_by_rank(xs, i) =~= Seq::<Seq<char>>::empty());
        broadcast use vstd::seq_lib::group_to_multiset_ensures;
    }
}


/// Every path of more than one step has its parent among the paths.
pub open spec fn prefix_closed(ps: Seq<PathV>) -> bool {
    forall|i: int| 0 <= i < ps.len() && (#[trigger] ps[i]).len() > 1 ==> ps.contains(ps[i].drop_last())
}

proof fn lemma_add_prefixes_contains(ps: Seq<PathV>, p: PathV, k: int)
    requires
        0 <= k <= p.len(),
    ensures
        forall|x: PathV| ps.contains(x) ==> add_prefixes(ps, p, k).contains(x),
        forall|j: int| 1 <= j <= k ==> add_prefixes(ps, p, k).contains(#[trigger] p.take(j)),
    decreases k,
{
    if k > 0 {
        lemma_add_prefixes_contains(ps, p, k - 1);
        let r = add_prefixes(ps, p, k - 1);
        let q = p.take(k);
        if !r.contains(q) {
            assert forall|x: PathV| r.contains(x) implies r.push(q).contains(x) by {
                let i = choose|i: int| 0 <= i < r.len() && r[i] == x;
                assert(r.push(q)[i] == x);
            }
            assert(r.push(q)[r.len() as int] == q);
        }
    }
}

proof fn lemma_add_prefixes_closed(ps: Seq<PathV>, p: PathV, k: int)
    requires
        prefix_closed(ps),
        0 <= k <= p.len(),
    ensures
        prefix_closed(add_prefixes(ps, p, k)),
    decreases k,
{
    if k > 0 {
        lemma_add_prefixes_closed(ps, p, k - 1);
        lemma_add_prefixes_contains(ps, p, k - 1);
        let r = add_prefixes(ps, p, k - 1);
        let q = p.take(k);
        if !r.contains(q) {
            let t = r.push(q);
            assert forall|i: int| 0 <= i < t.len() && (#[trigger] t[i]).len() > 1 implies t.contains(t[i].drop_last()) by {
                if i < r.len() {
                    assert(t[i] == r[i]);
                    let j = choose|j: int| 0 <= j < r.len() && r[j] == r[i].drop_last();
                    assert(t[j] == r[j]);
                } else {
                    assert(t[i] == q);
                    assert(q.drop_last() =~= p.take(k - 1));
                    assert(r.contains(p.take(k - 1)));
                    let j = choose|j: int| 0 <= j < r.len() && r[j] == p.take(k - 1);
                    assert(t[j] == r[j]);
                }
            }
        }
    }
}

proof fn lemma_slot_paths_closed(init: Seq<PathV>, slots: Seq<SlotV>, i: int)
    requires
        prefix_closed(init),
    ensures
        prefix_closed(slot_paths(init, slots, i)),
    decreases i,
{
    if i > 0 && i <= slots.len() {
        lemma_slot_paths_closed(init, slots, i - 1);
        let s = slots[i - 1];
        lemma_add_prefixes_closed(slot_paths(init, slots, i - 1), s.path, s.path.len() as int);
        match s.marker {
            Some(m) => {
                lemma_add_prefixes_closed(
                    add_prefixes(slot_paths(init, slots, i - 1), s.path, s.path.len() as int),
                    m,
                    m.len() as int,
                );
            },
            None => {},
        }
    }
}

/// Sorting by length keeps exactly the paths it was given and orders them
/// by length.
proof fn lemma_sort_by_len(ps: Seq<PathV>, i: int)
    requires
        0 <= i <= ps.len(),
    ensures
        forall|x: PathV| sort_by_len(ps, i).contains(x) <==> ps.take(i).contains(x),
        forall|a: int, b: int|
            0 <= a < b < sort_by_len(ps, i).len() ==> (#[trigger] sort_by_len(ps, i)[a]).len() <= (
            #[trigger] sort_by_len(ps, i)[b]).len(),
        sort_by_len(ps, i).len() == i,
    decreases i,
{
    if i > 0 {
        lemma_sort_by_len(ps, i - 1);
        let s = sort_by_len(ps, i - 1);
        let x = ps[i - 1];
        let k = first_longer(s, x.len(), 0);
        lemma_first_longer_bounds(s, x.len(), 0);
        lemma_first_longer_split(s, x.len(), 0);
        let t = s.insert(k, x);
        s.insert_ensures(k, x);
        assert(ps.take(i) =~= ps.take(i - 1).push(x));
        assert forall|y: PathV| t.contains(y) <==> ps.take(i).contains(y) by {
            if t.contains(y) {
                let j = choose|j: int| 0 <= j < t.len() && t[j] == y;
                if j < k {
                    assert(s[j] == y);
                    assert(s.contains(y));
                    assert(ps.take(i - 1).contains(y));
                    let m = choose|m: int| 0 <= m < ps.take(i - 1).len() && #[trigger] ps.take(i - 1)[m] == y;
                    assert(ps.take(i)[m] == y);
                } else if j == k {
                    assert(ps.take(i)[i - 1] == y);
                } else {
                    assert(t[j] == s[j - 1]);
                    assert(s.contains(y));
                    let m = choose|m: int| 0 <= m < ps.take(i - 1).len() && #[trigger] ps.take(i - 1)[m] == y;
                    assert(ps.take(i)[m] == y);
                }
            }
            if ps.take(i).contains(y) {
                let m = choose|m: int| 0 <= m < ps.take(i).len() && #[trigger] ps.take(i)[m] == y;
                if m == i - 1 {
                    assert(t[k] == y);
                } else {
                    assert(ps.take(i - 1)[m] == y);
                    assert(s.contains(y));
                    let j = choose|j: int| 0 <= j < s.len() && s[j] == y;
                    if j < k {
                        assert(t[j] == y);
                    } else {
                        assert(t[j + 1] == y);
                    }
                }
            }
        }
        assert forall|a: int, b: int| 0 <= a < b < t.len() implies (#[trigger] t[a]).len() <= (#[trigger] t[b]).len() by {
            if b < k {
            } else if a < k && b == k {
            } else if a < k && b > k {
                assert(t[b] == s[b - 1]);
            } else if a == k && b > k {
                assert(t[b] == s[b - 1]);
            } else {
                assert(t[a] == s[a - 1]);
                assert(t[b] == s[b - 1]);
            }
        }
    } else {
        assert(ps.take(0) =~= Seq::<PathV>::empty());
    }
}

proof fn lemma_first_longer_split(s: Seq<PathV>, n: nat, i: int)
    requires
        0 <= i <= s.len(),
        forall|a: int, b: int| 0 <= a < b < s.len() ==> (#[trigger] s[a]).len() <= (#[trigger] s[b]).len(),
    ensures
        forall|k: int| first_longer(s, n, i) <= k < s.len() ==> (#[trigger] s[k]).len() > n,
        forall|k: int| i <= k < first_longer(s, n, i) ==> (#[trigger] s[k]).len() <= n,
    decreases s.len() - i,
{
    if i < s.len() && s[i].len() <= n {
        lemma_first_longer_split(s, n, i + 1);
    } else if i < s.len() {
        assert forall|k: int| i <= k < s.len() implies (#[trigger] s[k]).len() > n by {
            if k > i {
                assert(s[i].len() <= s[k].len());
            }
        }
    }
}

proof fn lemma_find_path_contains(ps: Seq<PathV>, p: PathV)
    requires
        ps.contains(p),
    ensures
        find_path(ps, p) is Some,
    decreases ps.len(),
{
    let j = choose|j: int| 0 <= j < ps.len() && ps[j] == p;
    if j < ps.len() - 1 {
        assert(ps.drop_last()[j] == p);
        lemma_find_path_contains(ps.drop_last(), p);
    }
}

/// Element references are declared parents first: every reference of more
/// than one step has its parent's reference declared before it, so it
/// steps from that reference and never from the root.
pub proof fn law_parents_declared_first(slots: Seq<SlotV>, first_child: bool, k: int)
    requires
        0 <= k < decl_paths(slots, first_child).len(),
        decl_paths(slots, first_child)[k].len() > 1,
    ensures
        find_path(decl_paths(slots, first_child).take(k), decl_paths(slots, first_child)[k].drop_last()) is Some,
{
    let init: Seq<PathV> = if first_child { seq![seq![first_child_step()]] } else { Seq::empty() };
    let ps = slot_paths(init, slots, slots.len() as int);
    let paths = decl_paths(slots, first_child);
    lemma_slot_paths_closed(init, slots, slots.len() as int);
    lemma_sort_by_len(ps, ps.len() as int);
    assert(ps.take(ps.len() as int) =~= ps);
    let p = paths[k];
    assert(paths.contains(p));
    assert(ps.contains(p));
    let i = choose|i: int| 0 <= i < ps.len() && ps[i] == p;
    assert(ps.contains(ps[i].drop_last()));
    let parent = p.drop_last();
    assert(paths.contains(parent));
    let j = choose|j: int| 0 <= j < paths.len() && paths[j] == parent;
    if j >= k {
        if j > k {
            assert(paths[k].len() <= paths[j].len());
        }
    }
    assert(paths.take(k)[j] == parent);
    lemma_find_path_contains(paths.take(k), parent);
}

proof fn lemma_find_template_prefix(ts: Seq<(Seq<char>, Seq<char>)>, html: Seq<char>, i: int)
    requires
        0 <= i < ts.len(),
        find_template(ts.take(i), html) is None,
        ts[i].0 == html,
        templates_wf(ts),
    ensures
        find_template(ts, html) == Some(i),
    decreases ts.len(),
{
    if i < ts.len() - 1 {
        assert(ts.drop_last().take(i) =~= ts.take(i));
        assert(templates_wf(ts.drop_last()));
        lemma_find_template_prefix(ts.drop_last(), html, i);
    } else {
        assert(ts.drop_last() =~= ts.take(i));
    }
}

proof fn lemma_find_template_none(ts: Seq<(Seq<char>, Seq<char>)>, html: Seq<char>, i: int)
    requires
        find_template(ts, html) is None,
        0 <= i < ts.len(),
    ensures
        ts[i].0 != html,
    decreases ts.len(),
{
    if i < ts.len() - 1 {
        lemma_find_template_none(ts.drop_last(), html, i);
    }
}

/// Strictly increasing in the order of `str`.
pub open spec fn events_sorted(es: Seq<Seq<char>>) -> bool {
    forall|i: int, j: int| 0 <= i < j < es.len() ==> str_less(es[i], es[j])
}

/// The order of strings by their characters' code points.
pub open spec fn str_less(a: Seq<char>, b: Seq<char>) -> bool
    decreases a.len(),
{
    if b.len() == 0 {
        false
    } else if a.len() == 0 {
        true
    } else if a[0] != b[0] {
        a[0] < b[0]
    } else {
        str_less(a.drop_first(), b.drop_first())
    }
}

} // verus!
