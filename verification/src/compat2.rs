//! Babel-compatible transformer for DOM expressions (compat2)
//!
//! The same transformation as [`DomExpressions`], in the form of
//! babel-plugin-jsx-dom-expressions' output: the first root element of a
//! file is `_el$`, templates with text insertions always reference their
//! root's `firstChild`, text and string properties have their character
//! references decoded, and a component whose children mix text with
//! expressions receives them through a `children` getter.

use vstd::prelude::*;
use crate::compat::naming::spec_element_var_name;
use crate::js::{
    JsExpr, JsExprV, JsProp, JsPropV, JsStmt, JsStmtV, call, expr_view, exprs2, exprs_view, lemma_exprs_view,
    lemma_exprs_view_push, lemma_props_view_push, lemma_stmts_view_concat, lemma_stmts_view_push, props_view,
    stmt_view, stmts_view, strings_view, call_v,
};
use crate::jsx::{ExprKind, JsxAttrItem, JsxAttrName, JsxAttrValue, JsxChild, JsxElement, JsxElementName, JsxExpr, JsxNode};
use crate::optimizer::{EntryV, TemplateStats, reused, stats_fit, stats_of};
use crate::options::DomExpressionsOptions;
use crate::template::{SlotKind, SlotType, SlotV, Template, TemplateV, build_template_with_options, owned, template_of};
use crate::transform::{
    DomExpressions, TState, component_name, elem_exprs, extract_expressions_from_jsx, id_v, iife_v, memo_code,
    refs_decls_v, return_v, runtime_fold, significant_fragment_child, src_v, srcs_v, st_add_import,
    st_element_var, st_template_var, tag_name_of, template_call_v, text_child_v, program_code, ptv_view,
    prop_is_dynamic, prop_is_dynamic_exec,
};
use crate::utils::{decode_html_entities, is_component, spec_decode_html_entities, spec_is_component};

verus! {

broadcast use vstd::string::group_string_axioms;

/// The code-building state: the shared one, and whether a root has been named yet.
pub struct CState {
    pub t: TState,
    pub first_root: bool,
}

/// Does some slot insert text?
pub open spec fn has_text_slot(slots: Seq<SlotV>) -> bool {
    exists|k: int| 0 <= k < slots.len() && (#[trigger] slots[k]).kind is TextContent
}

/// The root variable: `_el$` for the first root, else the next element variable.
pub open spec fn compat_root(cs: CState) -> (CState, Seq<char>) {
    if !cs.first_root {
        (CState { first_root: true, ..cs }, "_el$"@)
    } else {
        let (t2, v) = st_element_var(cs.t);
        (CState { t: t2, ..cs }, v)
    }
}

/// The code for an element with dynamic parts: a function called at once
/// that declares the element references, applies the runtime calls and
/// returns the root.
pub open spec fn compat_iife(cs: CState, delegate: bool, exprs: Seq<JsExprV>, t: TemplateV, template_var: Seq<char>) -> (
    CState,
    JsExprV,
) {
    let (cs1, root) = compat_root(cs);
    let (c2, decl, ptv) = refs_decls_v(t.slots, cs1.t.element_counter, template_var, root, has_text_slot(t.slots));
    let st1 = TState { element_counter: c2, ..cs1.t };
    let f = runtime_fold(st1, t.slots, exprs, root, ptv, delegate, t.slots.len() as int);
    (CState { t: f.0, ..cs1 }, iife_v(seq![decl] + f.2 + seq![return_v(root)]))
}

/// The code of an element that is not a component.
pub open spec fn compat_element_code(cs: CState, o: DomExpressionsOptions, e: JsxElement) -> (CState, JsExprV) {
    let t = template_of(e, Some(&o));
    let (st1, var) = st_template_var(cs.t, t.html);
    let cs1 = CState { t: st1, ..cs };
    if t.slots.len() > 0 {
        compat_iife(cs1, o.delegate_events, elem_exprs(e), t, var)
    } else {
        (cs1, template_call_v(var))
    }
}

/// The value of a component property written as an attribute; strings
/// have their character references decoded.
pub open spec fn compat_prop_value(v: Option<JsxAttrValue>) -> JsExprV {
    match v {
        Some(JsxAttrValue::Str(s)) => JsExprV::Str(spec_decode_html_entities(s@)),
        Some(JsxAttrValue::Container(x)) => if x.kind is Empty {
            JsExprV::Bool(true)
        } else {
            src_v(x)
        },
        _ => JsExprV::Bool(true),
    }
}

pub open spec fn compat_attr_props(items: Seq<JsxAttrItem>, i: int) -> Seq<JsPropV>
    decreases i,
{
    if i <= 0 || i > items.len() {
        Seq::empty()
    } else {
        let rest = compat_attr_props(items, i - 1);
        match items[i - 1] {
            JsxAttrItem::Attribute { name: JsxAttrName::Ident(n), value } => rest.push(
                JsPropV { key: n@, value: compat_prop_value(value), getter: prop_is_dynamic(value) },
            ),
            _ => rest,
        }
    }
}

/// The number of significant children among the first `i`.
pub open spec fn significant_count(cs: Seq<JsxChild>, i: int) -> nat
    decreases i,
{
    if i <= 0 || i > cs.len() {
        0
    } else {
        significant_count(cs, i - 1) + if significant_fragment_child(cs[i - 1]) { 1nat } else { 0nat }
    }
}

/// Children mixing text with expressions, elements or fragments, more than
/// one of them significant, are passed through a getter.
pub open spec fn needs_getter(cs: Seq<JsxChild>) -> bool {
    &&& exists|k: int| 0 <= k < cs.len() && (#[trigger] cs[k]) is Text && significant_fragment_child(cs[k])
    &&& exists|k: int|
        0 <= k < cs.len() && ((#[trigger] cs[k]) is Container || cs[k] is Element || cs[k] is Fragment)
    &&& significant_count(cs, cs.len() as int) > 1
}

pub open spec fn compat_component_code(cs: CState, o: DomExpressionsOptions, e: JsxElement) -> (CState, JsExprV)
    decreases e, 1int,
{
    let cs1 = CState { t: st_add_import(cs.t, "createComponent"@), ..cs };
    let (cs2, props) = compat_props_code(cs1, o, e);
    (cs2, call_v("_$createComponent"@, seq![id_v(component_name(e.name)), JsExprV::Object(props)]))
}

pub open spec fn compat_props_code(cs: CState, o: DomExpressionsOptions, e: JsxElement) -> (CState, Seq<JsPropV>)
    decreases e, 0int,
{
    let attrs = compat_attr_props(e.attributes@, e.attributes@.len() as int);
    if e.children@.len() == 0 {
        (cs, attrs)
    } else {
        let (cs2, ch) = compat_children_code(cs, o, e.children@);
        (cs2, attrs.push(JsPropV { key: "children"@, value: ch, getter: needs_getter(e.children@) }))
    }
}

pub open spec fn compat_children_code(cs: CState, o: DomExpressionsOptions, children: Seq<JsxChild>) -> (CState, JsExprV)
    decreases children, children.len() + 1,
{
    let (cs2, xs) = compat_children_fold(cs, o, children, children.len() as int);
    if xs.len() == 1 {
        (cs2, xs[0])
    } else {
        (cs2, JsExprV::Array(xs))
    }
}

pub open spec fn compat_children_fold(cs: CState, o: DomExpressionsOptions, children: Seq<JsxChild>, i: int) -> (
    CState,
    Seq<JsExprV>,
)
    decreases children, i,
{
    if i <= 0 || i > children.len() {
        (cs, Seq::empty())
    } else {
        let (s1, xs) = compat_children_fold(cs, o, children, i - 1);
        if significant_fragment_child(children[i - 1]) {
            let (s2, x) = compat_child_code(s1, o, children[i - 1]);
            (s2, xs.push(x))
        } else {
            (s1, xs)
        }
    }
}

pub open spec fn compat_fragment_code(cs: CState, o: DomExpressionsOptions, children: Seq<JsxChild>) -> (CState, JsExprV)
    decreases children, children.len() + 1,
{
    let (cs2, xs) = compat_fragment_fold(cs, o, children, children.len() as int);
    if xs.len() == 1 {
        (cs2, xs[0])
    } else {
        (cs2, JsExprV::Array(xs))
    }
}

pub open spec fn compat_fragment_fold(cs: CState, o: DomExpressionsOptions, children: Seq<JsxChild>, i: int) -> (
    CState,
    Seq<JsExprV>,
)
    decreases children, i,
{
    if i <= 0 || i > children.len() {
        (cs, Seq::empty())
    } else {
        let (s1, xs) = compat_fragment_fold(cs, o, children, i - 1);
        if significant_fragment_child(children[i - 1]) {
            let (s2, x) = compat_child_code(s1, o, children[i - 1]);
            let (t3, w) = memo_code(s2.t, x);
            (CState { t: t3, ..s2 }, xs.push(w))
        } else {
            (s1, xs)
        }
    }
}

pub open spec fn compat_child_code(cs: CState, o: DomExpressionsOptions, c: JsxChild) -> (CState, JsExprV)
    decreases c, 0int,
{
    match c {
        JsxChild::Text(t) => (cs, JsExprV::Str(spec_decode_html_entities(text_child_v(t@)))),
        JsxChild::Container(x) => (cs, if x.kind is Empty { JsExprV::Null } else { src_v(x) }),
        JsxChild::Element(b) => if spec_is_component(tag_name_of(b.name)) {
            compat_component_code(cs, o, *b)
        } else {
            compat_element_code(cs, o, *b)
        },
        JsxChild::Fragment(v) => compat_fragment_code(cs, o, v@),
        JsxChild::Spread => (cs, JsExprV::Null),
    }
}

/// The code for a JSX expression; nothing for an element whose name is not an identifier.
pub open spec fn compat_node_code(cs: CState, o: DomExpressionsOptions, n: JsxNode) -> (CState, Option<JsExprV>) {
    match n {
        JsxNode::Fragment(children) => {
            let (cs2, x) = compat_fragment_code(cs, o, children@);
            (cs2, Some(x))
        },
        JsxNode::Element(e) => match e.name {
            JsxElementName::Ident(s) => {
                let (cs2, x) = if spec_is_component(s@) {
                    compat_component_code(cs, o, e)
                } else {
                    compat_element_code(cs, o, e)
                };
                (cs2, Some(x))
            },
            _ => (cs, None),
        },
    }
}

/// The babel-compatible DOM expressions transformer (compat2)
pub struct DomExpressionsCompat2<'a> {
    core: DomExpressions<'a>,
    /// Whether we've generated the first root element (for _el$ vs _el$N)
    first_root_generated: bool,
}

impl<'a> DomExpressionsCompat2<'a> {
    pub closed spec fn cstate(&self) -> CState {
        CState { t: self.core.tstate(), first_root: self.first_root_generated }
    }

    pub closed spec fn wf(&self) -> bool {
        self.core.wf()
    }

    pub closed spec fn opts(&self) -> DomExpressionsOptions {
        self.core.opts()
    }

    pub closed spec fn usage(&self) -> Seq<EntryV> {
        self.core.usage()
    }

    pub closed spec fn events(&self) -> Seq<Seq<char>> {
        self.core.events()
    }

    /// Everything but the code-building state is as in `old`.
    pub open spec fn keeps_rest(&self, old: &Self) -> bool {
        &&& self.opts() == old.opts()
        &&& self.events() == old.events()
        &&& self.usage() == old.usage()
        &&& self.core_rest() == old.core_rest()
    }

    pub closed spec fn core_rest(&self) -> (Seq<TemplateV>, &'a oxc_allocator::Allocator) {
        (self.core.seen(), self.core.allocator_ref())
    }

    /// Create a new babel-compatible DOM expressions transformer
    pub fn new(allocator: &'a oxc_allocator::Allocator, options: DomExpressionsOptions) -> (r: Self)
        ensures
            r.wf(),
            r.opts() == options,
            r.cstate() == (CState {
                t: TState { templates: Seq::empty(), element_counter: 0, imports: Seq::empty() },
                first_root: false,
            }),
            r.events() == Seq::<Seq<char>>::empty(),
            r.usage() == Seq::<EntryV>::empty(),
    {
        DomExpressionsCompat2 { core: DomExpressions::new(allocator, options), first_root_generated: false }
    }

    /// Get the current options
    pub fn options(&self) -> (r: &DomExpressionsOptions)
        ensures
            *r == self.opts(),
    {
        self.core.options()
    }

    /// Get template statistics for optimization analysis
    pub fn get_template_stats(&self) -> (r: TemplateStats)
        requires
            self.wf(),
            stats_fit(self.usage()),
        ensures
            stats_of(self.usage(), r),
    {
        self.core.get_template_stats()
    }

    /// Get list of templates that were reused (deduplicated)
    pub fn get_reused_templates(&self) -> (r: Vec<(String, usize)>)
        requires
            self.wf(),
        ensures
            r@.map_values(|p: (String, usize)| (p.0@, p.1 as nat)) == reused(self.usage()),
    {
        self.core.get_reused_templates()
    }

    /// Get or create a template variable for given HTML
    fn get_template_var(&mut self, html: &str) -> (r: String)
        requires
            old(self).wf(),
        ensures
            final(self).wf(),
            final(self).keeps_rest(old(self)),
            (final(self).cstate().t, r@) == st_template_var(old(self).cstate().t, html@),
            final(self).cstate().first_root == old(self).cstate().first_root,
    {
        self.core.get_template_var(html)
    }

    /// Add a required import (preserves insertion order)
    fn add_import(&mut self, name: &str)
        requires
            old(self).wf(),
        ensures
            final(self).wf(),
            final(self).keeps_rest(old(self)),
            final(self).cstate() == (CState { t: st_add_import(old(self).cstate().t, name@), ..old(self).cstate() }),
    {
        self.core.add_import(name)
    }

    /// Generate a unique element variable name
    fn generate_element_var(&mut self) -> (r: String)
        requires
            old(self).wf(),
        ensures
            final(self).wf(),
            final(self).keeps_rest(old(self)),
            (final(self).cstate().t, r@) == st_element_var(old(self).cstate().t),
            final(self).cstate().first_root == old(self).cstate().first_root,
    {
        self.core.generate_element_var()
    }

    /// Generate root element variable name
    /// First root in file is "_el$", subsequent are numbered
    fn generate_root_element_var(&mut self) -> (r: String)
        requires
            old(self).wf(),
        ensures
            final(self).wf(),
            final(self).keeps_rest(old(self)),
            (final(self).cstate(), r@) == compat_root(old(self).cstate()),
    {
        if !self.first_root_generated {
            self.first_root_generated = true;
            owned("_el$")
        } else {
            self.generate_element_var()
        }
    }

    /// Create an IIFE that clones template and applies dynamic bindings
    fn create_template_iife_from_expressions(&mut self, expressions: Vec<JsxExpr>, template: &Template, template_var: &str) -> (r: JsExpr)
        requires
            old(self).wf(),
        ensures
            final(self).wf(),
            final(self).keeps_rest(old(self)),
            (final(self).cstate(), expr_view(r)) == compat_iife(
                old(self).cstate(),
                old(self).opts().delegate_events,
                srcs_v(expressions@),
                template@,
                template_var@,
            ),
    {
        let root_var = self.generate_root_element_var();
        let mut has_text_content = false;
        let n = template.dynamic_slots.len();
        for k in 0..n
            invariant
                n == template.dynamic_slots.len(),
                has_text_content == (exists|j: int| 0 <= j < k && (#[trigger] template@.slots[j]).kind is TextContent),
        {
            assert(template@.slots[k as int] == template.dynamic_slots@[k as int]@);
            match &template.dynamic_slots[k].slot_type {
                SlotType::TextContent => {
                    has_text_content = true;
                },
                _ => {},
            }
        }
        let (decl, ptv) = self.core.declare_element_refs(template, template_var, &root_var, has_text_content);
        let runtime = self.core.create_runtime_calls_from_expressions(&expressions, template, root_var.as_str(), &ptv);
        let mut body: Vec<JsStmt> = Vec::new();
        proof {
            lemma_stmts_view_push(body@, decl);
        }
        body.push(decl);
        assert(stmts_view(Seq::<JsStmt>::empty()) =~= Seq::<JsStmtV>::empty());
        let ghost before_b = body@;
        let ghost rt = runtime@;
        let mut runtime = runtime;
        body.append(&mut runtime);
        proof {
            lemma_stmts_view_concat(before_b, rt);
        }
        let ret = self.core.create_return_statement(root_var.as_str());
        proof {
            lemma_stmts_view_push(body@, ret);
        }
        body.push(ret);
        let params: Vec<String> = Vec::new();
        assert(strings_view(params@) =~= Seq::<Seq<char>>::empty());
        let args: Vec<JsExpr> = Vec::new();
        assert(exprs_view(args@) =~= Seq::<JsExprV>::empty());
        let ghost bv = stmts_view(before_b) + stmts_view(rt) + seq![return_v(root_var@)];
        assert(stmts_view(body@) =~= bv);
        let arrow = JsExpr::Arrow { params, body, expression: false };
        assert(expr_view(arrow) == JsExprV::Arrow { params: Seq::empty(), body: bv, expression: false });
        let r = JsExpr::Call { callee: Box::new(arrow), args, pure: false };
        assert(expr_view(r) == iife_v(bv));
        r
    }

    /// The code of an element that is not a component
    fn element_expression(&mut self, e: &JsxElement) -> (r: JsExpr)
        requires
            old(self).wf(),
        ensures
            final(self).wf(),
            final(self).keeps_rest(old(self)),
            (final(self).cstate(), expr_view(r)) == compat_element_code(old(self).cstate(), old(self).opts(), *e),
    {
        let template = build_template_with_options(e, Some(self.core.options()));
        let var = self.get_template_var(template.html.as_str());
        if template.dynamic_slots.len() > 0 {
            let mut exprs: Vec<JsxExpr> = Vec::new();
            assert(srcs_v(exprs@) =~= Seq::<JsExprV>::empty());
            extract_expressions_from_jsx(e, &mut exprs);
            assert(srcs_v(exprs@) =~= elem_exprs(*e));
            self.create_template_iife_from_expressions(exprs, &template, var.as_str())
        } else {
            self.core.create_template_call(var.as_str())
        }
    }

    /// Transform a component into `_$createComponent(Name, props)`
    fn transform_component(&mut self, e: &JsxElement) -> (r: JsExpr)
        requires
            old(self).wf(),
        ensures
            final(self).wf(),
            final(self).keeps_rest(old(self)),
            (final(self).cstate(), expr_view(r)) == compat_component_code(old(self).cstate(), old(self).opts(), *e),
        decreases e, 1int,
    {
        self.add_import("createComponent");
        let name = match &e.name {
            JsxElementName::Ident(s) => s.clone(),
            _ => owned("Unknown"),
        };
        let props = self.create_component_props(e);
        call("_$createComponent", exprs2(JsExpr::Ident(name), JsExpr::Object(props)))
    }

    /// The properties of a component: attributes, then children, through a
    /// getter when they mix text with expressions
    fn create_component_props(&mut self, e: &JsxElement) -> (r: Vec<JsProp>)
        requires
            old(self).wf(),
        ensures
            final(self).wf(),
            final(self).keeps_rest(old(self)),
            (final(self).cstate(), props_view(r@)) == compat_props_code(old(self).cstate(), old(self).opts(), *e),
        decreases e, 0int,
    {
        let items = &e.attributes;
        let mut props: Vec<JsProp> = Vec::new();
        assert(props_view(props@) =~= Seq::<JsPropV>::empty());
        let n = items.len();
        for i in 0..n
            invariant
                n == items.len(),
                items == &e.attributes,
                props_view(props@) == compat_attr_props(items@, i as int),
        {
            match &items[i] {
                JsxAttrItem::Attribute { name: JsxAttrName::Ident(nm), value } => {
                    let v = match value {
                        Some(JsxAttrValue::Str(s)) => JsExpr::Str(decode_html_entities(s.as_str())),
                        Some(JsxAttrValue::Container(x)) => match &x.kind {
                            ExprKind::Empty => JsExpr::Bool(true),
                            _ => JsExpr::Source(crate::jsx::clone_jsx_expr(x)),
                        },
                        _ => JsExpr::Bool(true),
                    };
                    let p = JsProp { key: nm.clone(), value: v, getter: prop_is_dynamic_exec(value) };
                    proof {
                        lemma_props_view_push(props@, p);
                    }
                    props.push(p);
                },
                _ => {},
            }
        }
        let cs = &e.children;
        if cs.len() > 0 {
            let m = cs.len();
            let mut has_text = false;
            let mut has_expression = false;
            let mut count: usize = 0;
            for k in 0..m
                invariant
                    m == cs.len(),
                    cs == &e.children,
                    count <= k,
                    count == significant_count(cs@, k as int),
                    has_text == (exists|j: int| 0 <= j < k && (#[trigger] cs@[j]) is Text && significant_fragment_child(cs@[j])),
                    has_expression == (exists|j: int|
                        0 <= j < k && ((#[trigger] cs@[j]) is Container || cs@[j] is Element || cs@[j] is Fragment)),
            {
                let c = &cs[k];
                let significant = significant_child_exec(c);
                if significant {
                    count = count + 1;
                }
                match c {
                    JsxChild::Text(_) => {
                        if significant {
                            has_text = true;
                        }
                    },
                    JsxChild::Container(_) | JsxChild::Element(_) | JsxChild::Fragment(_) => {
                        has_expression = true;
                    },
                    _ => {},
                }
            }
            let needs = has_text && has_expression && count > 1;
            let ch = self.create_component_children(cs);
            let p = JsProp { key: owned("children"), value: ch, getter: needs };
            proof {
                lemma_props_view_push(props@, p);
            }
            props.push(p);
        }
        props
    }

    /// The children of a component: the one significant child, or an array
    fn create_component_children(&mut self, children: &Vec<JsxChild>) -> (r: JsExpr)
        requires
            old(self).wf(),
        ensures
            final(self).wf(),
            final(self).keeps_rest(old(self)),
            (final(self).cstate(), expr_view(r)) == compat_children_code(old(self).cstate(), old(self).opts(), children@),
        decreases children@, children@.len() + 1,
    {
        let ghost o = self.opts();
        let mut xs: Vec<JsExpr> = Vec::new();
        assert(exprs_view(xs@) =~= Seq::<JsExprV>::empty());
        let n = children.len();
        for i in 0..n
            invariant
                n == children.len(),
                o == old(self).opts(),
                self.wf(),
                self.keeps_rest(old(self)),
                (self.cstate(), exprs_view(xs@)) == compat_children_fold(old(self).cstate(), o, children@, i as int),
        {
            let c = &children[i];
            if significant_child_exec(c) {
                let x = self.jsx_child_to_expression(c);
                proof {
                    lemma_exprs_view_push(xs@, x);
                }
                xs.push(x);
            }
        }
        proof {
            lemma_exprs_view(xs@);
        }
        if xs.len() == 1 {
            let x = xs.pop().unwrap();
            x
        } else {
            JsExpr::Array(xs)
        }
    }

    /// The value of a JSX child as an expression
    fn jsx_child_to_expression(&mut self, c: &JsxChild) -> (r: JsExpr)
        requires
            old(self).wf(),
        ensures
            final(self).wf(),
            final(self).keeps_rest(old(self)),
            (final(self).cstate(), expr_view(r)) == compat_child_code(old(self).cstate(), old(self).opts(), *c),
        decreases c, 0int,
    {
        match c {
            JsxChild::Text(t) => {
                let out = text_child_exec(t.as_str());
                JsExpr::Str(decode_html_entities(out.as_str()))
            },
            JsxChild::Container(x) => match &x.kind {
                ExprKind::Empty => JsExpr::Null,
                _ => JsExpr::Source(crate::jsx::clone_jsx_expr(x)),
            },
            JsxChild::Element(b) => {
                let tag: &str = match &b.name {
                    JsxElementName::Ident(s) => s.as_str(),
                    _ => "",
                };
                proof {
                    reveal_strlit("");
                }
                if is_component(tag) {
                    self.transform_component(b)
                } else {
                    self.element_expression(b)
                }
            },
            JsxChild::Fragment(v) => self.transform_fragment(v),
            JsxChild::Spread => JsExpr::Null,
        }
    }

    /// Transform a fragment into its one child or an array of its children
    fn transform_fragment(&mut self, children: &Vec<JsxChild>) -> (r: JsExpr)
        requires
            old(self).wf(),
        ensures
            final(self).wf(),
            final(self).keeps_rest(old(self)),
            (final(self).cstate(), expr_view(r)) == compat_fragment_code(old(self).cstate(), old(self).opts(), children@),
        decreases children@, children@.len() + 1,
    {
        let ghost o = self.opts();
        let mut xs: Vec<JsExpr> = Vec::new();
        assert(exprs_view(xs@) =~= Seq::<JsExprV>::empty());
        let n = children.len();
        for i in 0..n
            invariant
                n == children.len(),
                o == old(self).opts(),
                self.wf(),
                self.keeps_rest(old(self)),
                (self.cstate(), exprs_view(xs@)) == compat_fragment_fold(old(self).cstate(), o, children@, i as int),
        {
            let c = &children[i];
            if significant_child_exec(c) {
                let x = self.jsx_child_to_expression(c);
                let w = self.core.maybe_wrap_with_memo(x);
                proof {
                    lemma_exprs_view_push(xs@, w);
                }
                xs.push(w);
            }
        }
        proof {
            lemma_exprs_view(xs@);
        }
        if xs.len() == 1 {
            let x = xs.pop().unwrap();
            x
        } else {
            JsExpr::Array(xs)
        }
    }

    /// Start a program: forget earlier templates, counters, imports and
    /// events; the next root is the file's first again
    pub fn enter_program(&mut self)
        requires
            old(self).wf(),
        ensures
            final(self).wf(),
            final(self).cstate() == (CState {
                t: TState { templates: Seq::empty(), element_counter: 0, imports: seq!["template"@] },
                first_root: false,
            }),
            final(self).events() == Seq::<Seq<char>>::empty(),
            final(self).usage() == old(self).usage(),
            final(self).opts() == old(self).opts(),
    {
        self.core.enter_program();
        self.first_root_generated = false;
    }

    /// Leave a program: the statements to put before it and the one to put after it
    pub fn exit_program(&mut self) -> (r: (Vec<JsStmt>, Option<JsStmt>))
        requires
            old(self).wf(),
        ensures
            final(self).wf(),
            ({
                let (st, pre, post) = program_code(old(self).cstate().t, old(self).events(), old(self).opts());
                &&& final(self).cstate() == (CState { t: st, ..old(self).cstate() })
                &&& stmts_view(r.0@) == pre
                &&& match r.1 {
                    Some(s) => post == Some(stmt_view(s)),
                    None => post is None,
                }
            }),
            final(self).events() == old(self).events(),
            final(self).usage() == old(self).usage(),
            final(self).opts() == old(self).opts(),
    {
        self.core.exit_program()
    }

    /// Replace a JSX expression, once its inner expressions are done
    pub fn exit_expression(&mut self, node: &JsxNode) -> (r: Option<JsExpr>)
        requires
            old(self).wf(),
        ensures
            final(self).wf(),
            final(self).keeps_rest(old(self)),
            ({
                let (cs, x) = compat_node_code(old(self).cstate(), old(self).opts(), *node);
                &&& final(self).cstate() == cs
                &&& match r {
                    Some(e) => x == Some(expr_view(e)),
                    None => x is None,
                }
            }),
    {
        match node {
            JsxNode::Fragment(cs) => Some(self.transform_fragment(cs)),
            JsxNode::Element(e) => match &e.name {
                JsxElementName::Ident(s) => {
                    if is_component(s.as_str()) {
                        Some(self.transform_component(e))
                    } else {
                        Some(self.element_expression(e))
                    }
                },
                _ => None,
            },
        }
    }
}

fn significant_child_exec(c: &JsxChild) -> (r: bool)
    ensures
        r == significant_fragment_child(*c),
{
    match c {
        JsxChild::Text(t) => {
            let v = crate::text::chars_of(t.as_str());
            !crate::transform::all_whitespace_exec(t.as_str()) || (!crate::text::chars_contain(&v, '\n') && v.len() > 0)
        },
        _ => true,
    }
}

fn text_child_exec(t: &str) -> (r: String)
    ensures
        r@ == text_child_v(t@),
{
    crate::transform::text_child(t)
}

proof fn lemma_children_fold_len(cs: CState, o: DomExpressionsOptions, children: Seq<JsxChild>, i: int)
    requires
        0 <= i <= children.len(),
    ensures
        compat_children_fold(cs, o, children, i).1.len() == significant_count(children, i),
    decreases i,
{
    if i > 0 {
        lemma_children_fold_len(cs, o, children, i - 1);
    }
}

/// With one significant child, at `k`, the insignificant ones before it
/// leave the state alone and the fold holds that child's expression alone.
proof fn lemma_children_fold_single(
    cs: CState,
    o: DomExpressionsOptions,
    children: Seq<JsxChild>,
    k: int,
    i: int,
)
    requires
        0 <= k < children.len(),
        0 <= i <= children.len(),
        forall|j: int| 0 <= j < children.len() && j != k ==> !significant_fragment_child(#[trigger] children[j]),
        significant_fragment_child(children[k]),
    ensures
        i <= k ==> compat_children_fold(cs, o, children, i) == (cs, Seq::<JsExprV>::empty()),
        i > k ==> compat_children_fold(cs, o, children, i) == (
            compat_child_code(cs, o, children[k]).0,
            seq![compat_child_code(cs, o, children[k]).1],
        ),
    decreases i,
{
    if i > 0 {
        lemma_children_fold_single(cs, o, children, k, i - 1);
        if i - 1 == k {
            assert(Seq::<JsExprV>::empty().push(compat_child_code(cs, o, children[k]).1) =~= seq![
                compat_child_code(cs, o, children[k]).1,
            ]);
        } else {
            assert(!significant_fragment_child(children[i - 1]));
        }
    }
}

/// A component with exactly one significant child receives that child's
/// own expression as its `children` value, in the state that child's code
/// leaves, and not an array holding it.
pub proof fn law_single_child_passed_directly(
    cs: CState,
    o: DomExpressionsOptions,
    children: Seq<JsxChild>,
    k: int,
)
    requires
        0 <= k < children.len(),
        significant_fragment_child(children[k]),
        forall|j: int| 0 <= j < children.len() && j != k ==> !significant_fragment_child(#[trigger] children[j]),
    ensures
        compat_children_code(cs, o, children) == compat_child_code(cs, o, children[k]),
{
    lemma_children_fold_single(cs, o, children, k, children.len() as int);
}

/// Children count as one value only when exactly one is significant: with
/// none, or with two or more, the `children` value is an array with one
/// entry for each significant child.
pub proof fn law_children_array(cs: CState, o: DomExpressionsOptions, children: Seq<JsxChild>)
    requires
        significant_count(children, children.len() as int) != 1,
    ensures
        compat_children_code(cs, o, children).1 is Array,
        compat_children_code(cs, o, children).1->Array_0.len() == significant_count(children, children.len() as int),
{
    lemma_children_fold_len(cs, o, children, children.len() as int);
}

} // verus!
