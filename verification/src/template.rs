//! Template string generation from JSX elements.
//!
//! A template is the static HTML of an element tree together with the
//! dynamic slots: the positions (as `firstChild` / `nextSibling` paths)
//! where attributes, event handlers, bindings and inserted content must be
//! attached at run time.

use vstd::prelude::*;
use crate::options::DomExpressionsOptions;
use crate::template_minimalizer::{minimalize_template, spec_minimalize};
use crate::jsx::{CalleeKind, ExprKind, JsxExpr, JsxElementName, JsxAttrName, JsxAttrValue, JsxAttrItem, JsxElement, JsxChild, kind_view};
use crate::text::{
    chars_of, extend_chars, extend_str, string_of, str_eq, chars_contain, char_is_whitespace,
    has_char, has_prefix, is_whitespace_char,
};
use crate::utils::{
    spec_is_on_prefix_event, spec_is_on_capture_event, spec_is_bool_attribute,
    spec_is_prop_attribute, spec_is_attr_attribute, spec_is_use_directive, spec_is_style_property,
    spec_is_class_name_binding, spec_is_event_handler, spec_prefix_event_name, spec_prefixed_name,
    spec_is_void_element, opt_str_view, is_ref_binding, is_class_list_binding, is_style_binding,
    is_on_prefix_event, is_on_capture_event, is_bool_attribute, is_prop_attribute,
    is_attr_attribute, is_use_directive, is_style_property, is_class_name_binding,
    is_event_handler, get_event_name, get_prefix_event_name, get_prefixed_name, is_void_element,
};

verus! {

broadcast use vstd::string::group_string_axioms;

/// Type of dynamic slot
#[derive(Debug, PartialEq)]
pub enum SlotType {
    /// Text content insertion
    TextContent,
    /// Attribute or property
    Attribute(String),
    /// Event handler
    EventHandler(String),
    /// Ref binding
    Ref,
    /// ClassList binding
    ClassList,
    /// Style binding (object)
    StyleObject,
    /// Non-delegated event (on: prefix)
    OnEvent(String),
    /// Capture event (oncapture: prefix)
    OnCaptureEvent(String),
    /// Boolean attribute (bool: prefix)
    BoolAttribute(String),
    /// Property attribute (prop: prefix)
    PropAttribute(String),
    /// Attribute attribute (attr: prefix)
    AttrAttribute(String),
    /// Use directive (use: prefix)
    UseDirective(String),
    /// Style property (style: prefix)
    StyleProperty(String),
    /// Class name binding (class: prefix)
    ClassName(String),
}

/// Represents a position where dynamic content needs to be inserted
#[derive(Debug, PartialEq)]
pub struct DynamicSlot {
    /// Path from the template's root to the element (e.g.,
    /// ["firstChild", "nextSibling"]); for text, the element it goes into
    pub path: Vec<String>,
    /// Type of dynamic content (text, attribute, etc.)
    pub slot_type: SlotType,
    /// Path from the root to the marker node (for text content insertion positioning);
    /// None if this is a trailing expression (insert at end with null)
    pub marker_path: Option<Vec<String>>,
}

/// Represents a template with its HTML string and dynamic expression positions
#[derive(Debug, PartialEq)]
pub struct Template {
    /// The HTML template string
    pub html: String,
    /// Positions where dynamic content should be inserted
    pub dynamic_slots: Vec<DynamicSlot>,
}

/// The mathematical value of a slot type.
pub enum SlotKind {
    TextContent,
    Attribute(Seq<char>),
    EventHandler(Seq<char>),
    Ref,
    ClassList,
    StyleObject,
    OnEvent(Seq<char>),
    OnCaptureEvent(Seq<char>),
    BoolAttribute(Seq<char>),
    PropAttribute(Seq<char>),
    AttrAttribute(Seq<char>),
    UseDirective(Seq<char>),
    StyleProperty(Seq<char>),
    ClassName(Seq<char>),
}

/// The mathematical value of a dynamic slot.
pub struct SlotV {
    pub path: Seq<Seq<char>>,
    pub kind: SlotKind,
    pub marker: Option<Seq<Seq<char>>>,
}

/// The mathematical value of a template.
pub struct TemplateV {
    pub html: Seq<char>,
    pub slots: Seq<SlotV>,
}

/// A path of property names, as character sequences.
pub open spec fn path_view(p: Seq<String>) -> Seq<Seq<char>> {
    p.map_values(|s: String| s@)
}

pub open spec fn opt_path_view(p: Option<Vec<String>>) -> Option<Seq<Seq<char>>> {
    match p {
        Some(v) => Some(path_view(v@)),
        None => None,
    }
}

impl View for SlotType {
    type V = SlotKind;

    open spec fn view(&self) -> SlotKind {
        match self {
            SlotType::TextContent => SlotKind::TextContent,
            SlotType::Attribute(s) => SlotKind::Attribute(s@),
            SlotType::EventHandler(s) => SlotKind::EventHandler(s@),
            SlotType::Ref => SlotKind::Ref,
            SlotType::ClassList => SlotKind::ClassList,
            SlotType::StyleObject => SlotKind::StyleObject,
            SlotType::OnEvent(s) => SlotKind::OnEvent(s@),
            SlotType::OnCaptureEvent(s) => SlotKind::OnCaptureEvent(s@),
            SlotType::BoolAttribute(s) => SlotKind::BoolAttribute(s@),
            SlotType::PropAttribute(s) => SlotKind::PropAttribute(s@),
            SlotType::AttrAttribute(s) => SlotKind::AttrAttribute(s@),
            SlotType::UseDirective(s) => SlotKind::UseDirective(s@),
            SlotType::StyleProperty(s) => SlotKind::StyleProperty(s@),
            SlotType::ClassName(s) => SlotKind::ClassName(s@),
        }
    }
}

impl View for DynamicSlot {
    type V = SlotV;

    open spec fn view(&self) -> SlotV {
        SlotV { path: path_view(self.path@), kind: self.slot_type@, marker: opt_path_view(self.marker_path) }
    }
}

/// The values of a sequence of slots.
pub open spec fn slots_view(s: Seq<DynamicSlot>) -> Seq<SlotV> {
    s.map_values(|d: DynamicSlot| d@)
}

impl View for Template {
    type V = TemplateV;

    open spec fn view(&self) -> TemplateV {
        TemplateV { html: self.html@, slots: slots_view(self.dynamic_slots@) }
    }
}

// ---------------------------------------------------------------------------
// Specification of template building
// ---------------------------------------------------------------------------

pub open spec fn first_child() -> Seq<char> {
    "firstChild"@
}

pub open spec fn next_sibling() -> Seq<char> {
    "nextSibling"@
}

/// `firstChild` followed by `n` times `nextSibling`: the position of the
/// child before which `n` nodes have been created.
pub open spec fn child_path(n: nat) -> Seq<Seq<char>> {
    seq![first_child()] + Seq::new(n, |i: int| next_sibling())
}

/// The HTML tag of an element name; names the template cannot express become `div`.
pub open spec fn element_tag(n: JsxElementName) -> Seq<char> {
    match n {
        JsxElementName::Ident(s) => s@,
        JsxElementName::Namespaced(a, b) => a@ + ":"@ + b@,
        JsxElementName::Other => "div"@,
    }
}

/// The HTML name of an attribute (`className` is `class`, `htmlFor` is `for`).
pub open spec fn attr_html_name(n: JsxAttrName) -> Seq<char> {
    match n {
        JsxAttrName::Ident(s) => if s@ == "className"@ {
            "class"@
        } else if s@ == "htmlFor"@ {
            "for"@
        } else {
            s@
        },
        JsxAttrName::Namespaced(a, b) => a@ + ":"@ + b@,
    }
}

pub open spec fn bool_text(b: bool) -> Seq<char> {
    if b { "true"@ } else { "false"@ }
}

/// The value of an attribute when it is known at compile time.
pub open spec fn static_attr_value(v: JsxAttrValue) -> Option<Seq<char>> {
    match v {
        JsxAttrValue::Str(s) => Some(s@),
        JsxAttrValue::Container(x) => match x.kind {
            ExprKind::StringLit(s) => Some(s@),
            ExprKind::NumericLit(s) => Some(s@),
            ExprKind::BooleanLit(b) => Some(bool_text(b)),
            _ => None,
        },
        JsxAttrValue::Other => None,
    }
}

pub open spec fn slot(path: Seq<Seq<char>>, kind: SlotKind) -> SlotV {
    SlotV { path, kind, marker: None }
}

/// The slot for a prefixed name, when the prefix could be stripped.
pub open spec fn named_slot(path: Seq<Seq<char>>, name: Option<Seq<char>>, kind: spec_fn(Seq<char>) -> SlotKind) -> (Seq<char>, Seq<SlotV>) {
    match name {
        Some(x) => (Seq::empty(), seq![slot(path, kind(x))]),
        None => (Seq::empty(), Seq::empty()),
    }
}

/// What one attribute adds to the HTML and to the slots.
pub open spec fn attr_out(item: JsxAttrItem, path: Seq<Seq<char>>) -> (Seq<char>, Seq<SlotV>) {
    match item {
        JsxAttrItem::Spread => (Seq::empty(), Seq::empty()),
        JsxAttrItem::Attribute { name, value } => {
            let n = attr_html_name(name);
            if n == "ref"@ {
                (Seq::empty(), seq![slot(path, SlotKind::Ref)])
            } else if n == "classList"@ {
                (Seq::empty(), seq![slot(path, SlotKind::ClassList)])
            } else if n == "style"@ && value is Some {
                match value.unwrap() {
                    JsxAttrValue::Str(s) => (" style=\""@ + s@ + "\""@, Seq::empty()),
                    _ => (Seq::empty(), seq![slot(path, SlotKind::StyleObject)]),
                }
            } else if spec_is_on_prefix_event(n) {
                named_slot(path, spec_prefix_event_name(n), |x: Seq<char>| SlotKind::OnEvent(x))
            } else if spec_is_on_capture_event(n) {
                named_slot(path, spec_prefix_event_name(n), |x: Seq<char>| SlotKind::OnCaptureEvent(x))
            } else if spec_is_bool_attribute(n) {
                named_slot(path, spec_prefixed_name(n), |x: Seq<char>| SlotKind::BoolAttribute(x))
            } else if spec_is_prop_attribute(n) {
                named_slot(path, spec_prefixed_name(n), |x: Seq<char>| SlotKind::PropAttribute(x))
            } else if spec_is_attr_attribute(n) {
                named_slot(path, spec_prefixed_name(n), |x: Seq<char>| SlotKind::AttrAttribute(x))
            } else if spec_is_use_directive(n) {
                named_slot(path, spec_prefixed_name(n), |x: Seq<char>| SlotKind::UseDirective(x))
            } else if spec_is_style_property(n) {
                named_slot(path, spec_prefixed_name(n), |x: Seq<char>| SlotKind::StyleProperty(x))
            } else if spec_is_class_name_binding(n) {
                named_slot(path, spec_prefixed_name(n), |x: Seq<char>| SlotKind::ClassName(x))
            } else if spec_is_event_handler(n) {
                (Seq::empty(), seq![slot(path, SlotKind::EventHandler(n.skip(2)))])
            } else {
                match value {
                    Some(v) => match static_attr_value(v) {
                        Some(sv) => (" "@ + n + "=\""@ + sv + "\""@, Seq::empty()),
                        None => (Seq::empty(), seq![slot(path, SlotKind::Attribute(n))]),
                    },
                    None => (" "@ + n, Seq::empty()),
                }
            }
        },
    }
}

/// What a list of attributes adds to the HTML and to the slots.
pub open spec fn attrs_out(items: Seq<JsxAttrItem>, path: Seq<Seq<char>>) -> (Seq<char>, Seq<SlotV>)
    decreases items.len(),
{
    if items.len() == 0 {
        (Seq::empty(), Seq::empty())
    } else {
        let (h, s) = attrs_out(items.drop_last(), path);
        let (h2, s2) = attr_out(items.last(), path);
        (h + h2, s + s2)
    }
}

/// Text as it appears in a template literal: backslashes doubled and `{` escaped.
pub open spec fn escape_text(t: Seq<char>) -> Seq<char>
    decreases t.len(),
{
    if t.len() == 0 {
        Seq::empty()
    } else {
        let c = t.last();
        escape_text(t.drop_last()) + (if c == '\\' {
            seq!['\\', '\\']
        } else if c == '{' {
            seq!['\\', '{']
        } else {
            seq![c]
        })
    }
}

/// Every character is white space (`str::trim` would leave nothing).
pub open spec fn all_whitespace(t: Seq<char>) -> bool {
    forall|i: int| 0 <= i < t.len() ==> #[trigger] is_whitespace_char(t[i])
}

/// Indentation between lines of JSX: only white space, with a line break.
pub open spec fn is_formatting_whitespace(t: Seq<char>) -> bool {
    all_whitespace(t) && has_char(t, '\n')
}

/// An expression whose value the template holds statically.
pub open spec fn is_static_child_expr(k: ExprKind) -> bool {
    k is StringLit || k is NumericLit || k is Empty
}

/// Does this child become a node of the template?
pub open spec fn creates_node(c: JsxChild) -> bool {
    match c {
        JsxChild::Text(t) => !is_formatting_whitespace(t@),
        JsxChild::Element(_) => true,
        JsxChild::Container(x) => !is_static_child_expr(x.kind),
        _ => false,
    }
}

/// The state after processing a prefix of an element's children.
pub struct ChildrenState {
    pub html: Seq<char>,
    pub slots: Seq<SlotV>,
    pub nodes: nat,
    pub marker: Option<Seq<Seq<char>>>,
}

/// A text slot of the element at `base`, inserting before `marker`.
pub open spec fn text_slot(base: Seq<Seq<char>>, marker: Option<Seq<Seq<char>>>) -> SlotV {
    SlotV { path: base, kind: SlotKind::TextContent, marker }
}

/// Processing the first `i` children of the element at path `base` (from
/// the template's root); the children's paths, and the slots' paths and
/// markers, lead from the root too.
///
/// Text is copied (escaped) unless it is formatting whitespace; nested
/// elements are built at their position; string and numeric literals are
/// inlined; other expressions become text slots, whose insertion marker is
/// the previous expression's marker when they follow one that has a
/// marker, the first child when they come first and are not last, the end
/// of the element when they are last, and a new `<!>` marker otherwise.
pub open spec fn children_fold(cs: Seq<JsxChild>, base: Seq<Seq<char>>, i: int) -> ChildrenState
    decreases cs, i,
{
    if i <= 0 || i > cs.len() {
        ChildrenState { html: Seq::empty(), slots: Seq::empty(), nodes: 0, marker: None }
    } else {
        let k = i - 1;
        let st = children_fold(cs, base, k);
        let path = base + child_path(st.nodes);
        let is_last = k == cs.len() - 1;
        let prev_expr = k > 0 && cs[k - 1] is Container;
        let c = cs[k];
        let nodes = st.nodes + if creates_node(c) { 1nat } else { 0nat };
        match c {
            JsxChild::Text(t) => ChildrenState {
                html: st.html + (if is_formatting_whitespace(t@) { Seq::empty() } else { escape_text(t@) }),
                slots: st.slots,
                nodes,
                marker: None,
            },
            JsxChild::Element(b) => {
                let (h, s) = element_out(*b, path);
                ChildrenState { html: st.html + h, slots: st.slots + s, nodes, marker: None }
            },
            JsxChild::Container(x) => match x.kind {
                ExprKind::StringLit(s) => ChildrenState {
                    html: st.html + escape_text(s@),
                    slots: st.slots,
                    nodes,
                    marker: st.marker,
                },
                ExprKind::NumericLit(s) => ChildrenState {
                    html: st.html + s@,
                    slots: st.slots,
                    nodes,
                    marker: st.marker,
                },
                ExprKind::Empty => ChildrenState { html: st.html, slots: st.slots, nodes, marker: st.marker },
                _ => if prev_expr && st.marker is Some {
                    ChildrenState {
                        html: st.html,
                        slots: st.slots.push(text_slot(base, st.marker)),
                        nodes,
                        marker: st.marker,
                    }
                } else if st.nodes == 0 && !is_last {
                    ChildrenState {
                        html: st.html,
                        slots: st.slots.push(text_slot(base, Some(base.push(first_child())))),
                        nodes,
                        marker: st.marker,
                    }
                } else if is_last {
                    ChildrenState {
                        html: st.html,
                        slots: st.slots.push(text_slot(base, None)),
                        nodes,
                        marker: st.marker,
                    }
                } else {
                    ChildrenState {
                        html: st.html + "<!>"@,
                        slots: st.slots.push(text_slot(base, Some(path))),
                        nodes,
                        marker: Some(path),
                    }
                },
            },
            _ => ChildrenState { html: st.html, slots: st.slots, nodes, marker: None },
        }
    }
}

/// The standard HTML and the slots of the element at `path` from the
/// template's root: opening tag with its static attributes, then (unless
/// the element is void) its children and the closing tag.
pub open spec fn element_out(e: JsxElement, path: Seq<Seq<char>>) -> (Seq<char>, Seq<SlotV>)
    decreases e, 0int,
{
    let tag = element_tag(e.name);
    let (ah, asl) = attrs_out(e.attributes@, path);
    let open_tag = "<"@ + tag + ah + ">"@;
    if spec_is_void_element(tag) {
        (open_tag, asl)
    } else {
        let st = children_fold(e.children@, path, e.children@.len() as int);
        (open_tag + st.html + "</"@ + tag + ">"@, asl + st.slots)
    }
}

// ---------------------------------------------------------------------------
// Building templates
// ---------------------------------------------------------------------------

pub(crate) fn owned(s: &str) -> (r: String)
    ensures
        r@ == s@,
{
    let v = chars_of(s);
    string_of(&v)
}

pub(crate) fn clone_path(p: &Vec<String>) -> (r: Vec<String>)
    ensures
        path_view(r@) == path_view(p@),
{
    let mut r: Vec<String> = Vec::new();
    let n = p.len();
    for i in 0..n
        invariant
            n == p.len(),
            path_view(r@) == path_view(p@.take(i as int)),
    {
        r.push(p[i].clone());
        assert(path_view(p@.take(i + 1)) =~= path_view(p@.take(i as int)).push(p@[i as int]@));
        assert(path_view(r@) =~= path_view(p@.take(i + 1)));
    }
    assert(p@.take(n as int) =~= p@);
    r
}

/// `base` followed by `firstChild`.
fn first_child_of(base: &Vec<String>) -> (r: Vec<String>)
    ensures
        path_view(r@) == path_view(base@).push(first_child()),
{
    let mut r = clone_path(base);
    let ghost before = r@;
    r.push(owned("firstChild"));
    assert(path_view(r@) =~= path_view(before).push(first_child()));
    r
}

/// `base` followed by the path to the child after `n` created nodes.
fn make_child_path(base: &Vec<String>, n: usize) -> (r: Vec<String>)
    ensures
        path_view(r@) == path_view(base@) + child_path(n as nat),
{
    let mut r = first_child_of(base);
    assert(path_view(r@) =~= path_view(base@) + child_path(0));
    for i in 0..n
        invariant
            path_view(r@) == path_view(base@) + child_path(i as nat),
    {
        let ghost before = r@;
        r.push(owned("nextSibling"));
        assert(path_view(r@) =~= path_view(before).push(next_sibling()));
        assert(child_path((i + 1) as nat) =~= child_path(i as nat).push(next_sibling()));
        assert(path_view(r@) =~= path_view(base@) + child_path((i + 1) as nat));
    }
    r
}

pub(crate) fn element_tag_exec(n: &JsxElementName) -> (r: String)
    ensures
        r@ == element_tag(*n),
{
    match n {
        JsxElementName::Ident(s) => s.clone(),
        JsxElementName::Namespaced(a, b) => {
            let mut v = chars_of(a.as_str());
            extend_str(&mut v, ":");
            extend_str(&mut v, b.as_str());
            string_of(&v)
        },
        JsxElementName::Other => owned("div"),
    }
}

fn attr_html_name_exec(n: &JsxAttrName) -> (r: String)
    ensures
        r@ == attr_html_name(*n),
{
    match n {
        JsxAttrName::Ident(s) => {
            if str_eq(s.as_str(), "className") {
                owned("class")
            } else if str_eq(s.as_str(), "htmlFor") {
                owned("for")
            } else {
                s.clone()
            }
        },
        JsxAttrName::Namespaced(a, b) => {
            let mut v = chars_of(a.as_str());
            extend_str(&mut v, ":");
            extend_str(&mut v, b.as_str());
            string_of(&v)
        },
    }
}

fn static_attr_value_exec(v: &JsxAttrValue) -> (r: Option<String>)
    ensures
        match r {
            Some(x) => static_attr_value(*v) == Some(x@),
            None => static_attr_value(*v) is None,
        },
{
    match v {
        JsxAttrValue::Str(s) => Some(s.clone()),
        JsxAttrValue::Container(x) => match &x.kind {
            ExprKind::StringLit(s) => Some(s.clone()),
            ExprKind::NumericLit(s) => Some(s.clone()),
            ExprKind::BooleanLit(b) => if *b {
                Some(owned("true"))
            } else {
                Some(owned("false"))
            },
            _ => None,
        },
        JsxAttrValue::Other => None,
    }
}

fn push_slot(slots: &mut Vec<DynamicSlot>, path: &Vec<String>, t: SlotType)
    ensures
        slots_view(final(slots)@) == slots_view(old(slots)@).push(slot(path_view(path@), t@)),
{
    let d = DynamicSlot { path: clone_path(path), slot_type: t, marker_path: None };
    slots.push(d);
    assert(slots_view(slots@) =~= slots_view(old(slots)@).push(slot(path_view(path@), t@)));
}

fn push_named_slot(
    slots: &mut Vec<DynamicSlot>,
    path: &Vec<String>,
    name: Option<&str>,
    which: u8,
)
    requires
        which < 8,
    ensures
        slots_view(final(slots)@) == slots_view(old(slots)@) + named_slot(
            path_view(path@),
            opt_str_view(name),
            kind_maker(which),
        ).1,
{
    match name {
        Some(x) => {
            let s = owned(x);
            let t = if which == 0 {
                SlotType::OnEvent(s)
            } else if which == 1 {
                SlotType::OnCaptureEvent(s)
            } else if which == 2 {
                SlotType::BoolAttribute(s)
            } else if which == 3 {
                SlotType::PropAttribute(s)
            } else if which == 4 {
                SlotType::AttrAttribute(s)
            } else if which == 5 {
                SlotType::UseDirective(s)
            } else if which == 6 {
                SlotType::StyleProperty(s)
            } else {
                SlotType::ClassName(s)
            };
            push_slot(slots, path, t);
        },
        None => {
            assert(slots_view(slots@) =~= slots_view(old(slots)@) + Seq::<SlotV>::empty());
        },
    }
}

/// The slot constructors for prefixed names, by number.
pub open spec fn kind_maker(which: u8) -> spec_fn(Seq<char>) -> SlotKind {
    if which == 0 {
        |x: Seq<char>| SlotKind::OnEvent(x)
    } else if which == 1 {
        |x: Seq<char>| SlotKind::OnCaptureEvent(x)
    } else if which == 2 {
        |x: Seq<char>| SlotKind::BoolAttribute(x)
    } else if which == 3 {
        |x: Seq<char>| SlotKind::PropAttribute(x)
    } else if which == 4 {
        |x: Seq<char>| SlotKind::AttrAttribute(x)
    } else if which == 5 {
        |x: Seq<char>| SlotKind::UseDirective(x)
    } else if which == 6 {
        |x: Seq<char>| SlotKind::StyleProperty(x)
    } else {
        |x: Seq<char>| SlotKind::ClassName(x)
    }
}

fn push_attr(item: &JsxAttrItem, path: &Vec<String>, html: &mut Vec<char>, slots: &mut Vec<DynamicSlot>)
    ensures
        final(html)@ == old(html)@ + attr_out(*item, path_view(path@)).0,
        slots_view(final(slots)@) == slots_view(old(slots)@) + attr_out(*item, path_view(path@)).1,
{
    let ghost p = path_view(path@);
    match item {
        JsxAttrItem::Spread => {
            assert(html@ =~= old(html)@ + Seq::<char>::empty());
            assert(slots_view(slots@) =~= slots_view(old(slots)@) + Seq::<SlotV>::empty());
        },
        JsxAttrItem::Attribute { name, value } => {
            let n = attr_html_name_exec(name);
            let ns = n.as_str();
            if is_ref_binding(ns) {
                push_slot(slots, path, SlotType::Ref);
                assert(html@ =~= old(html)@ + Seq::<char>::empty());
                assert(slots_view(slots@) =~= slots_view(old(slots)@) + seq![slot(p, SlotKind::Ref)]);
            } else if is_class_list_binding(ns) {
                push_slot(slots, path, SlotType::ClassList);
                assert(html@ =~= old(html)@ + Seq::<char>::empty());
                assert(slots_view(slots@) =~= slots_view(old(slots)@) + seq![slot(p, SlotKind::ClassList)]);
            } else if is_style_binding(ns) && value.is_some() {
                match value {
                    Some(JsxAttrValue::Str(s)) => {
                        extend_str(html, " style=\"");
                        extend_str(html, s.as_str());
                        extend_str(html, "\"");
                        assert(html@ =~= old(html)@ + (" style=\""@ + s@ + "\""@));
                        assert(slots_view(slots@) =~= slots_view(old(slots)@) + Seq::<SlotV>::empty());
                    },
                    _ => {
                        push_slot(slots, path, SlotType::StyleObject);
                        assert(html@ =~= old(html)@ + Seq::<char>::empty());
                        assert(slots_view(slots@) =~= slots_view(old(slots)@) + seq![slot(p, SlotKind::StyleObject)]);
                    },
                }
            } else if is_on_prefix_event(ns) {
                push_named_slot(slots, path, get_prefix_event_name(ns), 0);
                assert(html@ =~= old(html)@ + Seq::<char>::empty());
            } else if is_on_capture_event(ns) {
                push_named_slot(slots, path, get_prefix_event_name(ns), 1);
                assert(html@ =~= old(html)@ + Seq::<char>::empty());
            } else if is_bool_attribute(ns) {
                push_named_slot(slots, path, get_prefixed_name(ns), 2);
                assert(html@ =~= old(html)@ + Seq::<char>::empty());
            } else if is_prop_attribute(ns) {
                push_named_slot(slots, path, get_prefixed_name(ns), 3);
                assert(html@ =~= old(html)@ + Seq::<char>::empty());
            } else if is_attr_attribute(ns) {
                push_named_slot(slots, path, get_prefixed_name(ns), 4);
                assert(html@ =~= old(html)@ + Seq::<char>::empty());
            } else if is_use_directive(ns) {
                push_named_slot(slots, path, get_prefixed_name(ns), 5);
                assert(html@ =~= old(html)@ + Seq::<char>::empty());
            } else if is_style_property(ns) {
                push_named_slot(slots, path, get_prefixed_name(ns), 6);
                assert(html@ =~= old(html)@ + Seq::<char>::empty());
            } else if is_class_name_binding(ns) {
                push_named_slot(slots, path, get_prefixed_name(ns), 7);
                assert(html@ =~= old(html)@ + Seq::<char>::empty());
            } else if is_event_handler(ns) {
                match get_event_name(ns) {
                    Some(ev) => {
                        push_slot(slots, path, SlotType::EventHandler(owned(ev)));
                        assert(slots_view(slots@) =~= slots_view(old(slots)@) + seq![slot(p, SlotKind::EventHandler(n@.skip(2)))]);
                    },
                    None => {},
                }
                assert(html@ =~= old(html)@ + Seq::<char>::empty());
            } else {
                match value {
                    Some(v) => match static_attr_value_exec(v) {
                        Some(sv) => {
                            extend_str(html, " ");
                            extend_str(html, ns);
                            extend_str(html, "=\"");
                            extend_str(html, sv.as_str());
                            extend_str(html, "\"");
                            assert(html@ =~= old(html)@ + (" "@ + n@ + "=\""@ + sv@ + "\""@));
                            assert(slots_view(slots@) =~= slots_view(old(slots)@) + Seq::<SlotV>::empty());
                        },
                        None => {
                            push_slot(slots, path, SlotType::Attribute(n.clone()));
                            assert(html@ =~= old(html)@ + Seq::<char>::empty());
                            assert(slots_view(slots@) =~= slots_view(old(slots)@) + seq![slot(p, SlotKind::Attribute(n@))]);
                        },
                    },
                    None => {
                        extend_str(html, " ");
                        extend_str(html, ns);
                        assert(html@ =~= old(html)@ + (" "@ + n@));
                        assert(slots_view(slots@) =~= slots_view(old(slots)@) + Seq::<SlotV>::empty());
                    },
                }
            }
        },
    }
}

fn push_attrs(items: &Vec<JsxAttrItem>, path: &Vec<String>, html: &mut Vec<char>, slots: &mut Vec<DynamicSlot>)
    ensures
        final(html)@ == old(html)@ + attrs_out(items@, path_view(path@)).0,
        slots_view(final(slots)@) == slots_view(old(slots)@) + attrs_out(items@, path_view(path@)).1,
{
    let n = items.len();
    let ghost p = path_view(path@);
    assert(items@.take(0) =~= Seq::<JsxAttrItem>::empty());
    assert(html@ =~= old(html)@ + Seq::<char>::empty());
    assert(slots_view(slots@) =~= slots_view(old(slots)@) + Seq::<SlotV>::empty());
    for i in 0..n
        invariant
            n == items.len(),
            p == path_view(path@),
            html@ == old(html)@ + attrs_out(items@.take(i as int), p).0,
            slots_view(slots@) == slots_view(old(slots)@) + attrs_out(items@.take(i as int), p).1,
    {
        push_attr(&items[i], path, html, slots);
        assert(items@.take(i + 1).drop_last() =~= items@.take(i as int));
        assert(items@.take(i + 1).last() == items@[i as int]);
        assert(html@ =~= old(html)@ + attrs_out(items@.take(i + 1), p).0);
        assert(slots_view(slots@) =~= slots_view(old(slots)@) + attrs_out(items@.take(i + 1), p).1);
    }
    assert(items@.take(n as int) =~= items@);
}

fn push_escaped(html: &mut Vec<char>, t: &str)
    ensures
        final(html)@ == old(html)@ + escape_text(t@),
{
    let v = chars_of(t);
    let n = v.len();
    assert(v@.take(0) =~= Seq::<char>::empty());
    assert(html@ =~= old(html)@ + escape_text(v@.take(0)));
    for i in 0..n
        invariant
            n == v.len(),
            html@ == old(html)@ + escape_text(v@.take(i as int)),
    {
        let c = v[i];
        assert(v@.take(i + 1).drop_last() =~= v@.take(i as int));
        if c == '\\' {
            html.push('\\');
            html.push('\\');
        } else if c == '{' {
            html.push('\\');
            html.push('{');
        } else {
            html.push(c);
        }
        assert(html@ =~= old(html)@ + escape_text(v@.take(i + 1)));
    }
    assert(v@.take(n as int) =~= v@);
}

fn is_formatting_whitespace_exec(t: &str) -> (r: bool)
    ensures
        r == is_formatting_whitespace(t@),
{
    let v = chars_of(t);
    let n = v.len();
    for i in 0..n
        invariant
            n == v.len(),
            v@ == t@,
            forall|j: int| 0 <= j < i ==> #[trigger] is_whitespace_char(v@[j]),
    {
        if !char_is_whitespace(v[i]) {
            return false;
        }
    }
    chars_contain(&v, '\n')
}

fn is_static_child_expr_exec(k: &ExprKind) -> (r: bool)
    ensures
        r == is_static_child_expr(*k),
{
    match k {
        ExprKind::StringLit(_) | ExprKind::NumericLit(_) | ExprKind::Empty => true,
        _ => false,
    }
}

fn creates_node_exec(c: &JsxChild) -> (r: bool)
    ensures
        r == creates_node(*c),
{
    match c {
        JsxChild::Text(t) => !is_formatting_whitespace_exec(t.as_str()),
        JsxChild::Element(_) => true,
        JsxChild::Container(x) => !is_static_child_expr_exec(&x.kind),
        _ => false,
    }
}

fn push_text_slot(slots: &mut Vec<DynamicSlot>, base: &Vec<String>, marker: Option<Vec<String>>)
    ensures
        slots_view(final(slots)@) == slots_view(old(slots)@).push(text_slot(path_view(base@), opt_path_view(marker))),
{
    let d = DynamicSlot { path: clone_path(base), slot_type: SlotType::TextContent, marker_path: marker };
    slots.push(d);
    assert(slots_view(slots@) =~= slots_view(old(slots)@).push(text_slot(path_view(base@), opt_path_view(marker))));
}

fn clone_opt_path(p: &Option<Vec<String>>) -> (r: Option<Vec<String>>)
    ensures
        opt_path_view(r) == opt_path_view(*p),
{
    match p {
        Some(v) => Some(clone_path(v)),
        None => None,
    }
}

fn clone_slot_type(t: &SlotType) -> (r: SlotType)
    ensures
        r@ == t@,
{
    match t {
        SlotType::TextContent => SlotType::TextContent,
        SlotType::Attribute(s) => SlotType::Attribute(s.clone()),
        SlotType::EventHandler(s) => SlotType::EventHandler(s.clone()),
        SlotType::Ref => SlotType::Ref,
        SlotType::ClassList => SlotType::ClassList,
        SlotType::StyleObject => SlotType::StyleObject,
        SlotType::OnEvent(s) => SlotType::OnEvent(s.clone()),
        SlotType::OnCaptureEvent(s) => SlotType::OnCaptureEvent(s.clone()),
        SlotType::BoolAttribute(s) => SlotType::BoolAttribute(s.clone()),
        SlotType::PropAttribute(s) => SlotType::PropAttribute(s.clone()),
        SlotType::AttrAttribute(s) => SlotType::AttrAttribute(s.clone()),
        SlotType::UseDirective(s) => SlotType::UseDirective(s.clone()),
        SlotType::StyleProperty(s) => SlotType::StyleProperty(s.clone()),
        SlotType::ClassName(s) => SlotType::ClassName(s.clone()),
    }
}

/// A copy of a template.
pub fn clone_template(t: &Template) -> (r: Template)
    ensures
        r@ == t@,
{
    let mut slots: Vec<DynamicSlot> = Vec::new();
    let n = t.dynamic_slots.len();
    for i in 0..n
        invariant
            n == t.dynamic_slots.len(),
            slots_view(slots@) == slots_view(t.dynamic_slots@.take(i as int)),
    {
        let d = &t.dynamic_slots[i];
        let c = DynamicSlot {
            path: clone_path(&d.path),
            slot_type: clone_slot_type(&d.slot_type),
            marker_path: clone_opt_path(&d.marker_path),
        };
        let ghost before = slots@;
        slots.push(c);
        assert(slots_view(slots@) =~= slots_view(before).push(d@));
        assert(slots_view(t.dynamic_slots@.take(i + 1)) =~= slots_view(t.dynamic_slots@.take(i as int)).push(d@));
    }
    assert(t.dynamic_slots@.take(n as int) =~= t.dynamic_slots@);
    Template { html: t.html.clone(), dynamic_slots: slots }
}

/// Build the standard HTML and the slots of the element at `path` from the template's root.
fn build_element_html(e: &JsxElement, html: &mut Vec<char>, slots: &mut Vec<DynamicSlot>, path: &Vec<String>)
    ensures
        final(html)@ == old(html)@ + element_out(*e, path_view(path@)).0,
        slots_view(final(slots)@) == slots_view(old(slots)@) + element_out(*e, path_view(path@)).1,
    decreases e,
{
    let ghost p = path_view(path@);
    let tag = element_tag_exec(&e.name);
    extend_str(html, "<");
    extend_str(html, tag.as_str());
    push_attrs(&e.attributes, path, html, slots);
    extend_str(html, ">");
    let ghost after_open = html@;
    let ghost after_attrs = slots_view(slots@);
    assert(after_open == old(html)@ + ("<"@ + tag@ + attrs_out(e.attributes@, p).0 + ">"@));
    if is_void_element(tag.as_str()) {
        return;
    }
    let cs = &e.children;
    let n = cs.len();
    let mut nodes: usize = 0;
    let mut marker: Option<Vec<String>> = None;
    assert(html@ =~= after_open + children_fold(cs@, p, 0).html);
    assert(slots_view(slots@) =~= after_attrs + children_fold(cs@, p, 0).slots);
    for i in 0..n
        invariant
            n == cs.len(),
            cs == &e.children,
            p == path_view(path@),
            nodes as nat == children_fold(cs@, p, i as int).nodes,
            nodes <= i,
            opt_path_view(marker) == children_fold(cs@, p, i as int).marker,
            html@ == after_open + children_fold(cs@, p, i as int).html,
            slots_view(slots@) == after_attrs + children_fold(cs@, p, i as int).slots,
    {
        let ghost st = children_fold(cs@, p, i as int);
        let child_path = make_child_path(path, nodes);
        let is_last = i == n - 1;
        let prev_expr = i > 0 && matches!(cs[i - 1], JsxChild::Container(_));
        let creates = creates_node_exec(&cs[i]);
        let ghost h0 = html@;
        let ghost s0 = slots_view(slots@);
        match &cs[i] {
            JsxChild::Text(t) => {
                if !is_formatting_whitespace_exec(t.as_str()) {
                    push_escaped(html, t.as_str());
                } else {
                    assert(html@ =~= h0 + Seq::<char>::empty());
                }
                marker = None;
            },
            JsxChild::Element(b) => {
                proof {
                    assert(decreases_to!(e => e.children));
                    assert(decreases_to!(e.children => e.children@));
                    assert(decreases_to!(e.children@ => e.children@[i as int]));
                }
                build_element_html(b, html, slots, &child_path);
                marker = None;
            },
            JsxChild::Container(x) => {
                match &x.kind {
                    ExprKind::StringLit(s) => {
                        push_escaped(html, s.as_str());
                    },
                    ExprKind::NumericLit(s) => {
                        extend_str(html, s.as_str());
                    },
                    ExprKind::Empty => {},
                    _ => {
                        if prev_expr && marker.is_some() {
                            let m = clone_opt_path(&marker);
                            push_text_slot(slots, path, m);
                        } else if nodes == 0 && !is_last {
                            let first = first_child_of(path);
                            push_text_slot(slots, path, Some(first));
                        } else if is_last {
                            push_text_slot(slots, path, None);
                        } else {
                            extend_str(html, "<!>");
                            let m = clone_path(&child_path);
                            push_text_slot(slots, path, Some(m));
                            marker = Some(child_path);
                        }
                    },
                }
            },
            _ => {
                marker = None;
            },
        }
        if creates {
            nodes = nodes + 1;
        }
        assert(html@ =~= after_open + children_fold(cs@, p, i + 1).html);
        assert(slots_view(slots@) =~= after_attrs + children_fold(cs@, p, i + 1).slots);
    }
    extend_str(html, "</");
    extend_str(html, tag.as_str());
    extend_str(html, ">");
    assert(html@ =~= old(html)@ + element_out(*e, p).0);
    assert(slots_view(slots@) =~= slots_view(old(slots)@) + element_out(*e, p).1);
}

/// The template of an element in standard HTML, without minimalization.
pub open spec fn standard_template(e: JsxElement) -> TemplateV {
    let (h, s) = element_out(e, Seq::empty());
    TemplateV { html: h, slots: s }
}

/// The template of an element: standard HTML, minimalized when options are given.
pub open spec fn template_of(e: JsxElement, options: Option<&DomExpressionsOptions>) -> TemplateV {
    let t = standard_template(e);
    match options {
        Some(o) => TemplateV {
            html: spec_minimalize(t.html, o.omit_quotes, o.omit_last_closing_tag),
            slots: t.slots,
        },
        None => t,
    }
}

/// Build a template from a JSX element
pub fn build_template(element: &JsxElement) -> (r: Template)
    ensures
        r@ == standard_template(*element),
{
    build_template_with_options(element, None)
}

/// Build a template from a JSX element with options
pub fn build_template_with_options(element: &JsxElement, options: Option<&DomExpressionsOptions>) -> (r: Template)
    ensures
        r@ == template_of(*element, options),
{
    let mut html: Vec<char> = Vec::new();
    let mut slots: Vec<DynamicSlot> = Vec::new();
    let path: Vec<String> = Vec::new();
    assert(path_view(path@) =~= Seq::<Seq<char>>::empty());
    assert(slots_view(slots@) =~= Seq::<SlotV>::empty());
    build_element_html(element, &mut html, &mut slots, &path);
    assert(html@ =~= element_out(*element, Seq::empty()).0);
    assert(slots_view(slots@) =~= element_out(*element, Seq::empty()).1);
    let standard = string_of(&html);
    match options {
        Some(opts) => Template { html: minimalize_template(standard.as_str(), opts), dynamic_slots: slots },
        None => Template { html: standard, dynamic_slots: slots },
    }
}

// ---------------------------------------------------------------------------
// What a template does not depend on
// ---------------------------------------------------------------------------

/// An expression that a template never holds: wherever it stands, it
/// becomes a slot.
pub open spec fn is_dynamic_kind(k: ExprKind) -> bool {
    !(k is StringLit || k is NumericLit || k is BooleanLit || k is Empty)
}

/// Two embedded expressions that a template cannot tell apart: the same
/// shape, or both dynamic.
pub open spec fn same_for_template(a: JsxExpr, b: JsxExpr) -> bool {
    kind_view(a.kind) == kind_view(b.kind) || (is_dynamic_kind(a.kind) && is_dynamic_kind(b.kind))
}

pub open spec fn same_attr_value(a: JsxAttrValue, b: JsxAttrValue) -> bool {
    match a {
        JsxAttrValue::Str(x) => b matches JsxAttrValue::Str(y) && x@ == y@,
        JsxAttrValue::Container(x) => b matches JsxAttrValue::Container(y) && same_for_template(x, y),
        JsxAttrValue::Other => b is Other,
    }
}

pub open spec fn same_attr(a: JsxAttrItem, b: JsxAttrItem) -> bool {
    match a {
        JsxAttrItem::Spread => b is Spread,
        JsxAttrItem::Attribute { name, value } => match b {
            JsxAttrItem::Attribute { name: name2, value: value2 } => {
                &&& attr_html_name(name) == attr_html_name(name2)
                &&& match value {
                    None => value2 is None,
                    Some(v) => value2 matches Some(w) && same_attr_value(v, w),
                }
            },
            JsxAttrItem::Spread => false,
        },
    }
}

pub open spec fn same_attrs(a: Seq<JsxAttrItem>, b: Seq<JsxAttrItem>) -> bool {
    &&& a.len() == b.len()
    &&& forall|i: int| 0 <= i < a.len() ==> same_attr(#[trigger] a[i], b[i])
}

/// The first `i` children of two lists agree up to dynamic expressions.
pub open spec fn same_children(cs: Seq<JsxChild>, ds: Seq<JsxChild>, i: int) -> bool
    decreases cs, i,
{
    if i <= 0 || i > cs.len() {
        true
    } else {
        &&& same_children(cs, ds, i - 1)
        &&& match cs[i - 1] {
            JsxChild::Text(t) => ds[i - 1] matches JsxChild::Text(u) && t@ == u@,
            JsxChild::Element(b) => ds[i - 1] matches JsxChild::Element(c) && same_element(*b, *c),
            JsxChild::Container(x) => ds[i - 1] matches JsxChild::Container(y) && same_for_template(x, y),
            JsxChild::Fragment(_) => ds[i - 1] is Fragment,
            JsxChild::Spread => ds[i - 1] is Spread,
        }
    }
}

/// Two elements that agree in everything but which dynamic expressions
/// they hold (and their identifiers).
pub open spec fn same_element(a: JsxElement, b: JsxElement) -> bool
    decreases a, 0int,
{
    &&& element_tag(a.name) == element_tag(b.name)
    &&& same_attrs(a.attributes@, b.attributes@)
    &&& a.children@.len() == b.children@.len()
    &&& same_children(a.children@, b.children@, a.children@.len() as int)
}

proof fn lemma_static_attr_value_same(v: JsxAttrValue, w: JsxAttrValue)
    requires
        same_attr_value(v, w),
    ensures
        static_attr_value(v) == static_attr_value(w),
        (v is Str) == (w is Str),
{
    match v {
        JsxAttrValue::Container(x) => {
            let y = w->Container_0;
            if kind_view(x.kind) == kind_view(y.kind) {
                match x.kind {
                    ExprKind::StringLit(s) => assert(y.kind is StringLit),
                    ExprKind::NumericLit(s) => assert(y.kind is NumericLit),
                    ExprKind::BooleanLit(s) => assert(y.kind is BooleanLit),
                    _ => {},
                }
            }
        },
        _ => {},
    }
}

proof fn lemma_attr_out_same(a: JsxAttrItem, b: JsxAttrItem, path: Seq<Seq<char>>)
    requires
        same_attr(a, b),
    ensures
        attr_out(a, path) == attr_out(b, path),
{
    match a {
        JsxAttrItem::Attribute { name, value } => {
            match value {
                Some(v) => {
                    let w = b->value.unwrap();
                    lemma_static_attr_value_same(v, w);
                },
                None => {},
            }
        },
        JsxAttrItem::Spread => {},
    }
}

proof fn lemma_attrs_out_same(a: Seq<JsxAttrItem>, b: Seq<JsxAttrItem>, path: Seq<Seq<char>>)
    requires
        same_attrs(a, b),
    ensures
        attrs_out(a, path) == attrs_out(b, path),
    decreases a.len(),
{
    if a.len() > 0 {
        assert(same_attrs(a.drop_last(), b.drop_last())) by {
            assert forall|i: int| 0 <= i < a.drop_last().len() implies same_attr(
                #[trigger] a.drop_last()[i],
                b.drop_last()[i],
            ) by {
                assert(same_attr(a[i], b[i]));
            }
        }
        lemma_attrs_out_same(a.drop_last(), b.drop_last(), path);
        assert(same_attr(a[a.len() - 1], b[b.len() - 1]));
        lemma_attr_out_same(a.last(), b.last(), path);
    }
}

proof fn lemma_same_children_prefix(cs: Seq<JsxChild>, ds: Seq<JsxChild>, n: int, i: int)
    requires
        same_children(cs, ds, n),
        0 <= i <= n <= cs.len(),
    ensures
        same_children(cs, ds, i),
    decreases n - i,
{
    if i < n {
        lemma_same_children_prefix(cs, ds, n - 1, i);
    }
}

proof fn lemma_children_fold_same(cs: Seq<JsxChild>, ds: Seq<JsxChild>, base: Seq<Seq<char>>, i: int)
    requires
        cs.len() == ds.len(),
        0 <= i <= cs.len(),
        same_children(cs, ds, i),
    ensures
        children_fold(cs, base, i) == children_fold(ds, base, i),
    decreases cs, i,
{
    if i > 0 {
        let k = i - 1;
        lemma_children_fold_same(cs, ds, base, k);
        if k > 0 {
            assert(same_children(cs, ds, k));
            assert((cs[k - 1] is Container) == (ds[k - 1] is Container)) by {
                reveal_with_fuel(same_children, 2);
            }
        }
        match cs[k] {
            JsxChild::Element(b) => {
                let c = ds[k]->Element_0;
                let st = children_fold(cs, base, k);
                lemma_element_out_same(*b, *c, base + child_path(st.nodes));
            },
            JsxChild::Container(x) => {
                let y = ds[k]->Container_0;
                if kind_view(x.kind) == kind_view(y.kind) {
                    match x.kind {
                        ExprKind::StringLit(s) => assert(y.kind is StringLit),
                        ExprKind::NumericLit(s) => assert(y.kind is NumericLit),
                        ExprKind::BooleanLit(s) => assert(y.kind is BooleanLit),
                        ExprKind::Empty => assert(y.kind is Empty),
                        _ => {},
                    }
                }
            },
            _ => {},
        }
    }
}

proof fn lemma_element_out_same(a: JsxElement, b: JsxElement, path: Seq<Seq<char>>)
    requires
        same_element(a, b),
    ensures
        element_out(a, path) == element_out(b, path),
    decreases a, 0int,
{
    lemma_attrs_out_same(a.attributes@, b.attributes@, path);
    lemma_children_fold_same(a.children@, b.children@, path, a.children@.len() as int);
}

/// Templates leave dynamic expressions out: two elements that differ only
/// in which dynamic expressions they hold get the same template.
pub proof fn law_dynamic_content_shares_template(
    a: JsxElement,
    b: JsxElement,
    options: Option<&DomExpressionsOptions>,
)
    requires
        same_element(a, b),
    ensures
        template_of(a, options) == template_of(b, options),
{
    lemma_element_out_same(a, b, Seq::empty());
}

proof fn lemma_first_char_differs(n: Seq<char>, p: Seq<char>)
    requires
        p.len() > 0,
        n.len() > 0,
        n[0] != p[0],
    ensures
        !has_prefix(n, p),
{
    if has_prefix(n, p) {
        assert(n.subrange(0, p.len() as int)[0] == n[0]);
    }
}

/// `class` and `for` are plain HTML attribute names: no binding prefix applies to them.
proof fn lemma_plain_html_name(n: Seq<char>)
    requires
        n == "class"@ || n == "for"@,
    ensures
        n != "ref"@,
        n != "classList"@,
        n != "style"@,
        !spec_is_on_prefix_event(n),
        !spec_is_on_capture_event(n),
        !spec_is_bool_attribute(n),
        !spec_is_prop_attribute(n),
        !spec_is_attr_attribute(n),
        !spec_is_use_directive(n),
        !spec_is_style_property(n),
        !spec_is_class_name_binding(n),
        !spec_is_event_handler(n),
{
    reveal_strlit("class");
    reveal_strlit("for");
    reveal_strlit("ref");
    reveal_strlit("classList");
    reveal_strlit("style");
    reveal_strlit("on");
    reveal_strlit("on:");
    reveal_strlit("oncapture:");
    reveal_strlit("bool:");
    reveal_strlit("prop:");
    reveal_strlit("attr:");
    reveal_strlit("use:");
    reveal_strlit("style:");
    reveal_strlit("class:");
    assert(n.len() > 0 && (n[0] == 'c' || n[0] == 'f'));
    assert(n != "ref"@ && n != "style"@) by {
        assert("ref"@[0] == 'r');
        assert("style"@[0] == 's');
    }
    lemma_first_char_differs(n, "on"@);
    lemma_first_char_differs(n, "on:"@);
    lemma_first_char_differs(n, "oncapture:"@);
    lemma_first_char_differs(n, "bool:"@);
    lemma_first_char_differs(n, "prop:"@);
    lemma_first_char_differs(n, "attr:"@);
    lemma_first_char_differs(n, "use:"@);
    lemma_first_char_differs(n, "style:"@);
    if n == "for"@ {
        lemma_first_char_differs(n, "class:"@);
    }
}

/// The HTML of an element whose one attribute is the static `name="value"`.
proof fn lemma_single_static_attribute(e: JsxElement, s: String, v: String, html_name: Seq<char>)
    requires
        e.attributes@ == seq![
            JsxAttrItem::Attribute { name: JsxAttrName::Ident(s), value: Some(JsxAttrValue::Str(v)) },
        ],
        attr_html_name(JsxAttrName::Ident(s)) == html_name,
        html_name == "class"@ || html_name == "for"@,
    ensures
        ("<"@ + element_tag(e.name) + " "@ + html_name + "=\""@ + v@ + "\">"@).is_prefix_of(
            standard_template(e).html,
        ),
        e.children@.len() == 0 && !spec_is_void_element(element_tag(e.name)) ==> standard_template(e).html
            == "<"@ + element_tag(e.name) + " "@ + html_name + "=\""@ + v@ + "\"></"@ + element_tag(e.name) + ">"@,
{
    lemma_plain_html_name(html_name);
    let item = JsxAttrItem::Attribute { name: JsxAttrName::Ident(s), value: Some(JsxAttrValue::Str(v)) };
    let items = e.attributes@;
    assert(items.drop_last() =~= Seq::<JsxAttrItem>::empty());
    assert(items.last() == item);
    let ah = " "@ + html_name + "=\""@ + v@ + "\""@;
    assert(attr_out(item, Seq::empty()).0 == ah);
    assert(attrs_out(Seq::<JsxAttrItem>::empty(), Seq::empty()).0 == Seq::<char>::empty());
    assert(attrs_out(items.drop_last(), Seq::empty()).0 == Seq::<char>::empty());
    assert(attrs_out(items, Seq::empty()).0 =~= ah);
    let tag = element_tag(e.name);
    let open_tag = "<"@ + tag + ah + ">"@;
    let pre = "<"@ + tag + " "@ + html_name + "=\""@ + v@ + "\">"@;
    reveal_strlit("\"");
    reveal_strlit(">");
    reveal_strlit("\">");
    assert("\">"@ =~= "\""@ + ">"@);
    assert(pre =~= open_tag);
    let h = standard_template(e).html;
    assert(h.subrange(0, pre.len() as int) =~= pre);
    if e.children@.len() == 0 && !spec_is_void_element(tag) {
        let st = children_fold(e.children@, Seq::empty(), 0);
        assert(st.html =~= Seq::<char>::empty());
        reveal_strlit("</");
        reveal_strlit("\"></");
        assert("\"></"@ =~= "\">"@ + "</"@);
        assert(h =~= "<"@ + tag + " "@ + html_name + "=\""@ + v@ + "\"></"@ + tag + ">"@);
    }
}

/// A static `className` attribute is written in the template's HTML under
/// the name `class`: `<tag className="v">` becomes `<tag class="v">`, and
/// with no children `<div className="v"></div>` becomes
/// `<div class="v"></div>`.
pub proof fn law_class_name_is_class(e: JsxElement, s: String, v: String)
    requires
        s@ == "className"@,
        e.attributes@ == seq![
            JsxAttrItem::Attribute { name: JsxAttrName::Ident(s), value: Some(JsxAttrValue::Str(v)) },
        ],
    ensures
        ("<"@ + element_tag(e.name) + " class=\""@ + v@ + "\">"@).is_prefix_of(standard_template(e).html),
        e.children@.len() == 0 && !spec_is_void_element(element_tag(e.name)) ==> standard_template(e).html
            == "<"@ + element_tag(e.name) + " class=\""@ + v@ + "\"></"@ + element_tag(e.name) + ">"@,
{
    reveal_strlit("className");
    reveal_strlit("htmlFor");
    reveal_strlit("class");
    reveal_strlit(" ");
    reveal_strlit("=\"");
    reveal_strlit(" class=\"");
    assert(s@.len() != "htmlFor"@.len());
    assert(" class=\""@ =~= " "@ + "class"@ + "=\""@);
    lemma_single_static_attribute(e, s, v, "class"@);
    let t = element_tag(e.name);
    assert("<"@ + t + " class=\""@ + v@ + "\">"@ =~= "<"@ + t + " "@ + "class"@ + "=\""@ + v@ + "\">"@);
    assert("<"@ + t + " class=\""@ + v@ + "\"></"@ + t + ">"@ =~= "<"@ + t + " "@ + "class"@ + "=\""@ + v@
        + "\"></"@ + t + ">"@);
}

/// A static `htmlFor` attribute is written in the template's HTML under
/// the name `for`: `<label htmlFor="v"></label>` becomes `<label for="v"></label>`.
pub proof fn law_html_for_is_for(e: JsxElement, s: String, v: String)
    requires
        s@ == "htmlFor"@,
        e.attributes@ == seq![
            JsxAttrItem::Attribute { name: JsxAttrName::Ident(s), value: Some(JsxAttrValue::Str(v)) },
        ],
    ensures
        ("<"@ + element_tag(e.name) + " for=\""@ + v@ + "\">"@).is_prefix_of(standard_template(e).html),
        e.children@.len() == 0 && !spec_is_void_element(element_tag(e.name)) ==> standard_template(e).html
            == "<"@ + element_tag(e.name) + " for=\""@ + v@ + "\"></"@ + element_tag(e.name) + ">"@,
{
    reveal_strlit("className");
    reveal_strlit("htmlFor");
    reveal_strlit("for");
    reveal_strlit(" ");
    reveal_strlit("=\"");
    reveal_strlit(" for=\"");
    assert(s@.len() != "className"@.len());
    assert(" for=\""@ =~= " "@ + "for"@ + "=\""@);
    lemma_single_static_attribute(e, s, v, "for"@);
    let t = element_tag(e.name);
    assert("<"@ + t + " for=\""@ + v@ + "\">"@ =~= "<"@ + t + " "@ + "for"@ + "=\""@ + v@ + "\">"@);
    assert("<"@ + t + " for=\""@ + v@ + "\"></"@ + t + ">"@ =~= "<"@ + t + " "@ + "for"@ + "=\""@ + v@
        + "\"></"@ + t + ">"@);
}

} // verus!
