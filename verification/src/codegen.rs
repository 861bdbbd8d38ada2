//! Code generation utilities for DOM manipulation, as JavaScript source text.

use vstd::prelude::*;
use crate::options::DomExpressionsOptions;
use crate::template::{SlotType, Template, SlotV, SlotKind, path_view};
use crate::text::{
    chars_of, extend_chars, extend_str, string_of, str_eq, to_lowercase,
    decimal_chars, lowercase_of, decimal,
};

verus! {

broadcast use vstd::string::group_string_axioms;

/// `base` followed by `.segment` for each segment of the path.
pub open spec fn element_ref(base: Seq<char>, path: Seq<Seq<char>>) -> Seq<char>
    decreases path.len(),
{
    if path.len() == 0 {
        base
    } else {
        element_ref(base, path.drop_last()) + "."@ + path.last()
    }
}

/// Generate the cloning code for a template
pub fn generate_clone_code(template_var: &str, element_var: &str) -> (r: String)
    ensures
        r@ == "const "@ + element_var@ + " = "@ + template_var@ + "$.cloneNode(true)"@,
{
    let mut v = chars_of("const ");
    extend_str(&mut v, element_var);
    extend_str(&mut v, " = ");
    extend_str(&mut v, template_var);
    extend_str(&mut v, "$.cloneNode(true)");
    string_of(&v)
}

fn element_ref_chars(base: &str, path: &[String]) -> (r: Vec<char>)
    ensures
        r@ == element_ref(base@, path_view(path@)),
{
    let mut v = chars_of(base);
    let n = path.len();
    assert(path_view(path@.take(0)) =~= Seq::<Seq<char>>::empty());
    for i in 0..n
        invariant
            n == path@.len(),
            v@ == element_ref(base@, path_view(path@.take(i as int))),
    {
        extend_str(&mut v, ".");
        extend_str(&mut v, path[i].as_str());
        assert(path_view(path@.take(i + 1)).drop_last() =~= path_view(path@.take(i as int)));
        assert(path_view(path@.take(i + 1)).last() == path@[i as int]@);
    }
    assert(path@.take(n as int) =~= path@);
    v
}

/// Generate element reference code based on path
pub fn generate_element_ref(base_var: &str, path: &[String]) -> (r: String)
    ensures
        r@ == element_ref(base_var@, path_view(path@)),
{
    let v = element_ref_chars(base_var, path);
    string_of(&v)
}

/// Generate code for dynamic content insertion
pub fn generate_insert_code(_options: &DomExpressionsOptions, element_ref: &str, expression: &str) -> (r: String)
    ensures
        r@ == "insert("@ + element_ref@ + ", "@ + expression@ + ")"@,
{
    let mut v = chars_of("insert(");
    extend_str(&mut v, element_ref);
    extend_str(&mut v, ", ");
    extend_str(&mut v, expression);
    extend_str(&mut v, ")");
    string_of(&v)
}

/// The code that sets an attribute: wrapped in the effect wrapper when
/// dynamic (through `className` for `class`/`className`), a direct
/// `setAttribute` call otherwise.
pub open spec fn set_attribute_code(
    element_ref: Seq<char>,
    attr_name: Seq<char>,
    value: Seq<char>,
    is_dynamic: bool,
    effect_wrapper: Seq<char>,
) -> Seq<char> {
    if is_dynamic {
        if attr_name == "class"@ || attr_name == "className"@ {
            effect_wrapper + "(() => className("@ + element_ref + ", "@ + value + "))"@
        } else {
            effect_wrapper + "(() => setAttribute("@ + element_ref + ", \""@ + attr_name + "\", "@
                + value + "))"@
        }
    } else {
        element_ref + ".setAttribute(\""@ + attr_name + "\", "@ + value + ")"@
    }
}

/// Generate code for setting an attribute/property
pub fn generate_set_attribute_code(
    element_ref: &str,
    attr_name: &str,
    value: &str,
    is_dynamic: bool,
    options: &DomExpressionsOptions,
) -> (r: String)
    ensures
        r@ == set_attribute_code(element_ref@, attr_name@, value@, is_dynamic, options.effect_wrapper@),
{
    if is_dynamic {
        if str_eq(attr_name, "class") || str_eq(attr_name, "className") {
            let mut v = chars_of(options.effect_wrapper.as_str());
            extend_str(&mut v, "(() => className(");
            extend_str(&mut v, element_ref);
            extend_str(&mut v, ", ");
            extend_str(&mut v, value);
            extend_str(&mut v, "))");
            string_of(&v)
        } else {
            let mut v = chars_of(options.effect_wrapper.as_str());
            extend_str(&mut v, "(() => setAttribute(");
            extend_str(&mut v, element_ref);
            extend_str(&mut v, ", \"");
            extend_str(&mut v, attr_name);
            extend_str(&mut v, "\", ");
            extend_str(&mut v, value);
            extend_str(&mut v, "))");
            string_of(&v)
        }
    } else {
        let mut v = chars_of(element_ref);
        extend_str(&mut v, ".setAttribute(\"");
        extend_str(&mut v, attr_name);
        extend_str(&mut v, "\", ");
        extend_str(&mut v, value);
        extend_str(&mut v, ")");
        string_of(&v)
    }
}

/// A dynamic attribute is set inside the effect wrapper, so that it follows
/// its value: the code is the wrapper, `(() => `, a `className(el, value)`
/// call for `class`/`className` or a `setAttribute(el, "name", value)` call
/// for any other name, and `))`. Only a static attribute is set once, by a
/// direct `el.setAttribute("name", value)`.
pub proof fn law_dynamic_attribute_in_effect(
    element_ref: Seq<char>,
    attr_name: Seq<char>,
    value: Seq<char>,
    effect_wrapper: Seq<char>,
)
    ensures
        set_attribute_code(element_ref, attr_name, value, true, effect_wrapper) == effect_wrapper + "(() => "@
            + (if attr_name == "class"@ || attr_name == "className"@ {
            "className("@ + element_ref + ", "@ + value
        } else {
            "setAttribute("@ + element_ref + ", \""@ + attr_name + "\", "@ + value
        }) + "))"@,
        set_attribute_code(element_ref, attr_name, value, false, effect_wrapper) == element_ref
            + ".setAttribute(\""@ + attr_name + "\", "@ + value + ")"@,
{
    reveal_strlit("(() => ");
    reveal_strlit("(() => className(");
    reveal_strlit("(() => setAttribute(");
    reveal_strlit("className(");
    reveal_strlit("setAttribute(");
    assert("(() => className("@ =~= "(() => "@ + "className("@);
    assert("(() => setAttribute("@ =~= "(() => "@ + "setAttribute("@);
    let w = effect_wrapper;
    let e = element_ref;
    let a = attr_name;
    let v = value;
    assert(w + "(() => className("@ + e + ", "@ + v + "))"@ =~= w + "(() => "@ + ("className("@ + e + ", "@ + v)
        + "))"@);
    assert(w + "(() => setAttribute("@ + e + ", \""@ + a + "\", "@ + v + "))"@ =~= w + "(() => "@ + (
    "setAttribute("@ + e + ", \""@ + a + "\", "@ + v) + "))"@);
}

/// The code that attaches an event handler: the delegated property
/// `$$<event>` (the event name in lower case), or a direct
/// `addEventListener` call; the handler is copied as written.
pub open spec fn event_handler_code(
    element_ref: Seq<char>,
    event_name: Seq<char>,
    handler: Seq<char>,
    delegate: bool,
) -> Seq<char> {
    if delegate {
        element_ref + ".$$"@ + lowercase_of(event_name) + " = "@ + handler
    } else {
        element_ref + ".addEventListener(\""@ + lowercase_of(event_name) + "\", "@ + handler + ")"@
    }
}

/// Generate code for event handler
pub fn generate_event_handler_code(
    element_ref: &str,
    event_name: &str,
    handler: &str,
    delegate: bool,
) -> (r: String)
    ensures
        r@ == event_handler_code(element_ref@, event_name@, handler@, delegate),
{
    let lower = to_lowercase(event_name);
    if delegate {
        let mut v = chars_of(element_ref);
        extend_str(&mut v, ".$$");
        extend_str(&mut v, lower.as_str());
        extend_str(&mut v, " = ");
        extend_str(&mut v, handler);
        string_of(&v)
    } else {
        let mut v = chars_of(element_ref);
        extend_str(&mut v, ".addEventListener(\"");
        extend_str(&mut v, lower.as_str());
        extend_str(&mut v, "\", ");
        extend_str(&mut v, handler);
        extend_str(&mut v, ")");
        string_of(&v)
    }
}

/// The reference variable of the `i`-th slot: the root for an empty path,
/// `_el$` followed by `i + 2` otherwise.
pub open spec fn slot_ref_var(i: nat, s: SlotV) -> Seq<char> {
    if s.path.len() == 0 {
        "_el$"@
    } else {
        "_el$"@ + decimal(i + 2)
    }
}

/// The reference declarations for slots `0..k`.
pub open spec fn slot_ref_decls(slots: Seq<SlotV>, k: int) -> Seq<char>
    decreases k,
{
    if k <= 0 || k > slots.len() {
        Seq::empty()
    } else {
        let i = k - 1;
        let s = slots[i];
        slot_ref_decls(slots, i) + if s.path.len() == 0 {
            Seq::empty()
        } else {
            "  const "@ + slot_ref_var(i as nat, s) + " = "@ + element_ref("_el$"@, s.path) + ";\n"@
        }
    }
}

/// The runtime operations for slots `0..k`.
pub open spec fn slot_ops(slots: Seq<SlotV>, k: int, effect_wrapper: Seq<char>) -> Seq<char>
    decreases k,
{
    if k <= 0 || k > slots.len() {
        Seq::empty()
    } else {
        let i = k - 1;
        slot_ops(slots, i, effect_wrapper) + slot_op(i as nat, slots[i], effect_wrapper)
    }
}

/// The runtime operation of the `i`-th slot.
pub open spec fn slot_op(i: nat, s: SlotV, effect_wrapper: Seq<char>) -> Seq<char> {
    let r = slot_ref_var(i, s);
    match s.kind {
        SlotKind::TextContent => "  insert("@ + r + ", {/* expression */});\n"@,
        SlotKind::Attribute(name) => "  "@ + effect_wrapper + "(() => setAttribute("@ + r + ", \""@
            + name + "\", {/* value */}));\n"@,
        SlotKind::EventHandler(name) => "  "@ + r + ".$$"@ + lowercase_of(name) + " = {/* handler */};\n"@,
        _ => Seq::empty(),
    }
}

fn push_slot_op(code: &mut Vec<char>, i: usize, s: &crate::template::DynamicSlot, effect_wrapper: &str)
    requires
        i + 2 <= usize::MAX,
    ensures
        final(code)@ == old(code)@ + slot_op(i as nat, s@, effect_wrapper@),
{
    let r = slot_ref_var_exec(i, s.path.len() == 0);
    match &s.slot_type {
        SlotType::TextContent => {
            extend_str(code, "  insert(");
            extend_chars(code, &r);
            extend_str(code, ", {/* expression */});\n");
        },
        SlotType::Attribute(name) => {
            extend_str(code, "  ");
            extend_str(code, effect_wrapper);
            extend_str(code, "(() => setAttribute(");
            extend_chars(code, &r);
            extend_str(code, ", \"");
            extend_str(code, name.as_str());
            extend_str(code, "\", {/* value */}));\n");
        },
        SlotType::EventHandler(name) => {
            let lower = to_lowercase(name.as_str());
            extend_str(code, "  ");
            extend_chars(code, &r);
            extend_str(code, ".$$");
            extend_str(code, lower.as_str());
            extend_str(code, " = {/* handler */};\n");
        },
        _ => {},
    }
    assert(code@ =~= old(code)@ + slot_op(i as nat, s@, effect_wrapper@));
}

/// The whole transformation: an arrow function, called at once, that
/// clones the template, declares a reference per slot with a non-empty
/// path, performs the slot operations and returns the root.
pub open spec fn template_transformation(t: Seq<SlotV>, template_var: Seq<char>, effect_wrapper: Seq<char>) -> Seq<char> {
    "(() => {\n"@ + "  const _el$ = "@ + template_var + "$.cloneNode(true);\n"@ + slot_ref_decls(t, t.len() as int)
        + slot_ops(t, t.len() as int, effect_wrapper) + "  return _el$;\n"@ + "})()"@
}

fn slot_ref_var_exec(i: usize, empty_path: bool) -> (r: Vec<char>)
    requires
        i + 2 <= usize::MAX,
    ensures
        empty_path ==> r@ == "_el$"@,
        !empty_path ==> r@ == "_el$"@ + decimal(i as nat + 2),
{
    let mut v = chars_of("_el$");
    if !empty_path {
        let d = decimal_chars(i + 2);
        extend_chars(&mut v, &d);
    }
    v
}

/// Generate the complete transformation for a template
///
/// Slot kinds other than text content, attributes and event handlers
/// produce no operation.
#[verifier::rlimit(40)]
pub fn generate_template_transformation(
    template: &Template,
    template_var: &str,
    options: &DomExpressionsOptions,
) -> (r: String)
    requires
        template.dynamic_slots@.len() + 2 <= usize::MAX,
    ensures
        r@ == template_transformation(template@.slots, template_var@, options.effect_wrapper@),
{
    let slots = &template.dynamic_slots;
    let ghost sv = template@.slots;
    let n = slots.len();
    let mut code = chars_of("(() => {\n");
    extend_str(&mut code, "  const _el$ = ");
    extend_str(&mut code, template_var);
    extend_str(&mut code, "$.cloneNode(true);\n");
    let ghost head = code@;
    for i in 0..n
        invariant
            n == slots.len(),
            n + 2 <= usize::MAX,
            sv == template@.slots,
            slots == &template.dynamic_slots,
            code@ == head + slot_ref_decls(sv, i as int),
    {
        let s = &slots[i];
        assert(sv[i as int] == s@);
        if s.path.len() != 0 {
            let r = slot_ref_var_exec(i, false);
            extend_str(&mut code, "  const ");
            extend_chars(&mut code, &r);
            extend_str(&mut code, " = ");
            let e = element_ref_chars("_el$", s.path.as_slice());
            extend_chars(&mut code, &e);
            extend_str(&mut code, ";\n");
        }
        assert(code@ =~= head + slot_ref_decls(sv, i + 1));
    }
    let ghost mid = code@;
    for i in 0..n
        invariant
            n == slots.len(),
            n + 2 <= usize::MAX,
            sv == template@.slots,
            slots == &template.dynamic_slots,
            code@ == mid + slot_ops(sv, i as int, options.effect_wrapper@),
    {
        let s = &slots[i];
        assert(sv[i as int] == s@);
        push_slot_op(&mut code, i, s, options.effect_wrapper.as_str());
        assert(code@ =~= mid + slot_ops(sv, i + 1, options.effect_wrapper@));
    }
    extend_str(&mut code, "  return _el$;\n");
    extend_str(&mut code, "})()");
    assert(code@ =~= template_transformation(sv, template_var@, options.effect_wrapper@));
    string_of(&code)
}

} // verus!
