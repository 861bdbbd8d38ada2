//! Classification of JSX tag and attribute names.
//!
//! Lower-case tags are HTML elements, capitalised tags are components, and
//! attribute names select the kind of binding the compiler emits (event
//! handlers, `ref`, `classList`, `style`, and the `on:`, `oncapture:`,
//! `bool:`, `prop:`, `attr:`, `use:`, `style:` and `class:` namespaces).

use vstd::prelude::*;
use crate::text::{
    chars_of, str_eq, str_starts_with, to_lowercase, char_is_uppercase,
    has_prefix, lowercase_of, is_uppercase_char,
};

verus! {

broadcast use vstd::string::group_string_axioms;

/// The part of `s` after the prefix `p`, if `s` starts with `p`.
pub open spec fn strip_prefix(s: Seq<char>, p: Seq<char>) -> Option<Seq<char>> {
    if has_prefix(s, p) {
        Some(s.skip(p.len() as int))
    } else {
        None
    }
}

/// The characters of an optional string slice.
pub open spec fn opt_str_view(o: Option<&str>) -> Option<Seq<char>> {
    match o {
        Some(s) => Some(s@),
        None => None,
    }
}

/// A name with the given prefix and at least one character after it.
pub open spec fn has_strict_prefix(s: Seq<char>, p: Seq<char>) -> bool {
    has_prefix(s, p) && s.len() > p.len()
}

/// A lowercase tag: no character is upper-case (digits, hyphens and
/// other marks are allowed, as in `h1` or `custom-element`).
pub open spec fn spec_is_html_element(t: Seq<char>) -> bool {
    forall|i: int| 0 <= i < t.len() ==> !#[trigger] is_uppercase_char(t[i])
}

/// The first character exists and is upper-case.
pub open spec fn spec_is_component(t: Seq<char>) -> bool {
    t.len() > 0 && is_uppercase_char(t[0])
}

pub open spec fn spec_is_event_handler(a: Seq<char>) -> bool {
    has_strict_prefix(a, "on"@)
}

pub open spec fn spec_is_on_prefix_event(a: Seq<char>) -> bool {
    has_strict_prefix(a, "on:"@)
}

pub open spec fn spec_is_on_capture_event(a: Seq<char>) -> bool {
    has_strict_prefix(a, "oncapture:"@)
}

pub open spec fn spec_is_bool_attribute(a: Seq<char>) -> bool {
    has_strict_prefix(a, "bool:"@)
}

pub open spec fn spec_is_prop_attribute(a: Seq<char>) -> bool {
    has_strict_prefix(a, "prop:"@)
}

pub open spec fn spec_is_attr_attribute(a: Seq<char>) -> bool {
    has_strict_prefix(a, "attr:"@)
}

pub open spec fn spec_is_use_directive(a: Seq<char>) -> bool {
    has_strict_prefix(a, "use:"@)
}

pub open spec fn spec_is_style_property(a: Seq<char>) -> bool {
    has_strict_prefix(a, "style:"@)
}

pub open spec fn spec_is_class_name_binding(a: Seq<char>) -> bool {
    has_strict_prefix(a, "class:"@)
}

/// The event name after `on:` or, failing that, after `oncapture:`.
pub open spec fn spec_prefix_event_name(a: Seq<char>) -> Option<Seq<char>> {
    if has_prefix(a, "on:"@) {
        strip_prefix(a, "on:"@)
    } else {
        strip_prefix(a, "oncapture:"@)
    }
}

/// The name after the first of `bool:`, `prop:`, `attr:`, `use:`, `style:`,
/// `class:` that `a` starts with.
pub open spec fn spec_prefixed_name(a: Seq<char>) -> Option<Seq<char>> {
    if has_prefix(a, "bool:"@) {
        strip_prefix(a, "bool:"@)
    } else if has_prefix(a, "prop:"@) {
        strip_prefix(a, "prop:"@)
    } else if has_prefix(a, "attr:"@) {
        strip_prefix(a, "attr:"@)
    } else if has_prefix(a, "use:"@) {
        strip_prefix(a, "use:"@)
    } else if has_prefix(a, "style:"@) {
        strip_prefix(a, "style:"@)
    } else {
        strip_prefix(a, "class:"@)
    }
}

/// Any binding that the compiler treats specially.
pub open spec fn spec_is_special_binding(a: Seq<char>) -> bool {
    ||| a == "ref"@
    ||| a == "classList"@
    ||| a == "style"@
    ||| spec_is_on_prefix_event(a)
    ||| spec_is_on_capture_event(a)
    ||| spec_is_bool_attribute(a)
    ||| spec_is_prop_attribute(a)
    ||| spec_is_attr_attribute(a)
    ||| spec_is_use_directive(a)
    ||| spec_is_style_property(a)
    ||| spec_is_class_name_binding(a)
}

/// The (already lower-cased) event names that bubble and can be delegated.
pub open spec fn is_delegated_event_name(l: Seq<char>) -> bool {
    ||| l == "click"@
    ||| l == "dblclick"@
    ||| l == "input"@
    ||| l == "change"@
    ||| l == "submit"@
    ||| l == "reset"@
    ||| l == "mousedown"@
    ||| l == "mouseup"@
    ||| l == "mouseover"@
    ||| l == "mouseout"@
    ||| l == "mousemove"@
    ||| l == "keydown"@
    ||| l == "keyup"@
    ||| l == "keypress"@
    ||| l == "focus"@
    ||| l == "blur"@
    ||| l == "touchstart"@
    ||| l == "touchend"@
    ||| l == "touchmove"@
    ||| l == "touchcancel"@
}

/// The (already lower-cased) tag names of void HTML elements.
pub open spec fn is_void_tag_name(l: Seq<char>) -> bool {
    ||| l == "area"@
    ||| l == "base"@
    ||| l == "br"@
    ||| l == "col"@
    ||| l == "embed"@
    ||| l == "hr"@
    ||| l == "img"@
    ||| l == "input"@
    ||| l == "link"@
    ||| l == "meta"@
    ||| l == "param"@
    ||| l == "source"@
    ||| l == "track"@
    ||| l == "wbr"@
}

pub open spec fn spec_should_delegate_event(e: Seq<char>) -> bool {
    is_delegated_event_name(lowercase_of(e))
}

/// An event is delegated exactly when its name, in lower case, is one of
/// the bubbling events click, dblclick, input, change, submit, reset,
/// mousedown, mouseup, mouseover, mouseout, mousemove, keydown, keyup,
/// keypress, focus, blur, touchstart, touchend, touchmove and touchcancel.
pub proof fn law_delegated_events(event: Seq<char>)
    ensures
        spec_should_delegate_event(event) <==> {
            let l = lowercase_of(event);
            ||| l == "click"@
            ||| l == "dblclick"@
            ||| l == "input"@
            ||| l == "change"@
            ||| l == "submit"@
            ||| l == "reset"@
            ||| l == "mousedown"@
            ||| l == "mouseup"@
            ||| l == "mouseover"@
            ||| l == "mouseout"@
            ||| l == "mousemove"@
            ||| l == "keydown"@
            ||| l == "keyup"@
            ||| l == "keypress"@
            ||| l == "focus"@
            ||| l == "blur"@
            ||| l == "touchstart"@
            ||| l == "touchend"@
            ||| l == "touchmove"@
            ||| l == "touchcancel"@
        },
{
}

pub open spec fn spec_is_void_element(t: Seq<char>) -> bool {
    is_void_tag_name(lowercase_of(t))
}

/// The part of `s` after its first `n` characters.
fn skip_chars(s: &str, n: usize) -> (r: &str)
    requires
        n <= s@.len(),
    ensures
        r@ == s@.skip(n as int),
{
    let len = s.unicode_len();
    s.substring_char(n, len)
}

/// Strip the prefix `p` from `s`.
fn strip_str<'a>(s: &'a str, p: &str) -> (r: Option<&'a str>)
    ensures
        opt_str_view(r) == strip_prefix(s@, p@),
{
    if str_starts_with(s, p) {
        let n = p.unicode_len();
        Some(skip_chars(s, n))
    } else {
        None
    }
}

/// Does `s` start with `p` and continue past it?
fn starts_strictly_with(s: &str, p: &str) -> (r: bool)
    ensures
        r == has_strict_prefix(s@, p@),
{
    str_starts_with(s, p) && s.unicode_len() > p.unicode_len()
}

/// Check if a tag name is a lowercase HTML element
pub fn is_html_element(tag_name: &str) -> (r: bool)
    ensures
        r == spec_is_html_element(tag_name@),
{
    let v = chars_of(tag_name);
    let n = v.len();
    for i in 0..n
        invariant
            n == v.len(),
            v@ == tag_name@,
            forall|j: int| 0 <= j < i ==> !#[trigger] is_uppercase_char(v@[j]),
    {
        let c = v[i];
        if char_is_uppercase(c) {
            return false;
        }
    }
    true
}

/// Check if a tag name is a component (mixed case or capital case)
pub fn is_component(tag_name: &str) -> (r: bool)
    ensures
        r == spec_is_component(tag_name@),
{
    let v = chars_of(tag_name);
    if v.len() == 0 {
        false
    } else {
        char_is_uppercase(v[0])
    }
}

/// Check if an attribute is an event handler
pub fn is_event_handler(attr_name: &str) -> (r: bool)
    ensures
        r == spec_is_event_handler(attr_name@),
{
    starts_strictly_with(attr_name, "on")
}

/// Get the event name from an event handler attribute
pub fn get_event_name(attr_name: &str) -> (r: Option<&str>)
    ensures
        opt_str_view(r) == (if spec_is_event_handler(attr_name@) {
            Some(attr_name@.skip(2))
        } else {
            None
        }),
{
    if is_event_handler(attr_name) {
        proof {
            reveal_strlit("on");
        }
        Some(skip_chars(attr_name, 2))
    } else {
        None
    }
}

/// Check if an attribute is a ref binding
pub fn is_ref_binding(attr_name: &str) -> (r: bool)
    ensures
        r == (attr_name@ == "ref"@),
{
    str_eq(attr_name, "ref")
}

/// Check if an attribute is a classList binding
pub fn is_class_list_binding(attr_name: &str) -> (r: bool)
    ensures
        r == (attr_name@ == "classList"@),
{
    str_eq(attr_name, "classList")
}

/// Check if an attribute is a style binding
pub fn is_style_binding(attr_name: &str) -> (r: bool)
    ensures
        r == (attr_name@ == "style"@),
{
    proof {
        reveal_strlit("style");
        reveal_strlit("style:");
    }
    str_eq(attr_name, "style") && !str_starts_with(attr_name, "style:")
}

/// Check if an attribute uses on: prefix (non-delegated event)
pub fn is_on_prefix_event(attr_name: &str) -> (r: bool)
    ensures
        r == spec_is_on_prefix_event(attr_name@),
{
    starts_strictly_with(attr_name, "on:")
}

/// Check if an attribute uses oncapture: prefix
pub fn is_on_capture_event(attr_name: &str) -> (r: bool)
    ensures
        r == spec_is_on_capture_event(attr_name@),
{
    starts_strictly_with(attr_name, "oncapture:")
}

/// Get event name from on: or oncapture: prefix
pub fn get_prefix_event_name(attr_name: &str) -> (r: Option<&str>)
    ensures
        opt_str_view(r) == spec_prefix_event_name(attr_name@),
{
    if let Some(rest) = strip_str(attr_name, "on:") {
        Some(rest)
    } else {
        strip_str(attr_name, "oncapture:")
    }
}

/// Check if an attribute is a special binding that needs special handling
pub fn is_special_binding(attr_name: &str) -> (r: bool)
    ensures
        r == spec_is_special_binding(attr_name@),
{
    is_ref_binding(attr_name) || is_class_list_binding(attr_name) || is_style_binding(attr_name)
        || is_on_prefix_event(attr_name) || is_on_capture_event(attr_name) || is_bool_attribute(
        attr_name,
    ) || is_prop_attribute(attr_name) || is_attr_attribute(attr_name) || is_use_directive(
        attr_name,
    ) || is_style_property(attr_name) || is_class_name_binding(attr_name)
}

/// Check if an attribute uses bool: prefix
pub fn is_bool_attribute(attr_name: &str) -> (r: bool)
    ensures
        r == spec_is_bool_attribute(attr_name@),
{
    starts_strictly_with(attr_name, "bool:")
}

/// Check if an attribute uses prop: prefix
pub fn is_prop_attribute(attr_name: &str) -> (r: bool)
    ensures
        r == spec_is_prop_attribute(attr_name@),
{
    starts_strictly_with(attr_name, "prop:")
}

/// Check if an attribute uses attr: prefix
pub fn is_attr_attribute(attr_name: &str) -> (r: bool)
    ensures
        r == spec_is_attr_attribute(attr_name@),
{
    starts_strictly_with(attr_name, "attr:")
}

/// Check if an attribute uses use: prefix
pub fn is_use_directive(attr_name: &str) -> (r: bool)
    ensures
        r == spec_is_use_directive(attr_name@),
{
    starts_strictly_with(attr_name, "use:")
}

/// Check if an attribute uses style: prefix (for individual style properties)
pub fn is_style_property(attr_name: &str) -> (r: bool)
    ensures
        r == spec_is_style_property(attr_name@),
{
    starts_strictly_with(attr_name, "style:")
}

/// Check if an attribute uses class: prefix (for individual class bindings)
pub fn is_class_name_binding(attr_name: &str) -> (r: bool)
    ensures
        r == spec_is_class_name_binding(attr_name@),
{
    starts_strictly_with(attr_name, "class:")
}

/// Get the name after a prefix
pub fn get_prefixed_name(attr_name: &str) -> (r: Option<&str>)
    ensures
        opt_str_view(r) == spec_prefixed_name(attr_name@),
{
    if let Some(rest) = strip_str(attr_name, "bool:") {
        Some(rest)
    } else if let Some(rest) = strip_str(attr_name, "prop:") {
        Some(rest)
    } else if let Some(rest) = strip_str(attr_name, "attr:") {
        Some(rest)
    } else if let Some(rest) = strip_str(attr_name, "use:") {
        Some(rest)
    } else if let Some(rest) = strip_str(attr_name, "style:") {
        Some(rest)
    } else {
        strip_str(attr_name, "class:")
    }
}

/// Check if an event should be delegated
pub fn should_delegate_event(event_name: &str) -> (r: bool)
    ensures
        r == spec_should_delegate_event(event_name@),
{
    let l = to_lowercase(event_name);
    let s = l.as_str();
    str_eq(s, "click") || str_eq(s, "dblclick") || str_eq(s, "input") || str_eq(s, "change")
        || str_eq(s, "submit") || str_eq(s, "reset") || str_eq(s, "mousedown") || str_eq(
        s,
        "mouseup",
    ) || str_eq(s, "mouseover") || str_eq(s, "mouseout") || str_eq(s, "mousemove") || str_eq(
        s,
        "keydown",
    ) || str_eq(s, "keyup") || str_eq(s, "keypress") || str_eq(s, "focus") || str_eq(s, "blur")
        || str_eq(s, "touchstart") || str_eq(s, "touchend") || str_eq(s, "touchmove") || str_eq(
        s,
        "touchcancel",
    )
}

/// List of void elements that don't have closing tags
pub fn is_void_element(tag_name: &str) -> (r: bool)
    ensures
        r == spec_is_void_element(tag_name@),
{
    let l = to_lowercase(tag_name);
    let s = l.as_str();
    str_eq(s, "area") || str_eq(s, "base") || str_eq(s, "br") || str_eq(s, "col") || str_eq(
        s,
        "embed",
    ) || str_eq(s, "hr") || str_eq(s, "img") || str_eq(s, "input") || str_eq(s, "link") || str_eq(
        s,
        "meta",
    ) || str_eq(s, "param") || str_eq(s, "source") || str_eq(s, "track") || str_eq(s, "wbr")
}

/// The character reference at position `i`, with its length: `&amp;`,
/// `&lt;`, `&gt;`, `&quot;`, `&apos;`, `&#39;` or `&nbsp;`.
pub open spec fn entity_at(t: Seq<char>, i: int) -> Option<(char, int)> {
    let rest = t.skip(i);
    if has_prefix(rest, "&amp;"@) {
        Some(('&', 5))
    } else if has_prefix(rest, "&lt;"@) {
        Some(('<', 4))
    } else if has_prefix(rest, "&gt;"@) {
        Some(('>', 4))
    } else if has_prefix(rest, "&quot;"@) {
        Some(('"', 6))
    } else if has_prefix(rest, "&apos;"@) {
        Some(('\'', 6))
    } else if has_prefix(rest, "&#39;"@) {
        Some(('\'', 5))
    } else if has_prefix(rest, "&nbsp;"@) {
        Some(('\u{a0}', 6))
    } else {
        None
    }
}

/// The text from position `i` on with its character references replaced.
pub open spec fn decode_from(t: Seq<char>, i: int) -> Seq<char>
    decreases t.len() - i,
{
    if i < 0 || i >= t.len() {
        Seq::empty()
    } else {
        match entity_at(t, i) {
            Some((c, n)) => if n > 0 && i + n <= t.len() {
                seq![c] + decode_from(t, i + n)
            } else {
                seq![t[i]] + decode_from(t, i + 1)
            },
            None => seq![t[i]] + decode_from(t, i + 1),
        }
    }
}

pub open spec fn spec_decode_html_entities(t: Seq<char>) -> Seq<char> {
    decode_from(t, 0)
}

fn entity_at_exec(v: &Vec<char>, i: usize) -> (r: Option<(char, usize)>)
    requires
        i <= v.len(),
    ensures
        match r {
            Some((c, n)) => entity_at(v@, i as int) == Some((c, n as int)),
            None => entity_at(v@, i as int) is None,
        },
{
    let amp = chars_of("&amp;");
    let lt = chars_of("&lt;");
    let gt = chars_of("&gt;");
    let quot = chars_of("&quot;");
    let apos = chars_of("&apos;");
    let num39 = chars_of("&#39;");
    let nbsp = chars_of("&nbsp;");
    if crate::text::chars_start_with_at(v, i, &amp) {
        Some(('&', 5))
    } else if crate::text::chars_start_with_at(v, i, &lt) {
        Some(('<', 4))
    } else if crate::text::chars_start_with_at(v, i, &gt) {
        Some(('>', 4))
    } else if crate::text::chars_start_with_at(v, i, &quot) {
        Some(('"', 6))
    } else if crate::text::chars_start_with_at(v, i, &apos) {
        Some(('\'', 6))
    } else if crate::text::chars_start_with_at(v, i, &num39) {
        Some(('\'', 5))
    } else if crate::text::chars_start_with_at(v, i, &nbsp) {
        Some(('\u{a0}', 6))
    } else {
        None
    }
}

/// Replace the character references `&amp;`, `&lt;`, `&gt;`, `&quot;`,
/// `&apos;`, `&#39;` and `&nbsp;` by the characters they stand for
pub fn decode_html_entities(text: &str) -> (r: String)
    ensures
        r@ == spec_decode_html_entities(text@),
{
    let v = chars_of(text);
    let mut out: Vec<char> = Vec::new();
    let mut i: usize = 0;
    assert(out@ + decode_from(v@, 0) =~= decode_from(v@, 0));
    while i < v.len()
        invariant
            i <= v.len(),
            v@ == text@,
            decode_from(v@, 0) == out@ + decode_from(v@, i as int),
        decreases v.len() - i,
    {
        let ghost before = out@;
        match entity_at_exec(&v, i) {
            Some((c, n)) => {
                if n > 0 && n <= v.len() - i {
                    out.push(c);
                    assert(out@ + decode_from(v@, i + n) =~= before + (seq![c] + decode_from(v@, i + n)));
                    i = i + n;
                } else {
                    out.push(v[i]);
                    assert(out@ + decode_from(v@, i + 1) =~= before + (seq![v@[i as int]] + decode_from(v@, i + 1)));
                    i = i + 1;
                }
            },
            None => {
                out.push(v[i]);
                assert(out@ + decode_from(v@, i + 1) =~= before + (seq![v@[i as int]] + decode_from(v@, i + 1)));
                i = i + 1;
            },
        }
    }
    assert(out@ + decode_from(v@, i as int) =~= out@);
    crate::text::string_of(&out)
}

} // verus!
