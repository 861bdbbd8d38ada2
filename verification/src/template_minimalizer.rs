//! Template minimalization for dom-expressions style output
//!
//! A standard HTML template is parsed into nodes and serialized again, with
//! quotes left off attribute values that need none and closing tags left
//! off along the path of last children, where the browser closes them.

use vstd::prelude::*;
use crate::html_subset_parser::{HtmlNode, HtmlNodeV, attrs_view, lemma_nodes_view, node_view, nodes_view, parse, spec_parse};
use crate::options::DomExpressionsOptions;
use crate::text::{chars_of, char_is_alphanumeric, extend_str, is_alphanumeric_char, string_of};

verus! {

broadcast use vstd::string::group_string_axioms;

/// A character that an unquoted attribute value may hold.
pub open spec fn quote_free_char(c: char) -> bool {
    is_alphanumeric_char(c) || c == '-' || c == '_' || c == '.' || c == ':'
}

/// A non-empty value made only of alphanumerics, `-`, `_`, `.` and `:`.
pub open spec fn spec_can_omit_quotes(v: Seq<char>) -> bool {
    v.len() > 0 && forall|k: int| 0 <= k < v.len() ==> quote_free_char(#[trigger] v[k])
}

/// An attribute as written: ` name`, ` name=value` or ` name="value"`.
pub open spec fn attr_text(a: (Seq<char>, Seq<char>), omit_quotes: bool) -> Seq<char> {
    if a.1.len() == 0 {
        " "@ + a.0
    } else if omit_quotes && spec_can_omit_quotes(a.1) {
        " "@ + a.0 + "="@ + a.1
    } else {
        " "@ + a.0 + "=\""@ + a.1 + "\""@
    }
}

pub open spec fn attrs_text(attrs: Seq<(Seq<char>, Seq<char>)>, omit_quotes: bool) -> Seq<char>
    decreases attrs.len(),
{
    if attrs.len() == 0 {
        Seq::empty()
    } else {
        attrs_text(attrs.drop_last(), omit_quotes) + attr_text(attrs.last(), omit_quotes)
    }
}

pub open spec fn has_element_child(cs: Seq<HtmlNodeV>) -> bool {
    exists|k: int| 0 <= k < cs.len() && #[trigger] cs[k] is Element
}

pub open spec fn has_text_child(cs: Seq<HtmlNodeV>) -> bool {
    exists|k: int| 0 <= k < cs.len() && #[trigger] cs[k] is Text
}

/// A node as serialized. On the last-child path the closing tag is left off
/// when `omit_closing` holds, and the children of an element that mixes
/// text and elements are left off.
pub open spec fn ser_node(n: HtmlNodeV, omit_quotes: bool, omit_closing: bool, last: bool) -> Seq<char>
    decreases n, 0int,
{
    match n {
        HtmlNodeV::Text(t) => t,
        HtmlNodeV::Marker => "<!>"@,
        HtmlNodeV::Element { tag, attributes, children, is_void } => {
            let open = "<"@ + tag + attrs_text(attributes, omit_quotes) + ">"@;
            if is_void {
                open
            } else {
                let stop = last && has_element_child(children) && has_text_child(children);
                let inner = if stop {
                    Seq::empty()
                } else {
                    ser_children(children, omit_quotes, omit_closing, last, children.len() as int)
                };
                let close = if omit_closing && last { Seq::empty() } else { "</"@ + tag + ">"@ };
                open + inner + close
            }
        },
    }
}

/// The first `i` children; a child stays on the last-child path when it is
/// the last child and an element.
pub open spec fn ser_children(
    cs: Seq<HtmlNodeV>,
    omit_quotes: bool,
    omit_closing: bool,
    last: bool,
    i: int,
) -> Seq<char>
    decreases cs, i,
{
    if i <= 0 || i > cs.len() {
        Seq::empty()
    } else {
        let k = i - 1;
        ser_children(cs, omit_quotes, omit_closing, last, k) + ser_node(
            cs[k],
            omit_quotes,
            omit_closing,
            last && k == cs.len() - 1 && cs[k] is Element,
        )
    }
}

/// The first `i` nodes of a list; at the root the last node is on the last-child path.
pub open spec fn ser_list(ns: Seq<HtmlNodeV>, omit_quotes: bool, omit_closing: bool, is_root: bool, i: int) -> Seq<
    char,
>
    decreases i,
{
    if i <= 0 || i > ns.len() {
        Seq::empty()
    } else {
        let k = i - 1;
        ser_list(ns, omit_quotes, omit_closing, is_root, k) + ser_node(
            ns[k],
            omit_quotes,
            omit_closing,
            is_root && k == ns.len() - 1,
        )
    }
}

/// The minimalized form of a template.
pub open spec fn spec_minimalize(html: Seq<char>, omit_quotes: bool, omit_closing: bool) -> Seq<char> {
    let ns = spec_parse(html);
    ser_list(ns, omit_quotes, omit_closing, true, ns.len() as int)
}

/// Check if attribute value can be written without quotes
pub fn can_omit_quotes(value: &str) -> (r: bool)
    ensures
        r == spec_can_omit_quotes(value@),
{
    let v = chars_of(value);
    if v.len() == 0 {
        return false;
    }
    let n = v.len();
    for k in 0..n
        invariant
            n == v.len(),
            v@ == value@,
            forall|j: int| 0 <= j < k ==> quote_free_char(#[trigger] v@[j]),
    {
        let c = v[k];
        if !(char_is_alphanumeric(c) || c == '-' || c == '_' || c == '.' || c == ':') {
            assert(!quote_free_char(v@[k as int]));
            return false;
        }
    }
    true
}

fn push_attrs_text(out: &mut Vec<char>, attributes: &Vec<(String, String)>, omit_quotes: bool)
    ensures
        final(out)@ == old(out)@ + attrs_text(attrs_view(attributes@), omit_quotes),
{
    let ghost a = attrs_view(attributes@);
    let n = attributes.len();
    assert(a.take(0) =~= Seq::<(Seq<char>, Seq<char>)>::empty());
    for k in 0..n
        invariant
            n == attributes.len(),
            a == attrs_view(attributes@),
            out@ == old(out)@ + attrs_text(a.take(k as int), omit_quotes),
    {
        let name = &attributes[k].0;
        let value = &attributes[k].1;
        let ghost before = out@;
        extend_str(out, " ");
        extend_str(out, name.as_str());
        let vc = chars_of(value.as_str());
        if vc.len() > 0 {
            if omit_quotes && can_omit_quotes(value.as_str()) {
                extend_str(out, "=");
                extend_str(out, value.as_str());
            } else {
                extend_str(out, "=\"");
                extend_str(out, value.as_str());
                extend_str(out, "\"");
            }
        }
        assert(out@ =~= before + attr_text(a[k as int], omit_quotes));
        assert(a.take(k + 1).drop_last() =~= a.take(k as int));
    }
    assert(a.take(n as int) =~= a);
}

/// Serialize a single node
pub fn serialize_node(
    node: &HtmlNode,
    options: &DomExpressionsOptions,
    on_last_path: bool,
    is_last_sibling: bool,
) -> (r: String)
    ensures
        r@ == ser_node(node_view(*node), options.omit_quotes, options.omit_last_closing_tag, on_last_path),
    decreases node,
{
    let oq = options.omit_quotes;
    let oc = options.omit_last_closing_tag;
    match node {
        HtmlNode::Text(t) => {
            let v = chars_of(t.as_str());
            string_of(&v)
        },
        HtmlNode::Marker => {
            let v = chars_of("<!>");
            string_of(&v)
        },
        HtmlNode::Element { tag, attributes, children, is_void } => {
            let ghost cv = nodes_view(children@);
            proof {
                lemma_nodes_view(children@);
            }
            let mut out: Vec<char> = Vec::new();
            extend_str(&mut out, "<");
            extend_str(&mut out, tag.as_str());
            push_attrs_text(&mut out, attributes, oq);
            extend_str(&mut out, ">");
            let ghost open = out@;
            assert(open =~= "<"@ + tag@ + attrs_text(attrs_view(attributes@), oq) + ">"@);
            if *is_void {
                return string_of(&out);
            }
            let n = children.len();
            let mut has_el = false;
            let mut has_text = false;
            for k in 0..n
                invariant
                    n == children.len(),
                    cv == nodes_view(children@),
                    cv.len() == n,
                    forall|j: int| 0 <= j < n ==> #[trigger] cv[j] == node_view(children@[j]),
                    has_el == (exists|j: int| 0 <= j < k && #[trigger] cv[j] is Element),
                    has_text == (exists|j: int| 0 <= j < k && #[trigger] cv[j] is Text),
            {
                let ghost c = cv[k as int];
                match &children[k] {
                    HtmlNode::Element { .. } => {
                        has_el = true;
                    },
                    HtmlNode::Text(_) => {
                        has_text = true;
                    },
                    HtmlNode::Marker => {},
                }
                assert(c is Element ==> has_el);
                assert(c is Text ==> has_text);
            }
            let stop = on_last_path && has_el && has_text;
            if !stop {
                for k in 0..n
                    invariant
                        n == children.len(),
                        cv == nodes_view(children@),
                        cv.len() == n,
                        forall|j: int| 0 <= j < n ==> #[trigger] cv[j] == node_view(children@[j]),
                        out@ == open + ser_children(cv, oq, oc, on_last_path, k as int),
                        oq == options.omit_quotes,
                        oc == options.omit_last_closing_tag,
                        *node == (HtmlNode::Element {
                            tag: *tag,
                            attributes: *attributes,
                            children: *children,
                            is_void: *is_void,
                        }),
                {
                    let child_last = k == n - 1;
                    let child_is_element = match &children[k] {
                        HtmlNode::Element { .. } => true,
                        _ => false,
                    };
                    assert(child_is_element == (cv[k as int] is Element));
                    proof {
                        assert(decreases_to!(*node => (*node)->children));
                        assert(decreases_to!(*children => children@));
                        assert(decreases_to!(children@ => children@[k as int]));
                    }
                    let s = serialize_node(&children[k], options, on_last_path && child_last && child_is_element, child_last);
                    extend_str(&mut out, s.as_str());
                }
            } else {
                assert(out@ =~= open + Seq::<char>::empty());
            }
            let ghost mid = out@;
            if !(oc && on_last_path) {
                extend_str(&mut out, "</");
                extend_str(&mut out, tag.as_str());
                extend_str(&mut out, ">");
                assert(out@ =~= mid + ("</"@ + tag@ + ">"@));
            } else {
                assert(out@ =~= mid + Seq::<char>::empty());
            }
            string_of(&out)
        },
    }
}

/// Serialize HTML nodes back to string with minimization
pub fn serialize_html(nodes: &Vec<HtmlNode>, options: &DomExpressionsOptions, is_root: bool) -> (r: String)
    ensures
        r@ == ser_list(
            nodes_view(nodes@),
            options.omit_quotes,
            options.omit_last_closing_tag,
            is_root,
            nodes@.len() as int,
        ),
{
    let ghost nv = nodes_view(nodes@);
    proof {
        lemma_nodes_view(nodes@);
    }
    let mut out: Vec<char> = Vec::new();
    let n = nodes.len();
    for k in 0..n
        invariant
            n == nodes.len(),
            nv == nodes_view(nodes@),
            nv.len() == n,
            forall|j: int| 0 <= j < n ==> #[trigger] nv[j] == node_view(nodes@[j]),
            out@ == ser_list(nv, options.omit_quotes, options.omit_last_closing_tag, is_root, k as int),
    {
        let is_last = k == n - 1;
        let s = serialize_node(&nodes[k], options, is_root && is_last, is_last);
        extend_str(&mut out, s.as_str());
    }
    string_of(&out)
}

/// Minimalize an HTML template string according to dom-expressions rules
pub fn minimalize_template(html: &str, options: &DomExpressionsOptions) -> (r: String)
    ensures
        r@ == spec_minimalize(html@, options.omit_quotes, options.omit_last_closing_tag),
{
    let nodes = parse(html);
    proof {
        lemma_nodes_view(nodes@);
    }
    serialize_html(&nodes, options, true)
}

} // verus!
