//! A parser for the subset of HTML that templates are written in.
//!
//! Templates hold elements with quoted or bare attributes, text, void
//! elements without a closing tag and `<!>` insertion markers. The parser
//! turns such a string into a tree of [`HtmlNode`]s; the minimalizer
//! serializes that tree again.

use vstd::prelude::*;
use crate::text::push_char;
use crate::utils::{is_void_element, spec_is_void_element};

verus! {

broadcast use vstd::string::group_string_axioms;

/// A node of a parsed template.
#[derive(Debug, PartialEq)]
pub enum HtmlNode {
    /// Text between tags, as written.
    Text(String),
    /// The `<!>` insertion marker.
    Marker,
    /// An element with its attributes (name, value; an empty value for a
    /// bare attribute) and children.
    Element { tag: String, attributes: Vec<(String, String)>, children: Vec<HtmlNode>, is_void: bool },
}

/// The mathematical value of a node.
pub enum HtmlNodeV {
    Text(Seq<char>),
    Marker,
    Element {
        tag: Seq<char>,
        attributes: Seq<(Seq<char>, Seq<char>)>,
        children: Seq<HtmlNodeV>,
        is_void: bool,
    },
}

pub open spec fn attrs_view(a: Seq<(String, String)>) -> Seq<(Seq<char>, Seq<char>)> {
    a.map_values(|p: (String, String)| (p.0@, p.1@))
}

/// The value of a node.
pub open spec fn node_view(n: HtmlNode) -> HtmlNodeV
    decreases n, 0int,
{
    match n {
        HtmlNode::Text(t) => HtmlNodeV::Text(t@),
        HtmlNode::Marker => HtmlNodeV::Marker,
        HtmlNode::Element { tag, attributes, children, is_void } => HtmlNodeV::Element {
            tag: tag@,
            attributes: attrs_view(attributes@),
            children: nodes_view_upto(children@, children@.len() as int),
            is_void,
        },
    }
}

/// The values of the first `i` nodes.
pub open spec fn nodes_view_upto(ns: Seq<HtmlNode>, i: int) -> Seq<HtmlNodeV>
    decreases ns, i,
{
    if i <= 0 || i > ns.len() {
        Seq::empty()
    } else {
        nodes_view_upto(ns, i - 1).push(node_view(ns[i - 1]))
    }
}

/// The values of a list of nodes.
pub open spec fn nodes_view(ns: Seq<HtmlNode>) -> Seq<HtmlNodeV> {
    nodes_view_upto(ns, ns.len() as int)
}

pub proof fn lemma_nodes_view_upto(ns: Seq<HtmlNode>, i: int)
    requires
        0 <= i <= ns.len(),
    ensures
        nodes_view_upto(ns, i).len() == i,
        forall|k: int| 0 <= k < i ==> #[trigger] nodes_view_upto(ns, i)[k] == node_view(ns[k]),
    decreases i,
{
    if i > 0 {
        lemma_nodes_view_upto(ns, i - 1);
    }
}

pub proof fn lemma_nodes_view(ns: Seq<HtmlNode>)
    ensures
        nodes_view(ns).len() == ns.len(),
        forall|k: int| 0 <= k < ns.len() ==> #[trigger] nodes_view(ns)[k] == node_view(ns[k]),
{
    lemma_nodes_view_upto(ns, ns.len() as int);
}

pub proof fn lemma_nodes_view_push(ns: Seq<HtmlNode>, n: HtmlNode)
    ensures
        nodes_view(ns.push(n)) == nodes_view(ns).push(node_view(n)),
{
    lemma_nodes_view(ns);
    lemma_nodes_view(ns.push(n));
    assert(nodes_view(ns.push(n)) =~= nodes_view(ns).push(node_view(n)));
}

// ---------------------------------------------------------------------------
// The grammar, as functions on positions in the text
// ---------------------------------------------------------------------------

pub open spec fn is_space(c: char) -> bool {
    c == ' ' || c == '\t' || c == '\n' || c == '\r'
}

/// A character that ends a tag or attribute name.
pub open spec fn ends_name(c: char) -> bool {
    is_space(c) || c == '>' || c == '/' || c == '='
}

/// The end of the text that starts at `i`: the next `<`, or the end.
pub open spec fn text_end(s: Seq<char>, i: int) -> int
    decreases s.len() - i,
{
    if i < 0 || i >= s.len() || s[i] == '<' {
        i
    } else {
        text_end(s, i + 1)
    }
}

/// The end of the name that starts at `i`.
pub open spec fn name_end(s: Seq<char>, i: int) -> int
    decreases s.len() - i,
{
    if i < 0 || i >= s.len() || ends_name(s[i]) {
        i
    } else {
        name_end(s, i + 1)
    }
}

/// The first position at or after `i` that is not white space.
pub open spec fn skip_space(s: Seq<char>, i: int) -> int
    decreases s.len() - i,
{
    if i < 0 || i >= s.len() || !is_space(s[i]) {
        i
    } else {
        skip_space(s, i + 1)
    }
}

/// The position of the next `"` at or after `i`, or the end.
pub open spec fn quote_end(s: Seq<char>, i: int) -> int
    decreases s.len() - i,
{
    if i < 0 || i >= s.len() || s[i] == '"' {
        i
    } else {
        quote_end(s, i + 1)
    }
}

/// The end of a bare attribute value: white space, `>` or the end.
pub open spec fn bare_value_end(s: Seq<char>, i: int) -> int
    decreases s.len() - i,
{
    if i < 0 || i >= s.len() || is_space(s[i]) || s[i] == '>' {
        i
    } else {
        bare_value_end(s, i + 1)
    }
}

/// The position after the next `>` at or after `i`, or the end.
pub open spec fn close_tag_end(s: Seq<char>, i: int) -> int
    decreases s.len() - i,
{
    if i < 0 || i >= s.len() {
        i
    } else if s[i] == '>' {
        i + 1
    } else {
        close_tag_end(s, i + 1)
    }
}

pub open spec fn at_marker(s: Seq<char>, i: int) -> bool {
    0 <= i && i + 2 < s.len() && s[i] == '<' && s[i + 1] == '!' && s[i + 2] == '>'
}

pub open spec fn at_closing_tag(s: Seq<char>, i: int) -> bool {
    0 <= i && i + 1 < s.len() && s[i] == '<' && s[i + 1] == '/'
}

/// The value of the attribute whose name ends at `n`, and the position after it:
/// `="..."`, `=bare`, or nothing (an empty value).
pub open spec fn attr_value(s: Seq<char>, n: int) -> (Seq<char>, int) {
    if 0 <= n < s.len() && s[n] == '=' {
        if n + 1 < s.len() && s[n + 1] == '"' {
            let q = quote_end(s, n + 2);
            (s.subrange(n + 2, q), if q < s.len() { q + 1 } else { q })
        } else {
            let e = bare_value_end(s, n + 1);
            (s.subrange(n + 1, e), e)
        }
    } else {
        (Seq::empty(), n)
    }
}

/// The attributes from `i` up to the `>` or `/` that ends the opening tag.
/// A stray `=` is skipped.
pub open spec fn parse_attrs(s: Seq<char>, i: int) -> (Seq<(Seq<char>, Seq<char>)>, int)
    decreases s.len() - i,
{
    let p = skip_space(s, i);
    if p < i || p >= s.len() || s[p] == '>' || s[p] == '/' {
        (Seq::empty(), p)
    } else {
        let n = name_end(s, p);
        if n <= p {
            parse_attrs(s, p + 1)
        } else {
            let (v, j) = attr_value(s, n);
            if j <= i || j > s.len() {
                (seq![(s.subrange(p, n), v)], j)
            } else {
                let (rest, k) = parse_attrs(s, j);
                (seq![(s.subrange(p, n), v)] + rest, k)
            }
        }
    }
}

/// The element whose opening `<` is at `i`, and the position after it.
///
/// The tag name runs to white space, `>` or `/`; the attributes follow.
/// An element closed by `/>`, or whose tag is a void element, has no
/// children. Otherwise the children run to the next closing tag, which is
/// consumed whatever its name.
pub open spec fn parse_element(s: Seq<char>, i: int) -> (HtmlNodeV, int)
    decreases s.len() - i, 0int,
{
    let te = name_end(s, i + 1);
    let tag = s.subrange(i + 1, te);
    let (attrs, p) = parse_attrs(s, te);
    let self_closing = 0 <= p && p + 1 < s.len() && s[p] == '/' && s[p + 1] == '>';
    let after_open = if self_closing { p + 2 } else if 0 <= p < s.len() { p + 1 } else { p };
    let is_void = self_closing || spec_is_void_element(tag);
    if is_void || after_open <= i || after_open > s.len() {
        (HtmlNodeV::Element { tag, attributes: attrs, children: Seq::empty(), is_void }, after_open)
    } else {
        let (children, k) = parse_nodes(s, after_open);
        let end = if at_closing_tag(s, k) { close_tag_end(s, k) } else { k };
        (HtmlNodeV::Element { tag, attributes: attrs, children, is_void }, end)
    }
}

/// The node at `i`: a marker, an element, or text up to the next `<`.
pub open spec fn parse_node(s: Seq<char>, i: int) -> (HtmlNodeV, int)
    decreases s.len() - i, 1int,
{
    if at_marker(s, i) {
        (HtmlNodeV::Marker, i + 3)
    } else if 0 <= i && i + 1 < s.len() && s[i] == '<' {
        parse_element(s, i)
    } else {
        let e = text_end(s, i + 1);
        (HtmlNodeV::Text(s.subrange(i, e)), e)
    }
}

/// The nodes from `i` up to a closing tag or the end, and where they stop.
pub open spec fn parse_nodes(s: Seq<char>, i: int) -> (Seq<HtmlNodeV>, int)
    decreases s.len() - i, 2int,
{
    if i < 0 || i >= s.len() || at_closing_tag(s, i) {
        (Seq::empty(), i)
    } else {
        let (n, j) = parse_node(s, i);
        if j <= i || j > s.len() {
            (seq![n], j)
        } else {
            let (rest, k) = parse_nodes(s, j);
            (seq![n] + rest, k)
        }
    }
}

/// The nodes of a template; a stray closing tag at the top ends the parse.
pub open spec fn spec_parse(s: Seq<char>) -> Seq<HtmlNodeV> {
    parse_nodes(s, 0).0
}

// ---------------------------------------------------------------------------
// The parser
// ---------------------------------------------------------------------------

fn text_end_exec(s: &Vec<char>, i: usize) -> (r: usize)
    requires
        i <= s.len(),
    ensures
        r == text_end(s@, i as int),
        i <= r <= s.len(),
{
    let mut j = i;
    while j < s.len() && s[j] != '<'
        invariant
            i <= j <= s.len(),
            text_end(s@, i as int) == text_end(s@, j as int),
        decreases s.len() - j,
    {
        j = j + 1;
    }
    j
}

fn name_end_exec(s: &Vec<char>, i: usize) -> (r: usize)
    requires
        i <= s.len(),
    ensures
        r == name_end(s@, i as int),
        i <= r <= s.len(),
{
    let mut j = i;
    while j < s.len() && !(s[j] == ' ' || s[j] == '\t' || s[j] == '\n' || s[j] == '\r' || s[j] == '>'
        || s[j] == '/' || s[j] == '=')
        invariant
            i <= j <= s.len(),
            name_end(s@, i as int) == name_end(s@, j as int),
        decreases s.len() - j,
    {
        j = j + 1;
    }
    j
}

fn skip_space_exec(s: &Vec<char>, i: usize) -> (r: usize)
    requires
        i <= s.len(),
    ensures
        r == skip_space(s@, i as int),
        i <= r <= s.len(),
{
    let mut j = i;
    while j < s.len() && (s[j] == ' ' || s[j] == '\t' || s[j] == '\n' || s[j] == '\r')
        invariant
            i <= j <= s.len(),
            skip_space(s@, i as int) == skip_space(s@, j as int),
        decreases s.len() - j,
    {
        j = j + 1;
    }
    j
}

fn quote_end_exec(s: &Vec<char>, i: usize) -> (r: usize)
    requires
        i <= s.len(),
    ensures
        r == quote_end(s@, i as int),
        i <= r <= s.len(),
{
    let mut j = i;
    while j < s.len() && s[j] != '"'
        invariant
            i <= j <= s.len(),
            quote_end(s@, i as int) == quote_end(s@, j as int),
        decreases s.len() - j,
    {
        j = j + 1;
    }
    j
}

fn bare_value_end_exec(s: &Vec<char>, i: usize) -> (r: usize)
    requires
        i <= s.len(),
    ensures
        r == bare_value_end(s@, i as int),
        i <= r <= s.len(),
{
    let mut j = i;
    while j < s.len() && !(s[j] == ' ' || s[j] == '\t' || s[j] == '\n' || s[j] == '\r' || s[j] == '>')
        invariant
            i <= j <= s.len(),
            bare_value_end(s@, i as int) == bare_value_end(s@, j as int),
        decreases s.len() - j,
    {
        j = j + 1;
    }
    j
}

fn close_tag_end_exec(s: &Vec<char>, i: usize) -> (r: usize)
    requires
        i <= s.len(),
    ensures
        r == close_tag_end(s@, i as int),
        i <= r <= s.len(),
{
    let mut j = i;
    while j < s.len() && s[j] != '>'
        invariant
            i <= j <= s.len(),
            close_tag_end(s@, i as int) == close_tag_end(s@, j as int),
        decreases s.len() - j,
    {
        j = j + 1;
    }
    if j < s.len() {
        j + 1
    } else {
        j
    }
}

/// The characters of `s` from `a` up to `b`, as a `String`.
fn sub_string(s: &Vec<char>, a: usize, b: usize) -> (r: String)
    requires
        a <= b <= s.len(),
    ensures
        r@ == s@.subrange(a as int, b as int),
{
    let mut r = String::new();
    let mut k = a;
    while k < b
        invariant
            a <= k <= b <= s.len(),
            r@ == s@.subrange(a as int, k as int),
        decreases b - k,
    {
        push_char(&mut r, s[k]);
        assert(s@.subrange(a as int, k + 1) == s@.subrange(a as int, k as int).push(s@[k as int]));
        k = k + 1;
    }
    r
}

fn attr_value_exec(s: &Vec<char>, n: usize) -> (r: (String, usize))
    requires
        n <= s.len(),
    ensures
        (r.0@, r.1 as int) == attr_value(s@, n as int),
        r.1 <= s.len(),
{
    if n < s.len() && s[n] == '=' {
        if n + 1 < s.len() && s[n + 1] == '"' {
            let q = quote_end_exec(s, n + 2);
            let v = sub_string(s, n + 2, q);
            (v, if q < s.len() { q + 1 } else { q })
        } else {
            let e = bare_value_end_exec(s, n + 1);
            (sub_string(s, n + 1, e), e)
        }
    } else {
        (String::new(), n)
    }
}

fn parse_attrs_exec(s: &Vec<char>, i: usize) -> (r: (Vec<(String, String)>, usize))
    requires
        i <= s.len(),
    ensures
        (attrs_view(r.0@), r.1 as int) == parse_attrs(s@, i as int),
        r.1 <= s.len(),
{
    let mut acc: Vec<(String, String)> = Vec::new();
    let mut j = i;
    assert(attrs_view(acc@) + parse_attrs(s@, j as int).0 =~= parse_attrs(s@, j as int).0);
    loop
        invariant
            j <= s.len(),
            parse_attrs(s@, i as int) == (attrs_view(acc@) + parse_attrs(s@, j as int).0, parse_attrs(
                s@,
                j as int,
            ).1),
        decreases s.len() - j,
    {
        let p = skip_space_exec(s, j);
        if p >= s.len() || s[p] == '>' || s[p] == '/' {
            assert(attrs_view(acc@) + Seq::empty() =~= attrs_view(acc@));
            return (acc, p);
        }
        let n = name_end_exec(s, p);
        if n <= p {
            j = p + 1;
        } else {
            let (v, jj) = attr_value_exec(s, n);
            let name = sub_string(s, p, n);
            let ghost old_acc = acc@;
            acc.push((name, v));
            assert(attrs_view(acc@) =~= attrs_view(old_acc).push((s@.subrange(p as int, n as int), v@)));
            if jj <= j || jj > s.len() {
                assert(attrs_view(acc@) =~= attrs_view(old_acc) + seq![(s@.subrange(p as int, n as int), v@)]);
                return (acc, jj);
            }
            let ghost rest = parse_attrs(s@, jj as int);
            assert(attrs_view(acc@) + rest.0 =~= attrs_view(old_acc) + (seq![
                (s@.subrange(p as int, n as int), v@),
            ] + rest.0));
            j = jj;
        }
    }
}

fn at_marker_exec(s: &Vec<char>, i: usize) -> (r: bool)
    ensures
        r == at_marker(s@, i as int),
{
    i < s.len() && s.len() - i > 2 && s[i] == '<' && s[i + 1] == '!' && s[i + 2] == '>'
}

fn at_closing_tag_exec(s: &Vec<char>, i: usize) -> (r: bool)
    ensures
        r == at_closing_tag(s@, i as int),
{
    i < s.len() && s.len() - i > 1 && s[i] == '<' && s[i + 1] == '/'
}

fn parse_element_exec(s: &Vec<char>, i: usize) -> (r: (HtmlNode, usize))
    requires
        i + 1 < s.len(),
    ensures
        (node_view(r.0), r.1 as int) == parse_element(s@, i as int),
        r.1 <= s.len(),
    decreases s.len() - i, 0int,
{
    let te = name_end_exec(s, i + 1);
    let tag = sub_string(s, i + 1, te);
    let (attributes, p) = parse_attrs_exec(s, te);
    let self_closing = p < s.len() && s.len() - p > 1 && s[p] == '/' && s[p + 1] == '>';
    let after_open = if self_closing {
        p + 2
    } else if p < s.len() {
        p + 1
    } else {
        p
    };
    let is_void = self_closing || is_void_element(tag.as_str());
    if is_void || after_open <= i || after_open > s.len() {
        let children: Vec<HtmlNode> = Vec::new();
        assert(nodes_view(children@) =~= Seq::<HtmlNodeV>::empty());
        (HtmlNode::Element { tag, attributes, children, is_void }, after_open)
    } else {
        let (children, k) = parse_nodes_exec(s, after_open);
        let end = if at_closing_tag_exec(s, k) {
            close_tag_end_exec(s, k)
        } else {
            k
        };
        (HtmlNode::Element { tag, attributes, children, is_void }, end)
    }
}

fn parse_node_exec(s: &Vec<char>, i: usize) -> (r: (HtmlNode, usize))
    requires
        i < s.len(),
    ensures
        (node_view(r.0), r.1 as int) == parse_node(s@, i as int),
        r.1 <= s.len(),
    decreases s.len() - i, 1int,
{
    if at_marker_exec(s, i) {
        (HtmlNode::Marker, i + 3)
    } else if i + 1 < s.len() && s[i] == '<' {
        parse_element_exec(s, i)
    } else {
        let e = text_end_exec(s, i + 1);
        (HtmlNode::Text(sub_string(s, i, e)), e)
    }
}

fn parse_nodes_exec(s: &Vec<char>, i: usize) -> (r: (Vec<HtmlNode>, usize))
    requires
        i <= s.len(),
    ensures
        (nodes_view(r.0@), r.1 as int) == parse_nodes(s@, i as int),
        r.1 <= s.len(),
    decreases s.len() - i, 2int,
{
    let mut acc: Vec<HtmlNode> = Vec::new();
    let mut j = i;
    assert(nodes_view(acc@) + parse_nodes(s@, j as int).0 =~= parse_nodes(s@, j as int).0);
    loop
        invariant
            i <= j <= s.len(),
            parse_nodes(s@, i as int) == (nodes_view(acc@) + parse_nodes(s@, j as int).0, parse_nodes(
                s@,
                j as int,
            ).1),
        decreases s.len() - j,
    {
        if j >= s.len() || at_closing_tag_exec(s, j) {
            assert(nodes_view(acc@) + Seq::empty() =~= nodes_view(acc@));
            return (acc, j);
        }
        let (n, jj) = parse_node_exec(s, j);
        let ghost old_acc = acc@;
        proof {
            lemma_nodes_view_push(old_acc, n);
        }
        acc.push(n);
        if jj <= j {
            assert(nodes_view(acc@) =~= nodes_view(old_acc) + seq![node_view(n)]);
            return (acc, jj);
        }
        let ghost rest = parse_nodes(s@, jj as int);
        assert(nodes_view(acc@) + rest.0 =~= nodes_view(old_acc) + (seq![node_view(n)] + rest.0));
        j = jj;
    }
}

/// Parse a template into its nodes.
pub fn parse(html: &str) -> (r: Vec<HtmlNode>)
    ensures
        nodes_view(r@) == spec_parse(html@),
{
    let mut s: Vec<char> = Vec::new();
    crate::text::extend_str(&mut s, html);
    assert(s@ =~= html@);
    let (nodes, _end) = parse_nodes_exec(&s, 0);
    nodes
}

} // verus!
