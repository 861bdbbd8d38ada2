//! Normalisation of generated code to the babel plugin's formatting.

use vstd::prelude::*;
use crate::text::{chars_of, replace_chars, string_of, replace_all, has_prefix, has_char};

verus! {

/// The three rewrites, in order: oxc's pure comment to babel's, tabs to two
/// spaces, and a line break before each further template variable.
pub open spec fn normalized(code: Seq<char>) -> Seq<char> {
    let a = replace_all(code, "/* @__PURE__ */"@, "/*#__PURE__*/"@);
    let b = replace_all(a, "\t"@, "  "@);
    replace_all(b, ", _tmpl$"@, ",\n  _tmpl$"@)
}

/// Normalizer for babel plugin output compatibility
pub struct BabelOutputNormalizer;

impl BabelOutputNormalizer {
    /// Normalize generated code to match babel plugin output format:
    /// - Converts `/* @__PURE__ */` to `/*#__PURE__*/` (babel format)
    /// - Replaces tabs with double spaces (babel formatting)
    /// - Formats template variable declarations with proper line breaks
    pub fn normalize(code: &str) -> (r: String)
        ensures
            r@ == normalized(code@),
    {
        proof {
            reveal_strlit("/* @__PURE__ */");
            reveal_strlit("\t");
            reveal_strlit(", _tmpl$");
        }
        let s = chars_of(code);
        let p1 = chars_of("/* @__PURE__ */");
        let r1 = chars_of("/*#__PURE__*/");
        let a = replace_chars(&s, &p1, &r1);
        let p2 = chars_of("\t");
        let r2 = chars_of("  ");
        let b = replace_chars(&a, &p2, &r2);
        let p3 = chars_of(", _tmpl$");
        let r3 = chars_of(",\n  _tmpl$");
        let c = replace_chars(&b, &p3, &r3);
        string_of(&c)
    }
}

/// `p` occurs somewhere in `s`.
pub open spec fn occurs(s: Seq<char>, p: Seq<char>) -> bool {
    exists|i: int| 0 <= i <= s.len() && #[trigger] has_prefix(s.skip(i), p)
}

proof fn lemma_replace_absent(s: Seq<char>, p: Seq<char>, r: Seq<char>)
    requires
        p.len() > 0,
        !occurs(s, p),
    ensures
        replace_all(s, p, r) == s,
    decreases s.len(),
{
    if s.len() > 0 {
        assert(s.skip(0) =~= s);
        assert(!has_prefix(s, p));
        assert(!occurs(s.skip(1), p)) by {
            if occurs(s.skip(1), p) {
                let i = choose|i: int| 0 <= i <= s.skip(1).len() && #[trigger] has_prefix(s.skip(1).skip(i), p);
                assert(s.skip(1).skip(i) =~= s.skip(i + 1));
                assert(has_prefix(s.skip(i + 1), p));
            }
        }
        lemma_replace_absent(s.skip(1), p, r);
        assert(seq![s[0]] + s.skip(1) =~= s);
    }
}

proof fn lemma_replace_char_gone(s: Seq<char>, c: char, r: Seq<char>)
    requires
        !has_char(r, c),
    ensures
        !has_char(replace_all(s, seq![c], r), c),
    decreases s.len(),
{
    if s.len() > 0 {
        let rest = replace_all(s.skip(1), seq![c], r);
        lemma_replace_char_gone(s.skip(1), c, r);
        if has_prefix(s, seq![c]) {
            assert(s.skip(seq![c].len() as int) == s.skip(1));
            let out = r + rest;
            assert forall|i: int| 0 <= i < out.len() implies out[i] != c by {
                if i < r.len() {
                    assert(out[i] == r[i]);
                } else {
                    assert(out[i] == rest[i - r.len()]);
                }
            }
        } else {
            assert(s[0] != c) by {
                if s[0] == c {
                    assert(s.subrange(0, 1) =~= seq![c]);
                }
            }
            let out = seq![s[0]] + rest;
            assert forall|i: int| 0 <= i < out.len() implies out[i] != c by {
                if i > 0 {
                    assert(out[i] == rest[i - 1]);
                }
            }
        }
    }
}

proof fn lemma_replace_keeps_char_absent(s: Seq<char>, p: Seq<char>, r: Seq<char>, c: char)
    requires
        p.len() > 0,
        !has_char(s, c),
        !has_char(r, c),
    ensures
        !has_char(replace_all(s, p, r), c),
    decreases s.len(),
{
    if s.len() > 0 {
        if has_prefix(s, p) {
            let t = s.skip(p.len() as int);
            assert(!has_char(t, c)) by {
                if has_char(t, c) {
                    let i = choose|i: int| 0 <= i < t.len() && t[i] == c;
                    assert(s[i + p.len()] == c);
                }
            }
            lemma_replace_keeps_char_absent(t, p, r, c);
            let rest = replace_all(t, p, r);
            let out = r + rest;
            assert forall|i: int| 0 <= i < out.len() implies out[i] != c by {
                if i >= r.len() {
                    assert(out[i] == rest[i - r.len()]);
                }
            }
        } else {
            let t = s.skip(1);
            assert(!has_char(t, c)) by {
                if has_char(t, c) {
                    let i = choose|i: int| 0 <= i < t.len() && t[i] == c;
                    assert(s[i + 1] == c);
                }
            }
            lemma_replace_keeps_char_absent(t, p, r, c);
            let rest = replace_all(t, p, r);
            let out = seq![s[0]] + rest;
            assert(s[0] != c);
            assert forall|i: int| 0 <= i < out.len() implies out[i] != c by {
                if i > 0 {
                    assert(out[i] == rest[i - 1]);
                }
            }
        }
    }
}

/// A pattern that the replacement cannot bring back: its first character
/// occurs nowhere else in it, and the replacement starts with that
/// character, never has it again, and differs from the pattern after it.
pub open spec fn self_clearing(p: Seq<char>, r: Seq<char>) -> bool {
    &&& p.len() >= 2
    &&& r.len() >= 2
    &&& r[0] == p[0]
    &&& r[1] != p[1]
    &&& forall|j: int| 1 <= j < p.len() ==> #[trigger] p[j] != p[0]
    &&& forall|j: int| 1 <= j < r.len() ==> #[trigger] r[j] != p[0]
}

proof fn lemma_prefix_through_replace(t: Seq<char>, p: Seq<char>, r: Seq<char>, w: Seq<char>)
    requires
        self_clearing(p, r),
        forall|j: int| 0 <= j < w.len() ==> w[j] != p[0],
        has_prefix(replace_all(t, p, r), w),
    ensures
        has_prefix(t, w),
    decreases t.len(),
{
    if w.len() > 0 {
        let out = replace_all(t, p, r);
        if t.len() == 0 {
            assert(out.len() == 0);
        } else if has_prefix(t, p) {
            let rest = replace_all(t.skip(p.len() as int), p, r);
            assert(out == r + rest);
            assert(out[0] == r[0]);
            assert(w[0] == out.subrange(0, w.len() as int)[0]);
            assert(w[0] != p[0]);
        } else {
            let rest = replace_all(t.skip(1), p, r);
            assert(out == seq![t[0]] + rest);
            assert(w[0] == out.subrange(0, w.len() as int)[0]);
            assert(has_prefix(rest, w.skip(1))) by {
                assert(rest.subrange(0, w.len() - 1) =~= out.subrange(0, w.len() as int).skip(1));
            }
            lemma_prefix_through_replace(t.skip(1), p, r, w.skip(1));
            assert(t.subrange(0, w.len() as int) =~= seq![t[0]] + t.skip(1).subrange(0, w.len() - 1));
            assert(w =~= seq![w[0]] + w.skip(1));
        }
    } else {
        assert(t.subrange(0, 0) =~= w);
    }
}

/// Replacing a self-clearing pattern leaves no occurrence of it.
proof fn lemma_replace_clears(s: Seq<char>, p: Seq<char>, r: Seq<char>)
    requires
        self_clearing(p, r),
    ensures
        !occurs(replace_all(s, p, r), p),
    decreases s.len(),
{
    if s.len() > 0 {
        let out = replace_all(s, p, r);
        let (x, t) = if has_prefix(s, p) {
            (r, s.skip(p.len() as int))
        } else {
            (seq![s[0]], s.skip(1))
        };
        let rest = replace_all(t, p, r);
        assert(out == x + rest);
        lemma_replace_clears(t, p, r);
        if occurs(out, p) {
            let i = choose|i: int| 0 <= i <= out.len() && #[trigger] has_prefix(out.skip(i), p);
            assert(out.skip(i)[0] == p[0]) by {
                assert(out.skip(i).subrange(0, p.len() as int)[0] == p[0]);
            }
            if i >= x.len() {
                assert(out.skip(i) =~= rest.skip(i - x.len()));
                assert(has_prefix(rest.skip(i - x.len()), p));
            } else if has_prefix(s, p) {
                assert(out[i] == r[i]);
                assert(i == 0);
                assert(out[1] == r[1]);
                assert(out.skip(0).subrange(0, p.len() as int)[1] == p[1]);
            } else {
                assert(i == 0);
                assert(out[0] == s[0]);
                assert(has_prefix(rest, p.skip(1))) by {
                    assert(rest.subrange(0, p.len() - 1) =~= out.subrange(0, p.len() as int).skip(1));
                    assert(out.skip(0) =~= out);
                }
                lemma_prefix_through_replace(t, p, r, p.skip(1));
                assert(s.subrange(0, p.len() as int) =~= seq![s[0]] + t.subrange(0, p.len() - 1));
                assert(p =~= seq![p[0]] + p.skip(1));
            }
        }
    }
}

/// `a` and `b` agree wherever both have a character.
pub open spec fn compatible(a: Seq<char>, b: Seq<char>) -> bool {
    forall|j: int| 0 <= j < a.len() && j < b.len() ==> a[j] == b[j]
}

proof fn lemma_skip_skip(s: Seq<char>, a: int, b: int)
    requires
        0 <= a,
        0 <= b,
        a + b <= s.len(),
    ensures
        s.skip(a).skip(b) == s.skip(a + b),
{
    assert(s.skip(a).skip(b) =~= s.skip(a + b));
}

/// What the replaced text starts with, the text started with: `w` never
/// lines up with the replacement `r`, except that its last character may
/// be the first of `r` when `r` and `p` start alike.
proof fn lemma_prefix_back(t: Seq<char>, p: Seq<char>, r: Seq<char>, w: Seq<char>)
    requires
        p.len() > 0,
        r.len() > 0,
        forall|k: int| 0 <= k < w.len() ==> !compatible(#[trigger] w.skip(k), r) || (k == w.len() - 1 && r[0] == p[0]),
        has_prefix(replace_all(t, p, r), w),
    ensures
        has_prefix(t, w),
    decreases t.len(),
{
    if w.len() == 0 {
        assert(t.subrange(0, 0) =~= w);
    } else if t.len() == 0 {
    } else {
        let out = replace_all(t, p, r);
        if has_prefix(t, p) {
            let rest = replace_all(t.skip(p.len() as int), p, r);
            assert(out == r + rest);
            assert(w.skip(0) =~= w);
            assert(compatible(w, r)) by {
                assert forall|j: int| 0 <= j < w.len() && j < r.len() implies w[j] == r[j] by {
                    assert(w[j] == out.subrange(0, w.len() as int)[j]);
                }
            }
            assert(w.len() == 1);
            assert(t[0] == t.subrange(0, p.len() as int)[0]);
            assert(w[0] == out.subrange(0, 1)[0]);
            assert(t.subrange(0, 1) =~= w);
        } else {
            let rest = replace_all(t.skip(1), p, r);
            assert(out == seq![t[0]] + rest);
            let w1 = w.skip(1);
            assert(w[0] == out.subrange(0, w.len() as int)[0]);
            assert(has_prefix(rest, w1)) by {
                assert(rest.subrange(0, w1.len() as int) =~= out.subrange(0, w.len() as int).skip(1));
            }
            assert forall|k: int| 0 <= k < w1.len() implies !compatible(#[trigger] w1.skip(k), r) || (k == w1.len() - 1
                && r[0] == p[0]) by {
                lemma_skip_skip(w, 1, k);
                assert(!compatible(w.skip(k + 1), r) || (k + 1 == w.len() - 1 && r[0] == p[0]));
            }
            lemma_prefix_back(t.skip(1), p, r, w1);
            assert(t.subrange(0, w.len() as int) =~= seq![t[0]] + t.skip(1).subrange(0, w1.len() as int));
            assert(w =~= seq![w[0]] + w1);
        }
    }
}

proof fn lemma_no_occurrence_in_suffix(s: Seq<char>, q: Seq<char>, n: int)
    requires
        0 <= n <= s.len(),
        !occurs(s, q),
    ensures
        !occurs(s.skip(n), q),
{
    if occurs(s.skip(n), q) {
        let i = choose|i: int| 0 <= i <= s.skip(n).len() && #[trigger] has_prefix(s.skip(n).skip(i), q);
        lemma_skip_skip(s, n, i);
        assert(has_prefix(s.skip(n + i), q));
    }
}

/// Replacing `p` by `r` brings in no occurrence of `q` when no occurrence
/// of `q` can start inside `r`, and the rest of `q` never lines up with `r`.
proof fn lemma_replace_keeps_absent(s: Seq<char>, p: Seq<char>, r: Seq<char>, q: Seq<char>)
    requires
        p.len() > 0,
        r.len() > 0,
        q.len() > 0,
        forall|i: int| 0 <= i < r.len() ==> !compatible(#[trigger] r.skip(i), q),
        forall|k: int| 0 <= k < q.len() - 1 ==> !compatible(#[trigger] q.skip(1).skip(k), r),
        !occurs(s, q),
    ensures
        !occurs(replace_all(s, p, r), q),
    decreases s.len(),
{
    if s.len() > 0 {
        let out = replace_all(s, p, r);
        let pre = has_prefix(s, p);
        let n: int = if pre { p.len() as int } else { 1 };
        let x = if pre { r } else { seq![s[0]] };
        let t = s.skip(n);
        let rest = replace_all(t, p, r);
        assert(out == x + rest);
        lemma_no_occurrence_in_suffix(s, q, n);
        lemma_replace_keeps_absent(t, p, r, q);
        if occurs(out, q) {
            let i = choose|i: int| 0 <= i <= out.len() && #[trigger] has_prefix(out.skip(i), q);
            if i >= x.len() {
                assert(out.skip(i) =~= rest.skip(i - x.len()));
                assert(has_prefix(rest.skip(i - x.len()), q));
            } else if pre {
                assert(compatible(r.skip(i), q)) by {
                    assert forall|j: int| 0 <= j < r.skip(i).len() && j < q.len() implies r.skip(i)[j] == q[j] by {
                        assert(q[j] == out.skip(i).subrange(0, q.len() as int)[j]);
                    }
                }
            } else {
                assert(i == 0);
                assert(out.skip(0) =~= out);
                assert(s[0] == q[0]) by {
                    assert(q[0] == out.subrange(0, q.len() as int)[0]);
                }
                let w = q.skip(1);
                assert(has_prefix(rest, w)) by {
                    assert(rest.subrange(0, w.len() as int) =~= out.subrange(0, q.len() as int).skip(1));
                }
                lemma_prefix_back(t, p, r, w);
                assert(s.subrange(0, q.len() as int) =~= seq![s[0]] + t.subrange(0, w.len() as int));
                assert(q =~= seq![q[0]] + w);
                assert(s.skip(0) =~= s);
                assert(has_prefix(s.skip(0), q));
            }
        }
    }
}

/// The character facts behind normalising: where the rewritten forms can
/// and cannot line up with one another.
proof fn lemma_normalizer_facts()
    ensures
        "/* @__PURE__ */"@.len() == 15,
        "/*#__PURE__*/"@.len() == 13,
        "/*#__PURE__*/"@[12] == '/',
        "/*#__PURE__*/"@[0] == "/* @__PURE__ */"@[0],
        "/* @__PURE__ */"@[13] == '*',
        "/* @__PURE__ */"@[14] == '/',
        "*/* @__PURE__ */"@ == seq!['*', '/'] + "/* @__PURE__ */"@.skip(1),
        forall|i: int| 0 <= i < 12 ==> !compatible(#[trigger] "/*#__PURE__*/"@.skip(i), "/* @__PURE__ */"@),
        forall|k: int| 0 <= k < 13 ==> !compatible(#[trigger] "/* @__PURE__ */"@.skip(1).skip(k), "/*#__PURE__*/"@),
        forall|i: int| 0 <= i < 2 ==> !compatible(#[trigger] "  "@.skip(i), "/* @__PURE__ */"@),
        forall|k: int| 0 <= k < 14 ==> !compatible(#[trigger] "/* @__PURE__ */"@.skip(1).skip(k), "  "@),
        forall|i: int| 0 <= i < 10 ==> !compatible(#[trigger] ",\n  _tmpl$"@.skip(i), "/* @__PURE__ */"@),
        forall|k: int| 0 <= k < 14 ==> !compatible(#[trigger] "/* @__PURE__ */"@.skip(1).skip(k), ",\n  _tmpl$"@),
{
    reveal_strlit("/* @__PURE__ */");
    reveal_strlit("/*#__PURE__*/");
    reveal_strlit("*/* @__PURE__ */");
    reveal_strlit("  ");
    reveal_strlit(",\n  _tmpl$");
    let p = "/* @__PURE__ */"@;
    let w = p.skip(1);
    assert("*/* @__PURE__ */"@ =~= seq!['*', '/'] + w);
    assert forall|i: int| 0 <= i < 12 implies !compatible(#[trigger] "/*#__PURE__*/"@.skip(i), p) by {
            if i == 0 {
                assert("/*#__PURE__*/"@.skip(0)[2] != p[2]);
            } else if i == 1 {
                assert("/*#__PURE__*/"@.skip(1)[0] != p[0]);
            } else if i == 2 {
                assert("/*#__PURE__*/"@.skip(2)[0] != p[0]);
            } else if i == 3 {
                assert("/*#__PURE__*/"@.skip(3)[0] != p[0]);
            } else if i == 4 {
                assert("/*#__PURE__*/"@.skip(4)[0] != p[0]);
            } else if i == 5 {
                assert("/*#__PURE__*/"@.skip(5)[0] != p[0]);
            } else if i == 6 {
                assert("/*#__PURE__*/"@.skip(6)[0] != p[0]);
            } else if i == 7 {
                assert("/*#__PURE__*/"@.skip(7)[0] != p[0]);
            } else if i == 8 {
                assert("/*#__PURE__*/"@.skip(8)[0] != p[0]);
            } else if i == 9 {
                assert("/*#__PURE__*/"@.skip(9)[0] != p[0]);
            } else if i == 10 {
                assert("/*#__PURE__*/"@.skip(10)[0] != p[0]);
            } else if i == 11 {
                assert("/*#__PURE__*/"@.skip(11)[0] != p[0]);
            }
    }
    assert forall|k: int| 0 <= k < 13 implies !compatible(#[trigger] w.skip(k), "/*#__PURE__*/"@) by {
            if k == 0 {
                assert(w.skip(0)[0] != "/*#__PURE__*/"@[0]);
            } else if k == 1 {
                assert(w.skip(1)[0] != "/*#__PURE__*/"@[0]);
            } else if k == 2 {
                assert(w.skip(2)[0] != "/*#__PURE__*/"@[0]);
            } else if k == 3 {
                assert(w.skip(3)[0] != "/*#__PURE__*/"@[0]);
            } else if k == 4 {
                assert(w.skip(4)[0] != "/*#__PURE__*/"@[0]);
            } else if k == 5 {
                assert(w.skip(5)[0] != "/*#__PURE__*/"@[0]);
            } else if k == 6 {
                assert(w.skip(6)[0] != "/*#__PURE__*/"@[0]);
            } else if k == 7 {
                assert(w.skip(7)[0] != "/*#__PURE__*/"@[0]);
            } else if k == 8 {
                assert(w.skip(8)[0] != "/*#__PURE__*/"@[0]);
            } else if k == 9 {
                assert(w.skip(9)[0] != "/*#__PURE__*/"@[0]);
            } else if k == 10 {
                assert(w.skip(10)[0] != "/*#__PURE__*/"@[0]);
            } else if k == 11 {
                assert(w.skip(11)[0] != "/*#__PURE__*/"@[0]);
            } else if k == 12 {
                assert(w.skip(12)[0] != "/*#__PURE__*/"@[0]);
            }
    }
    assert forall|i: int| 0 <= i < 2 implies !compatible(#[trigger] "  "@.skip(i), p) by {
            if i == 0 {
                assert("  "@.skip(0)[0] != p[0]);
            } else if i == 1 {
                assert("  "@.skip(1)[0] != p[0]);
            }
    }
    assert forall|k: int| 0 <= k < 14 implies !compatible(#[trigger] w.skip(k), "  "@) by {
            if k == 0 {
                assert(w.skip(0)[0] != "  "@[0]);
            } else if k == 1 {
                assert(w.skip(1)[1] != "  "@[1]);
            } else if k == 2 {
                assert(w.skip(2)[0] != "  "@[0]);
            } else if k == 3 {
                assert(w.skip(3)[0] != "  "@[0]);
            } else if k == 4 {
                assert(w.skip(4)[0] != "  "@[0]);
            } else if k == 5 {
                assert(w.skip(5)[0] != "  "@[0]);
            } else if k == 6 {
                assert(w.skip(6)[0] != "  "@[0]);
            } else if k == 7 {
                assert(w.skip(7)[0] != "  "@[0]);
            } else if k == 8 {
                assert(w.skip(8)[0] != "  "@[0]);
            } else if k == 9 {
                assert(w.skip(9)[0] != "  "@[0]);
            } else if k == 10 {
                assert(w.skip(10)[0] != "  "@[0]);
            } else if k == 11 {
                assert(w.skip(11)[1] != "  "@[1]);
            } else if k == 12 {
                assert(w.skip(12)[0] != "  "@[0]);
            } else if k == 13 {
                assert(w.skip(13)[0] != "  "@[0]);
            }
    }
    assert forall|i: int| 0 <= i < 10 implies !compatible(#[trigger] ",\n  _tmpl$"@.skip(i), p) by {
            if i == 0 {
                assert(",\n  _tmpl$"@.skip(0)[0] != p[0]);
            } else if i == 1 {
                assert(",\n  _tmpl$"@.skip(1)[0] != p[0]);
            } else if i == 2 {
                assert(",\n  _tmpl$"@.skip(2)[0] != p[0]);
            } else if i == 3 {
                assert(",\n  _tmpl$"@.skip(3)[0] != p[0]);
            } else if i == 4 {
                assert(",\n  _tmpl$"@.skip(4)[0] != p[0]);
            } else if i == 5 {
                assert(",\n  _tmpl$"@.skip(5)[0] != p[0]);
            } else if i == 6 {
                assert(",\n  _tmpl$"@.skip(6)[0] != p[0]);
            } else if i == 7 {
                assert(",\n  _tmpl$"@.skip(7)[0] != p[0]);
            } else if i == 8 {
                assert(",\n  _tmpl$"@.skip(8)[0] != p[0]);
            } else if i == 9 {
                assert(",\n  _tmpl$"@.skip(9)[0] != p[0]);
            }
    }
    assert forall|k: int| 0 <= k < 14 implies !compatible(#[trigger] w.skip(k), ",\n  _tmpl$"@) by {
            if k == 0 {
                assert(w.skip(0)[0] != ",\n  _tmpl$"@[0]);
            } else if k == 1 {
                assert(w.skip(1)[0] != ",\n  _tmpl$"@[0]);
            } else if k == 2 {
                assert(w.skip(2)[0] != ",\n  _tmpl$"@[0]);
            } else if k == 3 {
                assert(w.skip(3)[0] != ",\n  _tmpl$"@[0]);
            } else if k == 4 {
                assert(w.skip(4)[0] != ",\n  _tmpl$"@[0]);
            } else if k == 5 {
                assert(w.skip(5)[0] != ",\n  _tmpl$"@[0]);
            } else if k == 6 {
                assert(w.skip(6)[0] != ",\n  _tmpl$"@[0]);
            } else if k == 7 {
                assert(w.skip(7)[0] != ",\n  _tmpl$"@[0]);
            } else if k == 8 {
                assert(w.skip(8)[0] != ",\n  _tmpl$"@[0]);
            } else if k == 9 {
                assert(w.skip(9)[0] != ",\n  _tmpl$"@[0]);
            } else if k == 10 {
                assert(w.skip(10)[0] != ",\n  _tmpl$"@[0]);
            } else if k == 11 {
                assert(w.skip(11)[0] != ",\n  _tmpl$"@[0]);
            } else if k == 12 {
                assert(w.skip(12)[0] != ",\n  _tmpl$"@[0]);
            } else if k == 13 {
                assert(w.skip(13)[0] != ",\n  _tmpl$"@[0]);
            }
    }
}

/// Rewriting the pure comments leaves none, unless the code held
/// `*/* @__PURE__ */`, where the end of one rewritten comment would start
/// another.
proof fn lemma_pure_rewrite_clears(s: Seq<char>)
    requires
        !occurs(s, "*/* @__PURE__ */"@),
    ensures
        !occurs(replace_all(s, "/* @__PURE__ */"@, "/*#__PURE__*/"@), "/* @__PURE__ */"@),
    decreases s.len(),
{
    lemma_normalizer_facts();
    let p = "/* @__PURE__ */"@;
    let r = "/*#__PURE__*/"@;
    let q = "*/* @__PURE__ */"@;
    let w = p.skip(1);
    if s.len() > 0 {
        let out = replace_all(s, p, r);
        let pre = has_prefix(s, p);
        let n: int = if pre { 15 } else { 1 };
        let x = if pre { r } else { seq![s[0]] };
        let t = s.skip(n);
        let rest = replace_all(t, p, r);
        assert(out == x + rest);
        lemma_no_occurrence_in_suffix(s, q, n);
        lemma_pure_rewrite_clears(t);
        assert forall|k: int| 0 <= k < w.len() implies !compatible(#[trigger] w.skip(k), r) || (k == w.len() - 1
            && r[0] == p[0]) by {}
        if occurs(out, p) {
            let i = choose|i: int| 0 <= i <= out.len() && #[trigger] has_prefix(out.skip(i), p);
            if i >= x.len() {
                assert(out.skip(i) =~= rest.skip(i - x.len()));
                assert(has_prefix(rest.skip(i - x.len()), p));
            } else if pre && i < 12 {
                assert(compatible(r.skip(i), p)) by {
                    assert forall|j: int| 0 <= j < r.skip(i).len() && j < p.len() implies r.skip(i)[j] == p[j] by {
                        assert(p[j] == out.skip(i).subrange(0, p.len() as int)[j]);
                    }
                }
            } else if pre {
                assert(i == 12);
                assert(has_prefix(rest, w)) by {
                    assert(rest.subrange(0, w.len() as int) =~= out.skip(12).subrange(0, p.len() as int).skip(1));
                }
                lemma_prefix_back(t, p, r, w);
                assert(s[13] == p[13] && s[14] == p[14]) by {
                    assert(s[13] == s.subrange(0, 15)[13]);
                    assert(s[14] == s.subrange(0, 15)[14]);
                }
                assert(t.subrange(0, 14) == w);
                assert(s.skip(13).subrange(0, 16) =~= seq![s[13], s[14]] + t.subrange(0, 14));
                assert(s.skip(13).subrange(0, 16) =~= q);
                assert(has_prefix(s.skip(13), q));
            } else {
                assert(i == 0);
                assert(out.skip(0) =~= out);
                assert(s[0] == p[0]) by {
                    assert(p[0] == out.subrange(0, p.len() as int)[0]);
                }
                assert(has_prefix(rest, w)) by {
                    assert(rest.subrange(0, w.len() as int) =~= out.subrange(0, p.len() as int).skip(1));
                }
                lemma_prefix_back(t, p, r, w);
                assert(s.subrange(0, 15) =~= seq![s[0]] + t.subrange(0, 14));
                assert(p =~= seq![p[0]] + w);
            }
        }
    }
}

/// Normalising code that does not hold `*/* @__PURE__ */` leaves no tab,
/// no `/* @__PURE__ */` and no `, _tmpl$`, so normalising again changes
/// nothing.
pub proof fn law_normalize_idempotent(code: Seq<char>)
    requires
        !occurs(code, "*/* @__PURE__ */"@),
    ensures
        !has_char(normalized(code), '\t'),
        !occurs(normalized(code), "/* @__PURE__ */"@),
        !occurs(normalized(code), ", _tmpl$"@),
        normalized(normalized(code)) == normalized(code),
{
    reveal_strlit("/* @__PURE__ */");
    reveal_strlit("/*#__PURE__*/");
    reveal_strlit("\t");
    reveal_strlit("  ");
    reveal_strlit(", _tmpl$");
    reveal_strlit(",\n  _tmpl$");
    lemma_normalizer_facts();
    let p = "/* @__PURE__ */"@;
    let a = replace_all(code, p, "/*#__PURE__*/"@);
    let b = replace_all(a, "\t"@, "  "@);
    lemma_pure_rewrite_clears(code);
    assert(p.skip(1).len() == 14);
    lemma_replace_keeps_absent(a, "\t"@, "  "@, p);
    lemma_replace_keeps_absent(b, ", _tmpl$"@, ",\n  _tmpl$"@, p);
    law_normalized_code(code);
}

/// Normalised code holds no tab and no `, _tmpl$`; code in which none of
/// the three rewritten forms occurs is left as it is, so normalising again
/// changes nothing where no `/* @__PURE__ */` is left.
pub proof fn law_normalized_code(code: Seq<char>)
    ensures
        !has_char(normalized(code), '\t'),
        !occurs(normalized(code), ", _tmpl$"@),
        !occurs(normalized(code), "/* @__PURE__ */"@) ==> normalized(normalized(code)) == normalized(code),
        !occurs(code, "/* @__PURE__ */"@) && !occurs(code, "\t"@) && !occurs(code, ", _tmpl$"@) ==> normalized(code)
            == code,
{
    reveal_strlit("/* @__PURE__ */");
    reveal_strlit("/*#__PURE__*/");
    reveal_strlit("\t");
    reveal_strlit("  ");
    reveal_strlit(", _tmpl$");
    reveal_strlit(",\n  _tmpl$");
    let a = replace_all(code, "/* @__PURE__ */"@, "/*#__PURE__*/"@);
    let b = replace_all(a, "\t"@, "  "@);
    assert("\t"@ =~= seq!['\t']);
    assert(!has_char("  "@, '\t'));
    assert(!has_char(",\n  _tmpl$"@, '\t')) by {
        assert forall|i: int| 0 <= i < ",\n  _tmpl$"@.len() implies ",\n  _tmpl$"@[i] != '\t' by {}
    }
    lemma_replace_char_gone(a, '\t', "  "@);
    lemma_replace_keeps_char_absent(b, ", _tmpl$"@, ",\n  _tmpl$"@, '\t');
    assert(self_clearing(", _tmpl$"@, ",\n  _tmpl$"@));
    lemma_replace_clears(b, ", _tmpl$"@, ",\n  _tmpl$"@);
    let n = normalized(code);
    assert(!occurs(n, "\t"@)) by {
        if occurs(n, "\t"@) {
            let i = choose|i: int| 0 <= i <= n.len() && #[trigger] has_prefix(n.skip(i), "\t"@);
            assert(n[i] == n.skip(i).subrange(0, 1)[0]);
        }
    }
    if !occurs(n, "/* @__PURE__ */"@) {
        lemma_replace_absent(n, "/* @__PURE__ */"@, "/*#__PURE__*/"@);
        lemma_replace_absent(n, "\t"@, "  "@);
        lemma_replace_absent(n, ", _tmpl$"@, ",\n  _tmpl$"@);
    }
    if !occurs(code, "/* @__PURE__ */"@) && !occurs(code, "\t"@) && !occurs(code, ", _tmpl$"@) {
        lemma_replace_absent(code, "/* @__PURE__ */"@, "/*#__PURE__*/"@);
        lemma_replace_absent(code, "\t"@, "  "@);
        lemma_replace_absent(code, ", _tmpl$"@, ",\n  _tmpl$"@);
    }
}

} // verus!
