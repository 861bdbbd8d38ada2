//! Variable naming conventions of the babel plugin:
//! `_tmpl$`, `_tmpl$2`, ... for templates, `_el$1`, `_el$2`, ... for
//! elements and `_$name` for runtime functions.

use vstd::prelude::*;
use super::constants::{ELEMENT_VAR_PREFIX, RUNTIME_FN_PREFIX, TEMPLATE_VAR_PREFIX};
use crate::text::{
    chars_of, decimal_chars, extend_chars, extend_str, string_of, str_eq, str_starts_with,
    parse_usize_chars, decimal, has_prefix, parse_usize, digit_char, digit_value, digits_value,
    all_digits,
};
use crate::utils::strip_prefix;

verus! {

broadcast use vstd::string::group_string_axioms;

/// `_tmpl$` for the first template, `_tmpl$N` for the N-th otherwise.
pub open spec fn spec_template_var_name(counter: nat) -> Seq<char> {
    if counter == 1 {
        "_tmpl$"@
    } else {
        "_tmpl$"@ + decimal(counter)
    }
}

/// `_el$N`.
pub open spec fn spec_element_var_name(counter: nat) -> Seq<char> {
    "_el$"@ + decimal(counter)
}

/// The counter of a template variable: 1 for `_tmpl$`, otherwise what
/// parsing the rest as an unsigned integer gives.
pub open spec fn spec_template_counter(name: Seq<char>) -> Option<nat> {
    if name == "_tmpl$"@ {
        Some(1)
    } else {
        match strip_prefix(name, "_tmpl$"@) {
            Some(rest) => parse_usize(rest),
            None => None,
        }
    }
}

/// Generate a template variable name following babel conventions
pub fn template_var_name(counter: usize) -> (r: String)
    ensures
        r@ == spec_template_var_name(counter as nat),
{
    if counter == 1 {
        let v = chars_of(TEMPLATE_VAR_PREFIX);
        string_of(&v)
    } else {
        let mut v = chars_of(TEMPLATE_VAR_PREFIX);
        let d = decimal_chars(counter);
        extend_chars(&mut v, &d);
        string_of(&v)
    }
}

/// Generate an element variable name following babel conventions
pub fn element_var_name(counter: usize) -> (r: String)
    ensures
        r@ == spec_element_var_name(counter as nat),
{
    let mut v = chars_of(ELEMENT_VAR_PREFIX);
    let d = decimal_chars(counter);
    extend_chars(&mut v, &d);
    string_of(&v)
}

/// Get the runtime function name with babel prefix
pub fn runtime_function_name(name: &str) -> (r: String)
    ensures
        r@ == "_$"@ + name@,
{
    let mut v = chars_of(RUNTIME_FN_PREFIX);
    extend_str(&mut v, name);
    string_of(&v)
}

/// Check if a variable name is a template variable
pub fn is_template_var(name: &str) -> (r: bool)
    ensures
        r == has_prefix(name@, "_tmpl$"@),
{
    str_starts_with(name, TEMPLATE_VAR_PREFIX)
}

/// Check if a variable name is an element variable
pub fn is_element_var(name: &str) -> (r: bool)
    ensures
        r == has_prefix(name@, "_el$"@),
{
    str_starts_with(name, ELEMENT_VAR_PREFIX)
}

/// Extract the counter from a template variable name
pub fn extract_template_counter(name: &str) -> (r: Option<usize>)
    ensures
        r matches Some(n) ==> spec_template_counter(name@) == Some(n as nat),
        r is None ==> spec_template_counter(name@) is None,
{
    if str_eq(name, TEMPLATE_VAR_PREFIX) {
        Some(1)
    } else {
        let v = chars_of(name);
        let p = chars_of(TEMPLATE_VAR_PREFIX);
        if crate::text::chars_start_with(&v, &p) {
            let mut rest: Vec<char> = Vec::new();
            let mut i = p.len();
            while i < v.len()
                invariant
                    p.len() <= i <= v.len(),
                    rest@ == v@.subrange(p.len() as int, i as int),
                decreases v.len() - i,
            {
                rest.push(v[i]);
                i = i + 1;
            }
            assert(rest@ =~= v@.skip(p@.len() as int));
            parse_usize_chars(&rest)
        } else {
            None
        }
    }
}

// ---------------------------------------------------------------------------
// Laws
// ---------------------------------------------------------------------------

proof fn lemma_digit_roundtrip(d: nat)
    requires
        d < 10,
    ensures
        digit_value(digit_char(d)) == Some(d),
{
    assert(d == 0 || d == 1 || d == 2 || d == 3 || d == 4 || d == 5 || d == 6 || d == 7 || d == 8
        || d == 9);
}

proof fn lemma_decimal_digits(n: nat)
    ensures
        decimal(n).len() > 0,
        all_digits(decimal(n)),
        digits_value(decimal(n)) == n,
        decimal(n)[0] != '+',
    decreases n,
{
    if n < 10 {
        lemma_digit_roundtrip(n);
        assert(digit_value(decimal(n)[0]) is Some);
        assert(decimal(n).drop_last() =~= Seq::<char>::empty());
        assert(digits_value(Seq::<char>::empty()) == 0);
        assert(decimal(n).last() == digit_char(n));
        assert(digits_value(decimal(n)) == digits_value(decimal(n).drop_last()) * 10 + n);
    } else {
        lemma_decimal_digits(n / 10);
        let d = decimal(n);
        assert(d.drop_last() =~= decimal(n / 10));
        assert forall|i: int| 0 <= i < d.len() implies (#[trigger] digit_value(d[i])) is Some by {
            if i < d.len() - 1 {
                assert(d[i] == decimal(n / 10)[i]);
            } else {
                assert(digit_value(digit_char(n % 10)) is Some);
            }
        }
        lemma_digit_roundtrip(n % 10);
        assert(digit_value(digit_char(n % 10)) == Some(n % 10));
        assert(d.last() == digit_char(n % 10));
        assert((n / 10) * 10 + n % 10 == n) by (nonlinear_arith);
        assert(digits_value(d) == digits_value(d.drop_last()) * 10 + digit_value(d.last()).unwrap());
    }
}

/// Reading the counter back from a template variable name gives the
/// counter it was made from.
pub proof fn lemma_template_counter_roundtrip(counter: usize)
    ensures
        spec_template_counter(spec_template_var_name(counter as nat)) == Some(counter as nat),
{
    if counter != 1 {
        let name = spec_template_var_name(counter as nat);
        lemma_decimal_digits(counter as nat);
        assert(name.subrange(0, "_tmpl$"@.len() as int) =~= "_tmpl$"@);
        assert(has_prefix(name, "_tmpl$"@));
        assert(name.skip("_tmpl$"@.len() as int) =~= decimal(counter as nat));
        if name == "_tmpl$"@ {
            assert(name.len() > "_tmpl$"@.len());
        }
    }
}

/// Different counters give different template variable names.
pub proof fn lemma_template_var_name_injective(a: nat, b: nat)
    requires
        a >= 1,
        b >= 1,
        spec_template_var_name(a) == spec_template_var_name(b),
    ensures
        a == b,
{
    lemma_decimal_digits(a);
    lemma_decimal_digits(b);
    let p = "_tmpl$"@;
    if a == 1 && b != 1 {
        assert(spec_template_var_name(b).len() > p.len());
    } else if a != 1 && b == 1 {
        assert(spec_template_var_name(a).len() > p.len());
    } else if a != 1 && b != 1 {
        assert(spec_template_var_name(a).skip(p.len() as int) =~= decimal(a));
        assert(spec_template_var_name(b).skip(p.len() as int) =~= decimal(b));
    }
}

/// Different counters give different element variable names.
pub proof fn lemma_element_var_name_injective(a: nat, b: nat)
    requires
        spec_element_var_name(a) == spec_element_var_name(b),
    ensures
        a == b,
{
    lemma_decimal_digits(a);
    lemma_decimal_digits(b);
    let p = "_el$"@;
    assert(spec_element_var_name(a).skip(p.len() as int) =~= decimal(a));
    assert(spec_element_var_name(b).skip(p.len() as int) =~= decimal(b));
}

/// Every generated template name is recognised as a template variable.
pub proof fn lemma_template_var_name_recognised(counter: nat)
    ensures
        has_prefix(spec_template_var_name(counter), "_tmpl$"@),
{
    assert(spec_template_var_name(counter).subrange(0, "_tmpl$"@.len() as int) =~= "_tmpl$"@);
}

/// Every generated element name is recognised as an element variable, and
/// never as a template variable.
pub proof fn lemma_element_var_name_recognised(counter: nat)
    ensures
        has_prefix(spec_element_var_name(counter), "_el$"@),
        !has_prefix(spec_element_var_name(counter), "_tmpl$"@),
{
    reveal_strlit("_el$");
    reveal_strlit("_tmpl$");
    let n = spec_element_var_name(counter);
    assert(n.subrange(0, "_el$"@.len() as int) =~= "_el$"@);
    if has_prefix(n, "_tmpl$"@) {
        assert(n[1] == "_tmpl$"@[1]);
    }
}

} // verus!
