//! Character-sequence helpers shared by the other modules.

use vstd::prelude::*;
use vstd::string::*;

verus! {

/// Whether two strings hold the same characters.
pub fn str_eq(a: &str, b: &str) -> (r: bool)
    ensures
        r == (a@ == b@),
{
    let n = a.unicode_len();
    if n != b.unicode_len() {
        return false;
    }
    let mut i: usize = 0;
    while i < n
        invariant
            n == a@.len(),
            n == b@.len(),
            i <= n,
            a@.subrange(0, i as int) == b@.subrange(0, i as int),
        decreases n - i,
    {
        if a.get_char(i) != b.get_char(i) {
            return false;
        }
        assert(a@.subrange(0, i + 1) == a@.subrange(0, i as int).push(a@[i as int]));
        assert(b@.subrange(0, i + 1) == b@.subrange(0, i as int).push(b@[i as int]));
        i = i + 1;
    }
    assert(a@ == a@.subrange(0, n as int));
    assert(b@ == b@.subrange(0, n as int));
    true
}

} // verus!

verus! {

/// The characters of an optional string.
pub open spec fn opt_view(o: Option<String>) -> Option<Seq<char>> {
    match o {
        Some(s) => Some(s@),
        None => None,
    }
}

/// A copy of an optional string.
pub fn clone_opt(o: &Option<String>) -> (r: Option<String>)
    ensures
        opt_view(r) == opt_view(*o),
{
    match o {
        Some(s) => Some(s.clone()),
        None => None,
    }
}

} // verus!

verus! {

/// The decimal digit for `d < 10`.
pub open spec fn digit_char(d: nat) -> char {
    if d == 0 { '0' } else if d == 1 { '1' } else if d == 2 { '2' } else if d == 3 { '3' } else if d == 4 { '4' }
    else if d == 5 { '5' } else if d == 6 { '6' } else if d == 7 { '7' } else if d == 8 { '8' } else { '9' }
}

/// The decimal digits of `n`, without leading zeros.
pub open spec fn decimal_digits(n: nat) -> Seq<char>
    decreases n,
{
    if n < 10 {
        seq![digit_char(n)]
    } else {
        decimal_digits(n / 10).push(digit_char(n % 10))
    }
}

/// The decimal text of `n`, with a leading '-' when negative.
pub open spec fn decimal(n: int) -> Seq<char> {
    if n < 0 {
        seq!['-'] + decimal_digits((-n) as nat)
    } else {
        decimal_digits(n as nat)
    }
}

/// Relies on the `Display` of `i128` (through `ToString`): the decimal text of the number.
#[verifier::external_body]
pub fn decimal_text(n: i128) -> (r: String)
    ensures
        r@ == decimal(n as int),
{
    n.to_string()
}

/// Relies on `String::push`: appends one character.
#[verifier::external_body]
pub fn push_char(s: &mut String, c: char)
    ensures
        final(s)@ == old(s)@.push(c),
{
    s.push(c)
}

pub open spec fn opt_views(s: Seq<Option<String>>) -> Seq<Option<Seq<char>>> {
    s.map_values(|o: Option<String>| opt_view(o))
}

/// The values present among `s`.
pub open spec fn present_values(s: Seq<Option<Seq<char>>>) -> Set<Seq<char>> {
    Set::new(|v: Seq<char>| exists|i: int| 0 <= i < s.len() && s[i] == Some(v))
}

/// Whether `v` holds a string equal to `x`.
pub fn contains_string(v: &Vec<String>, x: &String) -> (r: bool)
    ensures
        r == v@.map_values(|s: String| s@).contains(x@),
{
    let n = v.len();
    let mut i: usize = 0;
    while i < n
        invariant
            n == v.len(),
            i <= n,
            forall|j: int| 0 <= j < i ==> v@[j]@ != x@,
        decreases n - i,
    {
        if v[i] == *x {
            assert(v@.map_values(|s: String| s@)[i as int] == x@);
            return true;
        }
        i = i + 1;
    }
    false
}

/// How many distinct strings `values` hold.
pub fn count_distinct(values: &Vec<Option<String>>) -> (r: usize)
    ensures
        present_values(opt_views(values@)).finite(),
        r == present_values(opt_views(values@)).len(),
{
    let ghost all = opt_views(values@);
    let mut seen: Vec<String> = Vec::new();
    let n = values.len();
    let mut i: usize = 0;
    while i < n
        invariant
            n == values.len(),
            all == opt_views(values@),
            i <= n,
            seen@.map_values(|s: String| s@).no_duplicates(),
            seen@.map_values(|s: String| s@).to_set() == present_values(all.take(i as int)),
        decreases n - i,
    {
        let ghost sv = seen@.map_values(|s: String| s@);
        let ghost pre = all.take(i as int);
        let ghost post = all.take(i + 1);
        assert forall|k: int| 0 <= k < i implies post[k] == #[trigger] pre[k] by {}
        assert(post[i as int] == opt_view(values@[i as int]));
        match &values[i] {
            Some(v) => {
                if !contains_string(&seen, v) {
                    seen.push(v.clone());
                    proof {
                        let nv = seen@.map_values(|s: String| s@);
                        assert(nv =~= sv.push(v@));
                        assert(nv.to_set() =~= present_values(post)) by {
                            assert forall|x: Seq<char>| present_values(post).contains(x) implies nv.to_set().contains(x) by {
                                let k = choose|k: int| 0 <= k < post.len() && post[k] == Some(x);
                                if k < i {
                                    assert(pre[k] == Some(x));
                                    assert(present_values(pre).contains(x));
                                    assert(sv.contains(x));
                                    let q = choose|q: int| 0 <= q < sv.len() && sv[q] == x;
                                    assert(nv[q] == x);
                                } else {
                                    assert(nv[sv.len() as int] == x);
                                }
                            }
                            assert forall|x: Seq<char>| nv.to_set().contains(x) implies present_values(post).contains(x) by {
                                let q = choose|q: int| 0 <= q < nv.len() && nv[q] == x;
                                if q < sv.len() {
                                    assert(sv[q] == x);
                                    assert(sv.to_set().contains(x));
                                    let k = choose|k: int| 0 <= k < pre.len() && pre[k] == Some(x);
                                    assert(post[k] == Some(x));
                                } else {
                                    assert(post[i as int] == Some(x));
                                }
                            }
                        }
                    }
                } else {
                    proof {
                        assert(sv.to_set() =~= present_values(post)) by {
                            assert forall|x: Seq<char>| present_values(post).contains(x) implies sv.to_set().contains(x) by {
                                let k = choose|k: int| 0 <= k < post.len() && post[k] == Some(x);
                                if k < i {
                                    assert(pre[k] == Some(x));
                                    assert(present_values(pre).contains(x));
                                } else {
                                    assert(x == v@);
                                }
                            }
                            assert forall|x: Seq<char>| sv.to_set().contains(x) implies present_values(post).contains(x) by {
                                assert(present_values(pre).contains(x));
                                let k = choose|k: int| 0 <= k < pre.len() && pre[k] == Some(x);
                                assert(post[k] == Some(x));
                            }
                        }
                    }
                }
            },
            None => {
                proof {
                    assert(sv.to_set() =~= present_values(post)) by {
                        assert forall|x: Seq<char>| present_values(post).contains(x) implies sv.to_set().contains(x) by {
                            let k = choose|k: int| 0 <= k < post.len() && post[k] == Some(x);
                            assert(k < i);
                            assert(pre[k] == Some(x));
                            assert(present_values(pre).contains(x));
                        }
                        assert forall|x: Seq<char>| sv.to_set().contains(x) implies present_values(post).contains(x) by {
                            assert(present_values(pre).contains(x));
                            let k = choose|k: int| 0 <= k < pre.len() && pre[k] == Some(x);
                            assert(post[k] == Some(x));
                        }
                    }
                }
            },
        }
        i = i + 1;
    }
    proof {
        assert(all.take(n as int) =~= all);
        seen@.map_values(|s: String| s@).unique_seq_to_set();
    }
    seen.len()
}

} // verus!

verus! {

/// Whether two optional strings are equal.
pub fn opt_str_eq(a: &Option<String>, b: &Option<String>) -> (r: bool)
    ensures
        r == (opt_view(*a) == opt_view(*b)),
{
    match (a, b) {
        (Some(x), Some(y)) => *x == *y,
        (None, None) => true,
        _ => false,
    }
}

} // verus!
