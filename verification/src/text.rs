//! Small text operations on strings.

use vstd::prelude::*;

verus! {

/// Text equality of two string slices.
pub(crate) fn str_eq(a: &str, b: &str) -> (r: bool)
    ensures
        r == (a@ == b@),
{
    a.to_owned() == b.to_owned()
}

/// The part of `s` after the last occurrence of `c`; all of `s` when `c`
/// does not occur in it.
pub open spec fn after_last(s: Seq<char>, c: char) -> Seq<char>
    decreases s.len(),
{
    if s.len() == 0 {
        s
    } else if s.last() == c {
        seq![]
    } else {
        after_last(s.drop_last(), c).push(s.last())
    }
}

/// `after_last` is the rest of `s` after position `p` when `p` is the last
/// position of `c`, or after position -1 when `c` is absent.
pub(crate) proof fn lemma_after_last(s: Seq<char>, c: char, p: int)
    requires
        -1 <= p < s.len(),
        p >= 0 ==> s[p] == c,
        forall|q: int| p < q < s.len() ==> s[q] != c,
    ensures
        after_last(s, c) == s.subrange(p + 1, s.len() as int),
    decreases s.len(),
{
    if s.len() > 0 {
        if p == s.len() - 1 {
            assert(s.subrange(p + 1, s.len() as int) =~= seq![]);
        } else {
            lemma_after_last(s.drop_last(), c, p);
            assert(s.subrange(p + 1, s.len() as int) =~= s.drop_last().subrange(
                p + 1,
                s.len() - 1,
            ).push(s.last()));
        }
    }
}

/// The part of `s` after the last occurrence of `c`.
pub fn str_after_last(s: &str, c: char) -> (r: &str)
    ensures
        r@ == after_last(s@, c),
{
    let n = s.unicode_len();
    let mut i: usize = n;
    while i > 0
        invariant
            0 <= i <= n,
            n == s@.len(),
            forall|q: int| i <= q < n ==> s@[q] != c,
        decreases i,
    {
        if s.get_char(i - 1) == c {
            proof {
                lemma_after_last(s@, c, i - 1);
            }
            return s.substring_char(i, n);
        }
        i = i - 1;
    }
    proof {
        lemma_after_last(s@, c, -1);
        assert(s@.subrange(0, n as int) =~= s@);
    }
    s
}

/// The string starts with character `c`.
pub fn starts_with_char(s: &str, c: char) -> (r: bool)
    ensures
        r == (s@.len() > 0 && s@[0] == c),
{
    s.unicode_len() > 0 && s.get_char(0) == c
}


/// The part after the last `c` is a suffix of `s` without any `c`: all of
/// `s` when `c` does not occur, and otherwise preceded in `s` by a `c`.
pub proof fn law_after_last_is_the_tail_after_c(s: Seq<char>, c: char)
    ensures
        after_last(s, c).len() <= s.len(),
        after_last(s, c) == s.subrange(s.len() - after_last(s, c).len(), s.len() as int),
        !after_last(s, c).contains(c),
        !s.contains(c) ==> after_last(s, c) == s,
        after_last(s, c).len() < s.len() ==> s[s.len() - after_last(s, c).len() - 1] == c,
    decreases s.len(),
{
    if s.len() > 0 {
        law_after_last_is_the_tail_after_c(s.drop_last(), c);
        let r = after_last(s, c);
        if s.last() == c {
            assert(r =~= s.subrange(s.len() as int, s.len() as int));
        } else {
            let r0 = after_last(s.drop_last(), c);
            assert(r =~= s.subrange(s.len() - r.len(), s.len() as int));
            assert forall|k: int| 0 <= k < r.len() implies r[k] != c by {
                if k < r0.len() {
                    assert(r[k] == r0[k]);
                    assert(r0.contains(r0[k]) ==> r0[k] != c);
                }
            }
            if !s.contains(c) {
                assert forall|k: int| 0 <= k < s.drop_last().len() implies s.drop_last()[k] != c by {
                    assert(s[k] == s.drop_last()[k]);
                }
                assert(r =~= s);
            }
            if r.len() < s.len() {
                assert(s[s.len() - r.len() - 1] == s.drop_last()[s.drop_last().len() - r0.len() - 1]);
            }
        }
    }
}

} // verus!
