//! Small verified helpers for working with string slices character by
//! character: equality and literal matching, used by the lexer and the
//! symbol table.

use vstd::prelude::*;
use vstd::string::StrSliceExecFns;

verus! {

/// Whether the characters of `l` occur in `s` starting exactly at `i`.
pub open spec fn lit_at(s: Seq<char>, i: int, l: Seq<char>) -> bool {
    0 <= i && i + l.len() <= s.len() && s.subrange(i, i + l.len() as int) == l
}

/// Character-for-character equality of two string slices.
pub fn str_eq(a: &str, b: &str) -> (r: bool)
    ensures
        r == (a@ == b@),
{
    let na = a.unicode_len();
    let nb = b.unicode_len();
    if na != nb {
        return false;
    }
    let mut i: usize = 0;
    while i < na
        invariant
            0 <= i <= na,
            na as nat == a@.len(),
            nb as nat == b@.len(),
            na == nb,
            forall|j: int| 0 <= j < i ==> a@[j] == b@[j],
        decreases na - i,
    {
        if a.get_char(i) != b.get_char(i) {
            return false;
        }
        i = i + 1;
    }
    proof {
        assert(a@ =~= b@);
    }
    true
}

/// Whether the literal `lit` occurs in `s` starting exactly at `i`.
pub fn match_lit(s: &str, i: usize, lit: &str) -> (r: bool)
    requires
        i <= s@.len(),
    ensures
        r == lit_at(s@, i as int, lit@),
{
    let n = s.unicode_len();
    let m = lit.unicode_len();
    if m > n - i {
        return false;
    }
    let mut j: usize = 0;
    while j < m
        invariant
            0 <= j <= m,
            i + m <= n,
            n as nat == s@.len(),
            m as nat == lit@.len(),
            forall|t: int| 0 <= t < j ==> s@[i + t] == lit@[t],
        decreases m - j,
    {
        if s.get_char(i + j) != lit.get_char(j) {
            proof {
                if lit_at(s@, i as int, lit@) {
                    assert(s@.subrange(i as int, i + lit@.len() as int)[j as int] == lit@[j as int]);
                }
            }
            return false;
        }
        j = j + 1;
    }
    proof {
        assert(s@.subrange(i as int, i + lit@.len() as int) =~= lit@);
    }
    true
}

} // verus!
