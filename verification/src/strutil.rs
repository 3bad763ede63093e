//! Character-level string utilities for parsing library specifiers and
//! contract paths.

use vstd::prelude::*;

verus! {

/// The index of the first occurrence of `c` in `s`, if any.
pub open spec fn spec_find_char(s: Seq<char>, c: char) -> Option<int>
    decreases s.len(),
{
    if s.len() == 0 {
        None
    } else if s[0] == c {
        Some(0int)
    } else {
        match spec_find_char(s.skip(1), c) {
            Some(i) => Some(i + 1),
            None => None,
        }
    }
}

/// `spec_find_char` returns the least index holding `c`, or `None` when no
/// index holds it.
pub proof fn lemma_find_char_props(s: Seq<char>, c: char)
    ensures
        match spec_find_char(s, c) {
            Some(i) => 0 <= i < s.len() && s[i] == c && (forall|j: int| 0 <= j < i ==> s[j] != c),
            None => forall|j: int| 0 <= j < s.len() ==> s[j] != c,
        },
    decreases s.len(),
{
    if s.len() == 0 {
    } else if s[0] == c {
    } else {
        lemma_find_char_props(s.skip(1), c);
        assert(forall|j: int| 0 <= j < s.len() - 1 ==> s.skip(1)[j] == s[j + 1]);
        match spec_find_char(s.skip(1), c) {
            Some(i) => {
                assert(s[i + 1] == s.skip(1)[i]);
                assert forall|j: int| 0 <= j < i + 1 implies s[j] != c by {
                    if j > 0 {
                        assert(s[j] == s.skip(1)[j - 1]);
                    }
                }
            },
            None => {
                assert forall|j: int| 0 <= j < s.len() implies s[j] != c by {
                    if j > 0 {
                        assert(s[j] == s.skip(1)[j - 1]);
                    }
                }
            },
        }
    }
}

/// The least index holding `c` is what `spec_find_char` returns.
pub proof fn lemma_find_char_at(s: Seq<char>, c: char, i: int)
    requires
        0 <= i < s.len(),
        s[i] == c,
        forall|j: int| 0 <= j < i ==> s[j] != c,
    ensures
        spec_find_char(s, c) == Some(i),
{
    lemma_find_char_props(s, c);
    match spec_find_char(s, c) {
        Some(k) => {
            if k < i {
                assert(s[k] != c);
            } else if k > i {
                assert(s[i] != c);
            }
        },
        None => {
            assert(s[i] != c);
        },
    }
}

/// Finds the first occurrence of `c` in `s`.
pub fn find_char(s: &str, c: char) -> (r: Option<usize>)
    ensures
        match r {
            Some(i) => spec_find_char(s@, c) == Some(i as int),
            None => spec_find_char(s@, c) is None,
        },
{
    let n: usize = s.unicode_len();
    let mut i: usize = 0;
    while i < n
        invariant
            n == s@.len(),
            0 <= i <= n,
            forall|j: int| 0 <= j < i ==> s@[j] != c,
        decreases n - i,
    {
        if s.get_char(i) == c {
            proof {
                lemma_find_char_at(s@, c, i as int);
            }
            return Some(i);
        }
        i += 1;
    }
    proof {
        match spec_find_char(s@, c) {
            Some(k) => {
                lemma_find_char_props(s@, c);
                assert(s@[k] != c);
            },
            None => {},
        }
    }
    None
}

/// The part of `s` before the first occurrence of `c`, or all of `s` when
/// `c` does not occur.
pub open spec fn spec_seg_before(s: Seq<char>, c: char) -> Seq<char> {
    match spec_find_char(s, c) {
        Some(i) => s.take(i),
        None => s,
    }
}

/// Copies the part of `s` before the first occurrence of `c`, or all of `s`
/// when `c` does not occur.
pub fn seg_before(s: &str, c: char) -> (r: String)
    ensures
        r@ == spec_seg_before(s@, c),
{
    match find_char(s, c) {
        Some(i) => {
            proof {
                lemma_find_char_props(s@, c);
            }
            let n: usize = s.unicode_len();
            let part = s.substring_char(0, i);
            assert(part@ =~= s@.take(i as int));
            part.to_owned()
        },
        None => s.to_owned(),
    }
}

/// The part of `s` after the first occurrence of `c`; the whole of `s` when
/// `c` does not occur.
pub open spec fn spec_after_first(s: Seq<char>, c: char) -> Seq<char> {
    match spec_find_char(s, c) {
        Some(i) => s.skip(i + 1),
        None => s,
    }
}

/// Copies the part of `s` after the first occurrence of `c`, or all of `s`
/// when `c` does not occur.
pub fn after_first(s: &str, c: char) -> (r: String)
    ensures
        r@ == spec_after_first(s@, c),
{
    match find_char(s, c) {
        Some(i) => {
            proof {
                lemma_find_char_props(s@, c);
            }
            let n: usize = s.unicode_len();
            let part = s.substring_char(i + 1, n);
            assert(part@ =~= s@.skip(i as int + 1));
            part.to_owned()
        },
        None => s.to_owned(),
    }
}

/// Two strings are equal exactly when their character sequences are.
pub fn str_eq(a: &str, b: &str) -> (r: bool)
    ensures
        r == (a@ == b@),
{
    let na: usize = a.unicode_len();
    let nb: usize = b.unicode_len();
    if na != nb {
        return false;
    }
    let mut i: usize = 0;
    while i < na
        invariant
            na == a@.len(),
            nb == b@.len(),
            na == nb,
            0 <= i <= na,
            forall|j: int| 0 <= j < i ==> a@[j] == b@[j],
        decreases na - i,
    {
        if a.get_char(i) != b.get_char(i) {
            return false;
        }
        i += 1;
    }
    assert(a@ =~= b@);
    true
}

} // verus!
