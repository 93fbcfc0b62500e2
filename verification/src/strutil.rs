//! Small helpers for building and reading strings in verified code.

use vstd::prelude::*;
use vstd::string::StrSliceExecFns;

verus! {

/// Relies on std's String::push: appends one character at the end.
#[verifier::external_body]
pub fn push_char(s: &mut String, c: char)
    ensures
        final(s)@ == old(s)@.push(c),
{
    s.push(c)
}

/// The characters of a string, as a vector.
pub fn str_chars(s: &str) -> (v: Vec<char>)
    ensures
        v@ == s@,
{
    let n = s.unicode_len();
    let mut v: Vec<char> = Vec::new();
    let mut i: usize = 0;
    while i < n
        invariant
            i <= n,
            n == s@.len(),
            v@ == s@.take(i as int),
        decreases n - i,
    {
        v.push(s.get_char(i));
        proof {
            assert(v@ =~= s@.take(i as int + 1));
        }
        i = i + 1;
    }
    proof {
        assert(s@.take(n as int) =~= s@);
    }
    v
}

/// A string with exactly the given characters.
pub fn string_of_chars(v: &Vec<char>) -> (s: String)
    ensures
        s@ == v@,
{
    let mut s = String::new();
    let mut i: usize = 0;
    while i < v.len()
        invariant
            i <= v@.len(),
            s@ == v@.take(i as int),
        decreases v@.len() - i,
    {
        push_char(&mut s, v[i]);
        proof {
            assert(s@ =~= v@.take(i as int + 1));
        }
        i = i + 1;
    }
    proof {
        assert(v@.take(v@.len() as int) =~= v@);
    }
    s
}

/// Whether two strings hold the same characters.
pub fn str_eq(a: &str, b: &str) -> (r: bool)
    ensures
        r == (a@ == b@),
{
    let ca = str_chars(a);
    let cb = str_chars(b);
    if ca.len() != cb.len() {
        return false;
    }
    let mut i: usize = 0;
    while i < ca.len()
        invariant
            i <= ca@.len(),
            ca@.len() == cb@.len(),
            ca@ == a@,
            cb@ == b@,
            forall|j: int| 0 <= j < i ==> a@[j] == b@[j],
        decreases ca@.len() - i,
    {
        if ca[i] != cb[i] {
            return false;
        }
        i = i + 1;
    }
    proof {
        assert(a@ =~= b@);
    }
    true
}

/// The pattern occurs in `s` at position `i`.
pub open spec fn sub_at(s: Seq<char>, pat: Seq<char>, i: int) -> bool {
    0 <= i && i + pat.len() <= s.len() && s.subrange(i, i + pat.len()) == pat
}

/// The pattern occurs somewhere in `s`.
pub open spec fn contains_sub(s: Seq<char>, pat: Seq<char>) -> bool {
    exists|i: int| sub_at(s, pat, i)
}

/// `i` is the first position where the pattern occurs.
pub open spec fn is_first_sub_at(s: Seq<char>, pat: Seq<char>, i: int) -> bool {
    sub_at(s, pat, i) && forall|j: int| 0 <= j < i ==> !sub_at(s, pat, j)
}

/// Two first positions of the same pattern coincide.
pub proof fn lemma_first_sub_unique(s: Seq<char>, pat: Seq<char>, a: int, b: int)
    requires
        is_first_sub_at(s, pat, a),
        is_first_sub_at(s, pat, b),
    ensures
        a == b,
{
    if a < b {
        assert(!sub_at(s, pat, a));
    } else if b < a {
        assert(!sub_at(s, pat, b));
    }
}

/// The first position of `pat` in `hay`, when it occurs.
pub fn find_sub(hay: &Vec<char>, pat: &Vec<char>) -> (r: Option<usize>)
    ensures
        match r {
            Some(i) => is_first_sub_at(hay@, pat@, i as int),
            None => !contains_sub(hay@, pat@),
        },
{
    let n = hay.len();
    let m = pat.len();
    if m == 0 {
        proof {
            assert(hay@.subrange(0, 0) =~= pat@);
        }
        return Some(0);
    }
    if m > n {
        proof {
            assert forall|i: int| !sub_at(hay@, pat@, i) by {}
        }
        return None;
    }
    let mut i: usize = 0;
    while i <= n - m
        invariant
            1 <= m <= n,
            n == hay@.len(),
            m == pat@.len(),
            i <= n - m + 1,
            forall|j: int| 0 <= j < i ==> !sub_at(hay@, pat@, j),
        decreases n - m - i + 1,
    {
        let mut j: usize = 0;
        let mut matched = true;
        while j < m && matched
            invariant
                j <= m,
                1 <= m <= n,
                i <= n - m,
                n == hay@.len(),
                m == pat@.len(),
                matched ==> forall|t: int| 0 <= t < j ==> hay@[i + t] == pat@[t],
                !matched ==> !sub_at(hay@, pat@, i as int),
            decreases m - j + (if matched { 1int } else { 0 }),
        {
            if hay[i + j] != pat[j] {
                proof {
                    if sub_at(hay@, pat@, i as int) {
                        assert(hay@.subrange(i as int, i + m) == pat@);
                        assert(hay@.subrange(i as int, i + m)[j as int] == pat@[j as int]);
                    }
                }
                matched = false;
            } else {
                j = j + 1;
            }
        }
        if matched {
            proof {
                assert(hay@.subrange(i as int, i + m) =~= pat@);
                assert(sub_at(hay@, pat@, i as int));
            }
            return Some(i);
        }
        i = i + 1;
    }
    proof {
        assert forall|j: int| !sub_at(hay@, pat@, j) by {
            if 0 <= j <= n - m {
                assert(j < i);
            }
        }
    }
    None
}

} // verus!
