//! The trusted-key store: named 32-byte Ed25519 public keys.
//!
//! The store itself is a directory of `<name>.pub` files; reading and
//! writing those files is the caller's business. Everything that decides —
//! file-name shape, key decoding, listing order, and whether any stored
//! key verifies a baseline — is here.

use vstd::prelude::*;
use vstd::string::{StrSliceExecFns, StringExecFns};
use vstd::multiset::Multiset;
use crate::b64::{b64_decoded, b64_decode};
use crate::baseline::{Baseline, verify_ok};
use crate::strutil::str_chars;

verus! {

/// The name ends in `.pub`.
pub open spec fn ends_with_pub(v: Seq<char>) -> bool {
    v.len() >= 4 && v.subrange(v.len() - 4, v.len() as int) == ".pub"@
}

/// The name has the extension `pub`: it ends in `.pub` with a non-empty
/// stem before it.
pub open spec fn has_pub_ext(v: Seq<char>) -> bool {
    v.len() >= 5 && v.subrange(v.len() - 4, v.len() as int) == ".pub"@
}

fn ends_with_pub_exec(name: &str) -> (r: bool)
    ensures
        r == ends_with_pub(name@),
{
    let chars = str_chars(name);
    let n = chars.len();
    proof {
        reveal_strlit(".pub");
    }
    if n < 4 {
        return false;
    }
    let r = chars[n - 4] == '.' && chars[n - 3] == 'p' && chars[n - 2] == 'u' && chars[n - 1]
        == 'b';
    proof {
        if r {
            assert(name@.subrange(n - 4, n as int) =~= ".pub"@);
        } else {
            assert(name@.subrange(n - 4, n as int) != ".pub"@) by {
                if name@.subrange(n - 4, n as int) == ".pub"@ {
                    assert(name@.subrange(n - 4, n as int)[0] == '.');
                    assert(name@.subrange(n - 4, n as int)[1] == 'p');
                    assert(name@.subrange(n - 4, n as int)[2] == 'u');
                    assert(name@.subrange(n - 4, n as int)[3] == 'b');
                }
            }
        }
    }
    r
}

/// Whether a directory entry counts as a stored key: extension `pub`.
pub fn is_key_file_name(name: &str) -> (r: bool)
    ensures
        r == has_pub_ext(name@),
{
    let chars = str_chars(name);
    chars.len() >= 5 && ends_with_pub_exec(name)
}

/// The file name for a key called `name`: `.pub` is appended unless the
/// name already ends with it.
pub fn key_file_name(name: &str) -> (r: String)
    ensures
        r@ == if ends_with_pub(name@) {
            name@
        } else {
            name@ + ".pub"@
        },
{
    if ends_with_pub_exec(name) {
        name.to_owned()
    } else {
        let mut s = name.to_owned();
        s.append(".pub");
        s
    }
}

/// The raw key for a base64 text: present exactly when the text decodes
/// to 32 bytes.
pub fn decode_pub_key(key_b64: &str) -> (r: Option<Vec<u8>>)
    ensures
        match b64_decoded(key_b64@) {
            Some(d) => {
                &&& d.len() == 32 ==> (r matches Some(v) && v@ == d)
                &&& d.len() != 32 ==> r is None
            },
            None => r is None,
        },
{
    match b64_decode(key_b64) {
        Some(v) => {
            if v.len() == 32 {
                Some(v)
            } else {
                None
            }
        },
        None => None,
    }
}

/// Whether any of the given 32-byte keys verifies the baseline's
/// signature. Entries of other lengths are skipped, as the store skips
/// files that do not hold exactly 32 bytes.
pub fn any_verifies(baseline: &Baseline, keys: &Vec<Vec<u8>>) -> (r: bool)
    ensures
        r == exists|i: int|
            0 <= i < keys@.len() && (#[trigger] keys@[i])@.len() == 32 && verify_ok(
                baseline,
                keys@[i]@,
            ),
{
    let mut i: usize = 0;
    while i < keys.len()
        invariant
            i <= keys@.len(),
            forall|j: int|
                0 <= j < i ==> !((#[trigger] keys@[j])@.len() == 32 && verify_ok(
                    baseline,
                    keys@[j]@,
                )),
        decreases keys@.len() - i,
    {
        let k = &keys[i];
        if k.len() == 32 {
            match baseline.verify_signature(k) {
                Ok(true) => {
                    return true;
                },
                _ => {},
            }
        }
        i = i + 1;
    }
    false
}

/// Lexicographic order on character sequences, by Unicode scalar value,
/// read from position `i`.
pub open spec fn lex_le_from(a: Seq<char>, b: Seq<char>, i: int) -> bool
    decreases a.len() - i,
{
    if i < 0 {
        true
    } else if i >= a.len() {
        true
    } else if i >= b.len() {
        false
    } else if (a[i] as u32) < (b[i] as u32) {
        true
    } else if (a[i] as u32) > (b[i] as u32) {
        false
    } else {
        lex_le_from(a, b, i + 1)
    }
}

/// Lexicographic order on character sequences.
pub open spec fn lex_le(a: Seq<char>, b: Seq<char>) -> bool {
    lex_le_from(a, b, 0)
}

proof fn lemma_lex_total_from(a: Seq<char>, b: Seq<char>, i: int)
    ensures
        lex_le_from(a, b, i) || lex_le_from(b, a, i),
    decreases a.len() - i,
{
    if 0 <= i < a.len() && i < b.len() && (a[i] as u32) == (b[i] as u32) {
        lemma_lex_total_from(a, b, i + 1);
    }
}

/// One of two sequences always precedes the other.
pub proof fn lemma_lex_total(a: Seq<char>, b: Seq<char>)
    ensures
        lex_le(a, b) || lex_le(b, a),
{
    lemma_lex_total_from(a, b, 0);
}

/// Whether `a` precedes `b` (or equals it) lexicographically.
pub fn str_lex_le(a: &str, b: &str) -> (r: bool)
    ensures
        r == lex_le(a@, b@),
{
    let ca = str_chars(a);
    let cb = str_chars(b);
    let mut i: usize = 0;
    loop
        invariant
            i <= ca@.len(),
            i <= cb@.len(),
            ca@ == a@,
            cb@ == b@,
            lex_le(a@, b@) == lex_le_from(a@, b@, i as int),
        decreases ca@.len() - i,
    {
        if i >= ca.len() {
            return true;
        }
        if i >= cb.len() {
            return false;
        }
        let x = ca[i] as u32;
        let y = cb[i] as u32;
        if x < y {
            return true;
        }
        if x > y {
            return false;
        }
        i = i + 1;
    }
}

/// The views of a sequence of strings.
pub open spec fn views_of(s: Seq<String>) -> Seq<Seq<char>> {
    s.map_values(|x: String| x@)
}

/// Adjacent elements are in order.
pub open spec fn sorted_views(s: Seq<Seq<char>>) -> bool {
    forall|i: int| 0 <= i && i + 1 < s.len() ==> lex_le(#[trigger] s[i], s[i + 1])
}

proof fn lemma_insert_multiset<A>(s: Seq<A>, pos: int, x: A)
    requires
        0 <= pos <= s.len(),
    ensures
        s.insert(pos, x).to_multiset() == s.to_multiset().insert(x),
{
    broadcast use vstd::seq_lib::group_to_multiset_ensures;
    broadcast use vstd::multiset::group_multiset_axioms;

    let s2 = s.insert(pos, x);
    assert(s2.remove(pos) =~= s);
    assert(s2[pos] == x);
    assert(s2.remove(pos).to_multiset() =~= s2.to_multiset().remove(x));
    assert(s2.to_multiset().contains(x)) by {
        assert(s2.contains(x));
    }
    assert(s2.to_multiset() =~= s2.to_multiset().remove(x).insert(x));
}

/// The names with extension `pub`, in sorted order: the listing of the
/// key store for a directory whose entries are `names`.
pub fn sorted_pub_names(names: &Vec<String>) -> (r: Vec<String>)
    ensures
        sorted_views(views_of(r@)),
        views_of(r@).to_multiset() == views_of(names@).filter(
            |v: Seq<char>| has_pub_ext(v),
        ).to_multiset(),
{
    broadcast use vstd::seq_lib::group_to_multiset_ensures;

    let mut out: Vec<String> = Vec::new();
    let mut i: usize = 0;
    while i < names.len()
        invariant
            i <= names@.len(),
            sorted_views(views_of(out@)),
            views_of(out@).to_multiset() == views_of(names@.take(i as int)).filter(
                |v: Seq<char>| has_pub_ext(v),
            ).to_multiset(),
        decreases names@.len() - i,
    {
        let name = &names[i];
        let ghost pred = |v: Seq<char>| has_pub_ext(v);
        let ghost pref = views_of(names@.take(i as int + 1));
        proof {
            reveal(Seq::filter);
            assert(names@.take(i as int + 1).len() == i as int + 1);
            assert(pref.len() == i as int + 1);
            assert(pref.drop_last() =~= views_of(names@.take(i as int)));
            assert(pref.last() == names@[i as int]@);
            assert(pref.filter(pred) == if pred(pref.last()) {
                pref.drop_last().filter(pred).push(pref.last())
            } else {
                pref.drop_last().filter(pred)
            });
        }
        if is_key_file_name(name.as_str()) {
            // Find the first position whose element does not precede `name`.
            let mut pos: usize = 0;
            while pos < out.len() && str_lex_le(out[pos].as_str(), name.as_str())
                invariant
                    pos <= out@.len(),
                    forall|j: int| 0 <= j < pos ==> lex_le(views_of(out@)[j], name@),
                decreases out@.len() - pos,
            {
                pos = pos + 1;
            }
            let ghost oldviews = views_of(out@);
            out.insert(pos, name.clone());
            proof {
                let nv = views_of(out@);
                assert(nv =~= oldviews.insert(pos as int, name@));
                lemma_insert_multiset(oldviews, pos as int, name@);
                assert(nv.to_multiset() == pref.filter(pred).to_multiset()) by {
                    reveal(Seq::filter);
                    let fl = views_of(names@.take(i as int)).filter(pred);
                    assert(pref.drop_last().filter(pred) == fl);
                    assert(pred(pref.last()));
                    assert(pref.filter(pred) == fl.push(name@));
                    vstd::seq_lib::to_multiset_build(fl, name@);
                    assert(fl.push(name@).to_multiset() == fl.to_multiset().insert(name@));
                    assert(nv.to_multiset() == oldviews.to_multiset().insert(name@));
                }
                // Indexing around the insertion point.
                assert(nv == oldviews.subrange(0, pos as int).push(name@) + oldviews.subrange(
                    pos as int,
                    oldviews.len() as int,
                ));
                assert forall|t: int| 0 <= t < pos implies nv[t] == oldviews[t] by {
                    assert(nv[t] == oldviews.subrange(0, pos as int)[t]);
                }
                assert(nv[pos as int] == name@);
                assert forall|t: int| pos < t < nv.len() implies nv[t] == oldviews[t - 1] by {
                    assert(nv[t] == oldviews.subrange(pos as int, oldviews.len() as int)[t - pos
                        - 1]);
                }
                // Order around the inserted element.
                assert forall|k: int| 0 <= k && k + 1 < nv.len() implies lex_le(
                    #[trigger] nv[k],
                    nv[k + 1],
                ) by {
                    if k + 1 < pos {
                        assert(nv[k] == oldviews[k]);
                        assert(nv[k + 1] == oldviews[k + 1]);
                    } else if k + 1 == pos {
                        assert(nv[k] == oldviews[k]);
                        assert(nv[k + 1] == name@);
                    } else if k == pos {
                        assert(nv[k] == name@);
                        assert(nv[k + 1] == oldviews[k]);
                        if pos < oldviews.len() {
                            assert(!lex_le(oldviews[pos as int], name@));
                            lemma_lex_total(oldviews[pos as int], name@);
                        }
                    } else {
                        assert(nv[k] == oldviews[k - 1]);
                        assert(nv[k + 1] == oldviews[k]);
                    }
                }
            }
        } else {
            proof {
                assert(views_of(out@).to_multiset() == pref.filter(pred).to_multiset()) by {
                    reveal(Seq::filter);
                    assert(pref.filter(pred) == pref.drop_last().filter(pred));
                }
            }
        }
        i = i + 1;
    }
    proof {
        assert(names@.take(names@.len() as int) =~= names@);
    }
    out
}

} // verus!
