//! Device fingerprints: SHA-256 over the identifying fields of a device.

use vstd::prelude::*;
use vstd::string::StrSliceExecFns;
use vstd::utf8::encode_utf8;
use crate::hashing::{sha256_of, hex_of, is_lower_hex, sha256_tag, sha256_hex_tagged};
use crate::strutil::{str_chars, string_of_chars};

verus! {

/// The fields of a device that identify it physically. Optional fields
/// contribute their bytes to the fingerprint when present and contribute
/// nothing when absent.
pub struct FingerprintInput {
    pub vendor_id: String,
    pub product_id: String,
    pub serial: Option<String>,
    pub manufacturer: Option<String>,
    pub product: Option<String>,
    pub raw_descriptors: Option<Vec<u8>>,
}

pub open spec fn opt_str_bytes(o: Option<String>) -> Seq<u8> {
    match o {
        Some(s) => encode_utf8(s@),
        None => Seq::empty(),
    }
}

pub open spec fn opt_vec_bytes(o: Option<Vec<u8>>) -> Seq<u8> {
    match o {
        Some(v) => v@,
        None => Seq::empty(),
    }
}

/// The byte sequence that is hashed: the fields in a fixed order, each
/// followed by a `|` separator, except the raw descriptors which come last.
pub open spec fn fp_message(i: &FingerprintInput) -> Seq<u8> {
    encode_utf8(i.vendor_id@) + seq![124u8] + encode_utf8(i.product_id@) + seq![124u8]
        + opt_str_bytes(i.serial) + seq![124u8] + opt_str_bytes(i.manufacturer) + seq![124u8]
        + opt_str_bytes(i.product) + seq![124u8] + opt_vec_bytes(i.raw_descriptors)
}

/// What `compute_fingerprint` returns: the `sha256:` tag, then the digest
/// in lowercase hex.
pub open spec fn fingerprint_of(i: &FingerprintInput) -> Seq<char> {
    sha256_tag() + hex_of(sha256_of(fp_message(i)))
}

fn append_str_bytes(m: &mut Vec<u8>, s: &str)
    ensures
        final(m)@ == old(m)@ + encode_utf8(s@),
{
    let mut b = s.as_bytes_vec();
    m.append(&mut b);
}

/// The fingerprint of a device: deterministic in the input, and always of
/// the form `sha256:` followed by 64 lowercase hex digits.
pub fn compute_fingerprint(input: &FingerprintInput) -> (r: String)
    ensures
        r@ == fingerprint_of(input),
        r@.len() == 71,
        r@.subrange(0, 7) == sha256_tag(),
        forall|i: int| 7 <= i < 71 ==> is_lower_hex(#[trigger] r@[i]),
{
    let mut m: Vec<u8> = Vec::new();
    append_str_bytes(&mut m, input.vendor_id.as_str());
    m.push(124);
    append_str_bytes(&mut m, input.product_id.as_str());
    m.push(124);
    match &input.serial {
        Some(s) => append_str_bytes(&mut m, s.as_str()),
        None => {},
    }
    m.push(124);
    match &input.manufacturer {
        Some(s) => append_str_bytes(&mut m, s.as_str()),
        None => {},
    }
    m.push(124);
    match &input.product {
        Some(s) => append_str_bytes(&mut m, s.as_str()),
        None => {},
    }
    m.push(124);
    match &input.raw_descriptors {
        Some(d) => {
            let mut dv = d.clone();
            m.append(&mut dv);
        },
        None => {},
    }
    proof {
        assert(m@ =~= fp_message(input));
    }
    sha256_hex_tagged(&m)
}

/// `i` is the least index of `c` in `s`.
pub open spec fn is_first_at(s: Seq<char>, c: char, i: int) -> bool {
    0 <= i < s.len() && s[i] == c && forall|j: int| 0 <= j < i ==> s[j] != c
}

/// `j` is the least index of `c` in `s` strictly after `i`.
pub open spec fn is_next_at(s: Seq<char>, c: char, i: int, j: int) -> bool {
    i < j < s.len() && s[j] == c && forall|t: int| i < t < j ==> s[t] != c
}

/// The characters after index `i` up to the next `:` or the end.
pub open spec fn colon_piece(s: Seq<char>, i: int) -> Seq<char> {
    if exists|j: int| is_next_at(s, ':', i, j) {
        let j = choose|j: int| is_next_at(s, ':', i, j);
        s.subrange(i + 1, j)
    } else {
        s.subrange(i + 1, s.len() as int)
    }
}

/// At most the first eight characters.
pub open spec fn take8(s: Seq<char>) -> Seq<char> {
    s.take(
        if s.len() < 8 {
            s.len() as int
        } else {
            8
        },
    )
}

/// The short form of a fingerprint: up to eight characters of the part
/// between the first `:` and the next one, or of the whole string when it
/// holds no `:`.
pub open spec fn short_fp_of(s: Seq<char>) -> Seq<char> {
    if exists|i: int| is_first_at(s, ':', i) {
        let i = choose|i: int| is_first_at(s, ':', i);
        take8(colon_piece(s, i))
    } else {
        take8(s)
    }
}

proof fn lemma_first_at_unique(s: Seq<char>, c: char, a: int, b: int)
    requires
        is_first_at(s, c, a),
        is_first_at(s, c, b),
    ensures
        a == b,
{
    if a < b {
        assert(s[a] != c);
    } else if b < a {
        assert(s[b] != c);
    }
}

proof fn lemma_next_at_unique(s: Seq<char>, c: char, i: int, a: int, b: int)
    requires
        is_next_at(s, c, i, a),
        is_next_at(s, c, i, b),
    ensures
        a == b,
{
    if a < b {
        assert(s[a] != c);
    } else if b < a {
        assert(s[b] != c);
    }
}

/// The index of the first `c` in `chars`, when there is one.
pub fn find_char(chars: &Vec<char>, c: char) -> (r: Option<usize>)
    ensures
        match r {
            Some(i) => is_first_at(chars@, c, i as int),
            None => forall|j: int| 0 <= j < chars@.len() ==> chars@[j] != c,
        },
{
    let mut idx: usize = 0;
    while idx < chars.len()
        invariant
            idx <= chars@.len(),
            forall|j: int| 0 <= j < idx ==> chars@[j] != c,
        decreases chars@.len() - idx,
    {
        if chars[idx] == c {
            return Some(idx);
        }
        idx = idx + 1;
    }
    None
}

/// Up to eight characters of `chars` after index `idx`, stopping at a `:`.
#[verifier::rlimit(30)]
fn take8_piece(chars: &Vec<char>, idx: usize) -> (out: Vec<char>)
    requires
        idx < chars@.len(),
        chars@[idx as int] == ':',
    ensures
        out@ == take8(colon_piece(chars@, idx as int)),
{
    let n = chars.len();
    let mut out: Vec<char> = Vec::new();
    let mut k: usize = idx + 1;
    while k < n && k - idx <= 8 && chars[k] != ':'
        invariant
            idx < k <= n,
            n == chars@.len(),
            k - idx <= 9,
            forall|t: int| idx < t < k ==> chars@[t] != ':',
            out@ == chars@.subrange(idx as int + 1, k as int),
        decreases n - k,
    {
        out.push(chars[k]);
        proof {
            assert(out@ =~= chars@.subrange(idx as int + 1, k as int + 1));
        }
        k = k + 1;
    }
    proof {
        let s = chars@;
        let i = idx as int;
        if k < n && s[k as int] == ':' {
            // Stopped at the next colon, at index k.
            assert(is_next_at(s, ':', i, k as int));
            let j = choose|j: int| is_next_at(s, ':', i, j);
            lemma_next_at_unique(s, ':', i, j, k as int);
            assert(colon_piece(s, i) == out@);
            assert(out@.len() <= 8);
            assert(take8(out@) =~= out@);
        } else if k == n {
            // Reached the end without another colon.
            assert forall|j: int| !is_next_at(s, ':', i, j) by {
                if i < j < s.len() {
                    assert(s[j] != ':');
                }
            }
            assert(colon_piece(s, i) == s.subrange(i + 1, s.len() as int));
            assert(out@ == colon_piece(s, i));
            assert(out@.len() <= 8);
            assert(take8(out@) =~= out@);
        } else {
            // Stopped by the length cap: exactly eight characters taken.
            assert(k - idx == 9);
            assert(out@.len() == 8);
            let piece = colon_piece(s, i);
            if exists|j: int| is_next_at(s, ':', i, j) {
                let j = choose|j: int| is_next_at(s, ':', i, j);
                assert(j >= k as int) by {
                    if j < k as int {
                        assert(s[j] != ':');
                    }
                }
                assert(piece == s.subrange(i + 1, j));
                assert(out@ =~= piece.take(8));
            } else {
                assert(piece == s.subrange(i + 1, s.len() as int));
                assert(out@ =~= piece.take(8));
            }
        }
        assert(out@ == take8(colon_piece(s, i)));
    }
    out
}

/// The first eight characters of the hex part of a fingerprint (or of the
/// whole string when it has no `sha256:`-style prefix).
pub fn short_fingerprint(full: &str) -> (r: String)
    ensures
        r@ == short_fp_of(full@),
{
    let chars = str_chars(full);
    match find_char(&chars, ':') {
        Some(idx) => {
            let out = take8_piece(&chars, idx);
            proof {
                let s = chars@;
                assert(is_first_at(s, ':', idx as int));
                let i = choose|i: int| is_first_at(s, ':', i);
                lemma_first_at_unique(s, ':', i, idx as int);
            }
            string_of_chars(&out)
        },
        None => {
            let n = chars.len();
            let cap = if n < 8 {
                n
            } else {
                8
            };
            let mut out: Vec<char> = Vec::new();
            let mut k: usize = 0;
            while k < cap
                invariant
                    k <= cap,
                    cap == (if n < 8 {
                        n
                    } else {
                        8
                    }),
                    n == chars@.len(),
                    out@ == chars@.take(k as int),
                decreases cap - k,
            {
                out.push(chars[k]);
                proof {
                    assert(out@ =~= chars@.take(k as int + 1));
                }
                k = k + 1;
            }
            proof {
                if exists|i: int| is_first_at(chars@, ':', i) {
                    let i = choose|i: int| is_first_at(chars@, ':', i);
                    assert(chars@[i] != ':');
                }
                assert(out@ == short_fp_of(chars@));
            }
            string_of_chars(&out)
        },
    }
}

} // verus!
