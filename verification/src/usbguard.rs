//! The rule-engine adapter: parsing the engine's device listing.
//!
//! The engine itself is an external subprocess; invoking it, and the
//! atomic rule-file replacement around its `reload` command, live with
//! the caller. What is parsed out of its `list-devices` output is decided
//! here, line by line: the `vid:pid` pair after ` id `, the quoted text
//! after ` serial "`, a device type guessed from the interface tags, and
//! the allow/block verdict at the start of the line.

use vstd::prelude::*;
use vstd::string::StringExecFns;
use crate::strutil::{
    str_chars, string_of_chars, sub_at, contains_sub, is_first_sub_at, lemma_first_sub_unique,
    find_sub,
};
use crate::fingerprint::{is_first_at, find_char};
use crate::types::DeviceInfo;

verus! {

/// What can go wrong when driving the engine.
#[derive(Debug)]
pub enum BackendError {
    Cmd(String),
}

/// The adapter for the external rule engine.
pub struct UsbguardBackend;

impl Default for UsbguardBackend {
    fn default() -> UsbguardBackend {
        UsbguardBackend
    }
}

/// ASCII whitespace, as line trimming treats it.
pub open spec fn is_space(c: char) -> bool {
    c == ' ' || c == '\t' || c == '\n' || c == '\r' || c as u32 == 11 || c as u32 == 12
}

pub open spec fn trim_start_of(s: Seq<char>) -> Seq<char>
    decreases s.len(),
{
    if s.len() > 0 && is_space(s[0]) {
        trim_start_of(s.drop_first())
    } else {
        s
    }
}

pub open spec fn trim_end_of(s: Seq<char>) -> Seq<char>
    decreases s.len(),
{
    if s.len() > 0 && is_space(s.last()) {
        trim_end_of(s.drop_last())
    } else {
        s
    }
}

/// The line with leading and trailing whitespace removed.
pub open spec fn trim_of(s: Seq<char>) -> Seq<char> {
    trim_end_of(trim_start_of(s))
}

/// The text split at every newline; a trailing newline yields a final
/// empty piece, which parses to nothing.
pub open spec fn split_nl(s: Seq<char>) -> Seq<Seq<char>>
    decreases s.len(),
{
    if exists|i: int| is_first_at(s, '\n', i) {
        let i = choose|i: int| is_first_at(s, '\n', i);
        seq![s.take(i)] + split_nl(s.skip(i + 1))
    } else {
        seq![s]
    }
}

/// One device as a listing line describes it.
pub ghost struct ParsedDevice {
    pub id: Seq<char>,
    pub vendor_id: Seq<char>,
    pub product_id: Seq<char>,
    pub serial: Seq<char>,
    pub device_type: Seq<char>,
    pub allowed: bool,
    pub persistent: bool,
}

/// The `vid:pid` pair after the first ` id `, when the line has one
/// followed by a space: the pair itself, then the `0x`-prefixed halves.
pub open spec fn id_extract(s: Seq<char>) -> Option<(Seq<char>, Seq<char>, Seq<char>)> {
    if contains_sub(s, " id "@) {
        let i = choose|i: int| is_first_sub_at(s, " id "@, i);
        let rest = s.skip(i + 4);
        if exists|sp: int| is_first_at(rest, ' ', sp) {
            let sp = choose|sp: int| is_first_at(rest, ' ', sp);
            let pair = rest.take(sp);
            if exists|c: int| is_first_at(pair, ':', c) {
                let c = choose|c: int| is_first_at(pair, ':', c);
                Some((pair, "0x"@ + pair.take(c), "0x"@ + pair.skip(c + 1)))
            } else {
                None
            }
        } else {
            None
        }
    } else {
        None
    }
}

/// The text after the first ` serial "` marker up to the next quote.
/// (The skip lands on the opening quote itself, so in practice this is
/// empty; the adapter has always behaved so.)
pub open spec fn serial_of(s: Seq<char>) -> Seq<char> {
    if contains_sub(s, " serial \""@) {
        let si = choose|si: int| is_first_sub_at(s, " serial \""@, si);
        let rest = s.skip(si + 8);
        if exists|q: int| is_first_at(rest, '"', q) {
            let q = choose|q: int| is_first_at(rest, '"', q);
            rest.take(q)
        } else {
            Seq::empty()
        }
    } else {
        Seq::empty()
    }
}

/// A device type guessed from the interface tags on the line.
pub open spec fn dtype_of(s: Seq<char>) -> Seq<char> {
    if contains_sub(s, "with-interface +hid"@) {
        "hid"@
    } else if contains_sub(s, "with-interface +mass-storage"@) {
        "storage"@
    } else {
        Seq::empty()
    }
}

/// What a trimmed listing line describes, when it names a device.
pub open spec fn parse_line(s: Seq<char>) -> Option<ParsedDevice> {
    if s.len() == 0 {
        None
    } else {
        match id_extract(s) {
            Some(t) => Some(
                ParsedDevice {
                    id: t.0,
                    vendor_id: t.1,
                    product_id: t.2,
                    serial: serial_of(s),
                    device_type: dtype_of(s),
                    allowed: sub_at(s, "allow"@, 0),
                    persistent: contains_sub(s, "allow "@),
                },
            ),
            None => None,
        }
    }
}

pub open spec fn opt_dev(o: Option<ParsedDevice>) -> Seq<ParsedDevice> {
    match o {
        Some(d) => seq![d],
        None => Seq::empty(),
    }
}

pub open spec fn parse_pieces(ps: Seq<Seq<char>>) -> Seq<ParsedDevice>
    decreases ps.len(),
{
    if ps.len() == 0 {
        Seq::empty()
    } else {
        parse_pieces(ps.drop_last()) + opt_dev(parse_line(trim_of(ps.last())))
    }
}

/// Every device the whole listing describes, in line order.
pub open spec fn parsed_devices_of(text: Seq<char>) -> Seq<ParsedDevice> {
    parse_pieces(split_nl(text))
}

/// The record holds exactly what the line described; the fingerprint is
/// left empty here.
pub open spec fn device_matches(d: DeviceInfo, p: ParsedDevice) -> bool {
    &&& d.id@ == p.id
    &&& d.vendor_id@ == p.vendor_id
    &&& d.product_id@ == p.product_id
    &&& d.serial@ == p.serial
    &&& d.fingerprint@ == Seq::<char>::empty()
    &&& d.device_type@ == p.device_type
    &&& d.allowed == p.allowed
    &&& d.persistent == p.persistent
}

fn copy_range(v: &Vec<char>, from: usize, to: usize) -> (r: Vec<char>)
    requires
        from <= to <= v@.len(),
    ensures
        r@ == v@.subrange(from as int, to as int),
{
    let mut out: Vec<char> = Vec::new();
    let mut i: usize = from;
    while i < to
        invariant
            from <= i <= to <= v@.len(),
            out@ == v@.subrange(from as int, i as int),
        decreases to - i,
    {
        out.push(v[i]);
        proof {
            assert(out@ =~= v@.subrange(from as int, i as int + 1));
        }
        i = i + 1;
    }
    out
}

fn has_prefix(hay: &Vec<char>, pat: &Vec<char>) -> (r: bool)
    ensures
        r == sub_at(hay@, pat@, 0),
{
    if pat.len() > hay.len() {
        return false;
    }
    let mut j: usize = 0;
    while j < pat.len()
        invariant
            j <= pat@.len() <= hay@.len(),
            forall|t: int| 0 <= t < j ==> hay@[t] == pat@[t],
        decreases pat@.len() - j,
    {
        if hay[j] != pat[j] {
            proof {
                if sub_at(hay@, pat@, 0) {
                    assert(hay@.subrange(0, pat@.len() as int)[j as int] == pat@[j as int]);
                }
            }
            return false;
        }
        j = j + 1;
    }
    proof {
        assert(hay@.subrange(0, pat@.len() as int) =~= pat@);
    }
    true
}

fn is_space_char(c: char) -> (r: bool)
    ensures
        r == is_space(c),
{
    c == ' ' || c == '\t' || c == '\n' || c == '\r' || c as u32 == 11 || c as u32 == 12
}

/// Trims ASCII whitespace from both ends.
fn trim_chars(chars: &Vec<char>) -> (r: Vec<char>)
    ensures
        r@ == trim_of(chars@),
{
    let n = chars.len();
    proof {
        assert(chars@.skip(0) =~= chars@);
    }
    let mut a: usize = 0;
    while a < n && is_space_char(chars[a])
        invariant
            a <= n,
            n == chars@.len(),
            trim_start_of(chars@) == trim_start_of(chars@.skip(a as int)),
        decreases n - a,
    {
        proof {
            let t = chars@.skip(a as int);
            assert(t[0] == chars@[a as int]);
            assert(t.drop_first() =~= chars@.skip(a as int + 1));
        }
        a = a + 1;
    }
    let ghost tail = chars@.skip(a as int);
    proof {
        if tail.len() > 0 && is_space(tail[0]) {
            assert(chars@[a as int] == tail[0]);
            assert(false);
        }
        assert(trim_start_of(chars@) == tail);
        assert(tail.take((n - a) as int) =~= tail);
    }
    let mut k: usize = n - a;
    while k > 0 && is_space_char(chars[a + k - 1])
        invariant
            k <= n - a,
            a <= n,
            n == chars@.len(),
            tail == chars@.skip(a as int),
            trim_end_of(tail) == trim_end_of(tail.take(k as int)),
        decreases k,
    {
        proof {
            let t = tail.take(k as int);
            assert(t.last() == chars@[a + k - 1]);
            assert(t.drop_last() =~= tail.take(k as int - 1));
        }
        k = k - 1;
    }
    proof {
        let t = tail.take(k as int);
        if t.len() > 0 && is_space(t.last()) {
            assert(t.last() == chars@[a + k - 1]);
            assert(false);
        }
        assert(trim_end_of(tail) == t);
    }
    let r = copy_range(chars, a, a + k);
    proof {
        assert(r@ =~= tail.take(k as int));
    }
    r
}

/// Splits at every newline.
fn split_lines(chars: &Vec<char>) -> (r: Vec<Vec<char>>)
    ensures
        r@.map_values(|v: Vec<char>| v@) == split_nl(chars@),
{
    let n = chars.len();
    let mut out: Vec<Vec<char>> = Vec::new();
    let mut seg: Vec<char> = Vec::new();
    let mut seg_start: usize = 0;
    let mut i: usize = 0;
    proof {
        assert(chars@.skip(0) =~= chars@);
        assert(out@.map_values(|v: Vec<char>| v@) =~= Seq::<Seq<char>>::empty());
    }
    while i < n
        invariant
            seg_start <= i <= n,
            n == chars@.len(),
            seg@ == chars@.subrange(seg_start as int, i as int),
            forall|t: int| seg_start <= t < i ==> chars@[t] != '\n',
            split_nl(chars@) == out@.map_values(|v: Vec<char>| v@) + split_nl(
                chars@.skip(seg_start as int),
            ),
        decreases n - i,
    {
        let c = chars[i];
        if c == '\n' {
            proof {
                let restv = chars@.skip(seg_start as int);
                assert(restv[i - seg_start] == '\n');
                assert(is_first_at(restv, '\n', i - seg_start)) by {
                    assert forall|j: int| 0 <= j < i - seg_start implies restv[j] != '\n' by {
                        assert(restv[j] == chars@[seg_start + j]);
                    }
                }
                let w = choose|w: int| is_first_at(restv, '\n', w);
                assert(w == i - seg_start) by {
                    if w < i - seg_start {
                        assert(restv[w] != '\n');
                    } else if w > i - seg_start {
                        assert(restv[i - seg_start] != '\n');
                    }
                }
                assert(split_nl(restv) == seq![restv.take(i - seg_start)] + split_nl(
                    restv.skip(i - seg_start + 1),
                ));
                assert(restv.take(i - seg_start) =~= seg@);
                assert(restv.skip(i - seg_start + 1) =~= chars@.skip(i as int + 1));
            }
            let done = seg;
            seg = Vec::new();
            out.push(done);
            proof {
                let prev = out@.drop_last().map_values(|v: Vec<char>| v@);
                assert(out@.map_values(|v: Vec<char>| v@) =~= prev.push(out@.last()@));
                assert(split_nl(chars@) =~= out@.map_values(|v: Vec<char>| v@) + split_nl(
                    chars@.skip(i as int + 1),
                ));
                assert(seg@ =~= chars@.subrange(i as int + 1, i as int + 1));
            }
            seg_start = i + 1;
        } else {
            seg.push(c);
            proof {
                assert(seg@ =~= chars@.subrange(seg_start as int, i as int + 1));
            }
        }
        i = i + 1;
    }
    proof {
        let restv = chars@.skip(seg_start as int);
        assert forall|j: int| !is_first_at(restv, '\n', j) by {
            if 0 <= j < restv.len() {
                assert(restv[j] == chars@[seg_start + j]);
            }
        }
        assert(split_nl(restv) == seq![restv]);
        assert(restv =~= seg@);
    }
    out.push(seg);
    proof {
        let prev = out@.drop_last().map_values(|v: Vec<char>| v@);
        assert(out@.map_values(|v: Vec<char>| v@) =~= prev.push(out@.last()@));
        assert(out@.map_values(|v: Vec<char>| v@) =~= split_nl(chars@));
    }
    out
}

/// Parses one trimmed listing line.
#[verifier::rlimit(100)]
fn parse_device_line(line: &Vec<char>) -> (r: Option<DeviceInfo>)
    ensures
        match (r, parse_line(line@)) {
            (Some(d), Some(p)) => device_matches(d, p),
            (None, None) => true,
            _ => false,
        },
{
    if line.len() == 0 {
        return None;
    }
    let pat_id = str_chars(" id ");
    proof {
        reveal_strlit(" id ");
    }
    let i = match find_sub(line, &pat_id) {
        Some(i) => i,
        None => {
            return None;
        },
    };
    proof {
        let w = choose|w: int| is_first_sub_at(line@, " id "@, w);
        lemma_first_sub_unique(line@, " id "@, w, i as int);
    }
    let rest = copy_range(line, i + 4, line.len());
    proof {
        assert(rest@ =~= line@.skip(i as int + 4));
    }
    let sp = match find_char(&rest, ' ') {
        Some(sp) => sp,
        None => {
            proof {
                if exists|sp: int| is_first_at(rest@, ' ', sp) {
                    let w = choose|sp: int| is_first_at(rest@, ' ', sp);
                    assert(rest@[w] != ' ');
                }
            }
            return None;
        },
    };
    proof {
        let w = choose|sp2: int| is_first_at(rest@, ' ', sp2);
        if w < sp {
            assert(rest@[w] != ' ');
        } else if w > sp {
            assert(rest@[sp as int] != ' ');
        }
    }
    let pair = copy_range(&rest, 0, sp);
    proof {
        assert(pair@ =~= rest@.take(sp as int));
    }
    let c = match find_char(&pair, ':') {
        Some(c) => c,
        None => {
            proof {
                if exists|c: int| is_first_at(pair@, ':', c) {
                    let w = choose|c: int| is_first_at(pair@, ':', c);
                    assert(pair@[w] != ':');
                }
            }
            return None;
        },
    };
    proof {
        let w = choose|c2: int| is_first_at(pair@, ':', c2);
        if w < c {
            assert(pair@[w] != ':');
        } else if w > c {
            assert(pair@[c as int] != ':');
        }
    }
    let mut vendor_id = String::from_str("0x");
    let vh = copy_range(&pair, 0, c);
    let vhs = string_of_chars(&vh);
    vendor_id.append(vhs.as_str());
    let mut product_id = String::from_str("0x");
    let ph = copy_range(&pair, c + 1, pair.len());
    let phs = string_of_chars(&ph);
    product_id.append(phs.as_str());
    let id = string_of_chars(&pair);
    proof {
        assert(vendor_id@ == "0x"@ + pair@.take(c as int));
        assert(product_id@ == "0x"@ + pair@.skip(c as int + 1)) by {
            assert(ph@ =~= pair@.skip(c as int + 1));
        }
    }
    // Serial: the text after the first ` serial "` marker, to the next quote.
    let pat_serial = str_chars(" serial \"");
    proof {
        reveal_strlit(" serial \"");
    }
    let serial = match find_sub(line, &pat_serial) {
        Some(si) => {
            proof {
                let w = choose|w: int| is_first_sub_at(line@, " serial \""@, w);
                lemma_first_sub_unique(line@, " serial \""@, w, si as int);
            }
            let rest2 = copy_range(line, si + 8, line.len());
            proof {
                assert(rest2@ =~= line@.skip(si as int + 8));
            }
            match find_char(&rest2, '"') {
                Some(q) => {
                    proof {
                        let w = choose|q2: int| is_first_at(rest2@, '"', q2);
                        if w < q {
                            assert(rest2@[w] != '"');
                        } else if w > q {
                            assert(rest2@[q as int] != '"');
                        }
                    }
                    let sv = copy_range(&rest2, 0, q);
                    string_of_chars(&sv)
                },
                None => {
                    proof {
                        if exists|q: int| is_first_at(rest2@, '"', q) {
                            let w = choose|q2: int| is_first_at(rest2@, '"', q2);
                            assert(rest2@[w] != '"');
                        }
                    }
                    String::new()
                },
            }
        },
        None => String::new(),
    };
    // Device type from the interface tags.
    let pat_hid = str_chars("with-interface +hid");
    let pat_storage = str_chars("with-interface +mass-storage");
    let device_type = if find_sub(line, &pat_hid).is_some() {
        String::from_str("hid")
    } else if find_sub(line, &pat_storage).is_some() {
        String::from_str("storage")
    } else {
        String::new()
    };
    let pat_allow = str_chars("allow");
    let allowed = has_prefix(line, &pat_allow);
    let pat_allow_sp = str_chars("allow ");
    let persistent = find_sub(line, &pat_allow_sp).is_some();
    Some(
        DeviceInfo {
            id,
            vendor_id,
            product_id,
            serial,
            fingerprint: String::new(),
            device_type,
            allowed,
            persistent,
        },
    )
}

impl UsbguardBackend {
    /// Every device the engine's `list-devices` output describes, in
    /// line order; fingerprints are left empty here.
    pub fn parse_list_devices(output: &str) -> (r: Vec<DeviceInfo>)
        ensures
            r@.len() == parsed_devices_of(output@).len(),
            forall|i: int|
                0 <= i < r@.len() ==> device_matches(
                    #[trigger] r@[i],
                    parsed_devices_of(output@)[i],
                ),
    {
        let chars = str_chars(output);
        let pieces = split_lines(&chars);
        let ghost pviews = pieces@.map_values(|v: Vec<char>| v@);
        let mut out: Vec<DeviceInfo> = Vec::new();
        let mut j: usize = 0;
        proof {
            assert(parse_pieces(pviews.take(0)) =~= Seq::<ParsedDevice>::empty());
        }
        while j < pieces.len()
            invariant
                j <= pieces@.len(),
                pviews == pieces@.map_values(|v: Vec<char>| v@),
                out@.len() == parse_pieces(pviews.take(j as int)).len(),
                forall|t: int|
                    0 <= t < out@.len() ==> device_matches(
                        #[trigger] out@[t],
                        parse_pieces(pviews.take(j as int))[t],
                    ),
            decreases pieces@.len() - j,
        {
            let t = trim_chars(&pieces[j]);
            proof {
                assert(pviews.take(j as int + 1).drop_last() =~= pviews.take(j as int));
                assert(pviews.take(j as int + 1).last() == pieces@[j as int]@);
            }
            let ghost prev_out = out@;
            let ghost prev = parse_pieces(pviews.take(j as int));
            let ghost cur = parse_pieces(pviews.take(j as int + 1));
            match parse_device_line(&t) {
                Some(d) => {
                    out.push(d);
                    proof {
                        let p = parse_line(trim_of(pieces@[j as int]@)).unwrap();
                        assert(cur =~= prev.push(p));
                        assert forall|t2: int| 0 <= t2 < out@.len() implies device_matches(
                            #[trigger] out@[t2],
                            cur[t2],
                        ) by {
                            if t2 < prev.len() {
                                assert(out@[t2] == prev_out[t2]);
                                assert(cur[t2] == prev[t2]);
                            } else {
                                assert(out@[t2] == d);
                                assert(cur[t2] == p);
                            }
                        }
                    }
                },
                None => {
                    proof {
                        assert(cur =~= prev);
                    }
                },
            }
            j = j + 1;
        }
        proof {
            assert(pviews.take(pieces@.len() as int) =~= pviews);
        }
        out
    }
}

} // verus!
