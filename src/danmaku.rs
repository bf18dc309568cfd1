use vstd::prelude::*;
use std::io::Read;

verus! {

/// What `flate2::read::DeflateDecoder` yields when the bytes are read to the
/// end as a raw deflate stream: `None` where reading fails.
pub uninterp spec fn inflated(b: Seq<u8>) -> Option<Seq<u8>>;

/// What `String::from_utf8_lossy` makes of some bytes.
pub uninterp spec fn utf8_lossy(b: Seq<u8>) -> Seq<char>;

/// Relies on `flate2::read::DeflateDecoder`, read byte by byte to the end.
#[verifier::external_body]
fn inflate_raw(b: &[u8]) -> (r: Option<Vec<u8>>)
    ensures
        match r {
            Some(d) => inflated(b@) == Some(d@),
            None => inflated(b@) is None,
        },
{
    flate2::read::DeflateDecoder::new(b).bytes().collect::<Result<Vec<u8>, _>>().ok()
}

/// Relies on `String::from_utf8_lossy`.
#[verifier::external_body]
fn lossy_text(b: &[u8]) -> (r: String)
    ensures
        r@ == utf8_lossy(b@),
{
    String::from_utf8_lossy(b).into_owned()
}

/// The danmaku list as served: deflated when it inflates, else as it came.
pub open spec fn payload_spec(b: Seq<u8>) -> Seq<u8> {
    match inflated(b) {
        Some(d) => d,
        None => b,
    }
}

/// The bytes of a danmaku list response, inflated where they form a raw
/// deflate stream.
pub fn decode_danmaku_payload(bytes: &Vec<u8>) -> (r: Vec<u8>)
    ensures
        r@ == payload_spec(bytes@),
{
    match inflate_raw(bytes.as_slice()) {
        Some(d) => d,
        None => bytes.clone(),
    }
}

/// One `<d p="...">...</d>` element of the list.
#[derive(Clone, Debug, PartialEq, Eq)]
pub struct DanmakuRecord {
    /// The first field of the `p` attribute: the play time, in seconds.
    pub time_text: String,
    /// The element's text.
    pub content: String,
    /// The fifth field of the `p` attribute as an integer, 0 where it is
    /// not one.
    pub timestamp: u64,
}

pub struct RecordModel {
    pub time_text: Seq<char>,
    pub content: Seq<char>,
    pub timestamp: u64,
}

pub open spec fn record_view(r: DanmakuRecord) -> RecordModel {
    RecordModel { time_text: r.time_text@, content: r.content@, timestamp: r.timestamp }
}

pub open spec fn records_view(s: Seq<DanmakuRecord>) -> Seq<RecordModel> {
    s.map_values(|r: DanmakuRecord| record_view(r))
}

/// `<d p="`
pub open spec fn open_tag() -> Seq<u8> {
    seq![60u8, 100u8, 32u8, 112u8, 61u8, 34u8]
}

/// `"`
pub open spec fn quote_mark() -> Seq<u8> {
    seq![34u8]
}

/// `</d>`
pub open spec fn close_tag() -> Seq<u8> {
    seq![60u8, 47u8, 100u8, 62u8]
}

pub open spec fn matches_at(t: Seq<u8>, pat: Seq<u8>, i: int) -> bool {
    0 <= i && i + pat.len() <= t.len() && t.subrange(i, i + pat.len()) == pat
}

/// The first position at or after `i` where `pat` occurs.
pub open spec fn find_from(t: Seq<u8>, pat: Seq<u8>, i: int) -> Option<int>
    decreases t.len() - i,
{
    if i < 0 || i >= t.len() {
        None
    } else if matches_at(t, pat, i) {
        Some(i)
    } else {
        find_from(t, pat, i + 1)
    }
}

/// The fields of a comma-separated text read so far, and the field being
/// read.
pub open spec fn split_state(s: Seq<u8>) -> (Seq<Seq<u8>>, Seq<u8>)
    decreases s.len(),
{
    if s.len() == 0 {
        (seq![], seq![])
    } else {
        let (done, cur) = split_state(s.drop_last());
        if s.last() == 44u8 {
            (done.push(cur), seq![])
        } else {
            (done, cur.push(s.last()))
        }
    }
}

/// The comma-separated fields of a text.
pub open spec fn split_fields(s: Seq<u8>) -> Seq<Seq<u8>> {
    split_state(s).0.push(split_state(s).1)
}

pub open spec fn digits_value(s: Seq<u8>) -> int
    decreases s.len(),
{
    if s.len() == 0 {
        0
    } else {
        digits_value(s.drop_last()) * 10 + (s.last() as int - 48)
    }
}

pub open spec fn all_digits(s: Seq<u8>) -> bool {
    forall|i: int| 0 <= i < s.len() ==> 48 <= #[trigger] s[i] <= 57
}

pub open spec fn unsigned_digits(s: Seq<u8>) -> Seq<u8> {
    if s.len() > 0 && s[0] == 43u8 {
        s.drop_first()
    } else {
        s
    }
}

/// A decimal `u64` as `str::parse` reads one: an optional `+`, then at
/// least one digit, within range.
pub open spec fn parse_u64_spec(s: Seq<u8>) -> Option<u64> {
    let d = unsigned_digits(s);
    if d.len() > 0 && all_digits(d) && digits_value(d) <= u64::MAX {
        Some(digits_value(d) as u64)
    } else {
        None
    }
}

pub open spec fn record_of(t: Seq<u8>, a: int, q: int, c: int, e: int) -> RecordModel {
    let parts = split_fields(t.subrange(a, q));
    RecordModel {
        time_text: utf8_lossy(parts[0]),
        content: utf8_lossy(t.subrange(c, e)),
        timestamp: match parse_u64_spec(parts[4]) {
            Some(v) => v,
            None => 0,
        },
    }
}

/// The records of the elements found from position `pos` on. An element
/// whose attribute has fewer than five fields is skipped; an opening tag
/// without its closing quote or closing tag is passed over by one byte.
pub open spec fn scan_from(t: Seq<u8>, pos: int) -> Seq<RecordModel>
    decreases t.len() - pos,
{
    if pos < 0 || pos > t.len() {
        seq![]
    } else {
        match find_from(t, open_tag(), pos) {
            None => seq![],
            Some(s) => if s < pos || s >= t.len() {
                seq![]
            } else {
                let a = s + 6;
                match find_from(t, quote_mark(), a) {
                    None => scan_from(t, s + 1),
                    Some(q) => match find_from(t, close_tag(), q + 2) {
                        None => scan_from(t, s + 1),
                        Some(e) => if e + 4 <= pos || q < a || e + 4 > t.len() {
                            seq![]
                        } else {
                            let rest = scan_from(t, e + 4);
                            if split_fields(t.subrange(a, q)).len() >= 5 {
                                seq![record_of(t, a, q, q + 2, e)] + rest
                            } else {
                                rest
                            }
                        },
                    },
                }
            },
        }
    }
}

proof fn lemma_find_from(t: Seq<u8>, pat: Seq<u8>, i: int)
    ensures
        find_from(t, pat, i) matches Some(k) ==> i <= k && matches_at(t, pat, k),
    decreases t.len() - i,
{
    if 0 <= i < t.len() && !matches_at(t, pat, i) {
        lemma_find_from(t, pat, i + 1);
    }
}

fn matches_here(t: &[u8], pat: &Vec<u8>, i: usize) -> (r: bool)
    requires
        i <= t@.len(),
    ensures
        r == matches_at(t@, pat@, i as int),
{
    if pat.len() > t.len() - i {
        return false;
    }
    let mut j: usize = 0;
    while j < pat.len()
        invariant
            j <= pat@.len(),
            i + pat@.len() <= t.len(),
            t@.len() == t.len(),
            forall|k: int| 0 <= k < j ==> t@[i + k] == pat@[k],
        decreases pat@.len() - j,
    {
        if t[i + j] != pat[j] {
            assert(t@.subrange(i as int, i + pat@.len())[j as int] != pat@[j as int]);
            return false;
        }
        j = j + 1;
    }
    assert(t@.subrange(i as int, i + pat@.len()) =~= pat@);
    true
}

fn find_bytes(t: &[u8], pat: &Vec<u8>, from: usize) -> (r: Option<usize>)
    ensures
        match r {
            Some(k) => find_from(t@, pat@, from as int) == Some(k as int),
            None => find_from(t@, pat@, from as int) is None,
        },
{
    let mut i = from;
    while i < t.len()
        invariant
            from <= i,
            find_from(t@, pat@, from as int) == find_from(t@, pat@, i as int),
        decreases t@.len() - i,
    {
        if matches_here(t, pat, i) {
            return Some(i);
        }
        i = i + 1;
    }
    None
}

pub open spec fn fields_view(s: Seq<Vec<u8>>) -> Seq<Seq<u8>> {
    s.map_values(|v: Vec<u8>| v@)
}

fn split_commas(t: &[u8], a: usize, q: usize) -> (r: Vec<Vec<u8>>)
    requires
        a <= q <= t@.len(),
    ensures
        fields_view(r@) == split_fields(t@.subrange(a as int, q as int)),
{
    let mut done: Vec<Vec<u8>> = Vec::new();
    let mut cur: Vec<u8> = Vec::new();
    let mut i = a;
    assert(t@.subrange(a as int, a as int) =~= Seq::<u8>::empty());
    assert(fields_view(done@) =~= Seq::<Seq<u8>>::empty());
    while i < q
        invariant
            a <= i <= q,
            q <= t@.len(),
            (fields_view(done@), cur@) == split_state(t@.subrange(a as int, i as int)),
        decreases q - i,
    {
        let ghost s1 = t@.subrange(a as int, i as int + 1);
        assert(s1.drop_last() =~= t@.subrange(a as int, i as int));
        assert(s1.last() == t@[i as int]);
        if t[i] == 44 {
            let ghost d0 = done@;
            let c = cur;
            done.push(c);
            cur = Vec::new();
            assert(fields_view(done@) =~= fields_view(d0).push(c@));
        } else {
            cur.push(t[i]);
        }
        i = i + 1;
    }
    let ghost d0 = done@;
    let c = cur;
    done.push(c);
    assert(fields_view(done@) =~= fields_view(d0).push(c@));
    done
}

proof fn lemma_digits_prefix(d: Seq<u8>, k: int)
    requires
        0 <= k <= d.len(),
        all_digits(d),
    ensures
        digits_value(d.subrange(0, k)) <= digits_value(d),
    decreases d.len(),
{
    if k < d.len() {
        let p = d.drop_last();
        assert(all_digits(p));
        lemma_digits_prefix(p, k);
        assert(p.subrange(0, k) =~= d.subrange(0, k));
        assert(digits_value(p) >= 0) by {
            lemma_digits_nonneg(p);
        }
    } else {
        assert(d.subrange(0, k) =~= d);
    }
}

proof fn lemma_digits_nonneg(d: Seq<u8>)
    requires
        all_digits(d),
    ensures
        digits_value(d) >= 0,
    decreases d.len(),
{
    if d.len() > 0 {
        let p = d.drop_last();
        assert(all_digits(p));
        lemma_digits_nonneg(p);
    }
}

/// Reads a decimal `u64` as `str::parse` does: an optional `+`, then at
/// least one digit, within range.
pub fn parse_u64_field(s: &[u8]) -> (r: Option<u64>)
    ensures
        r == parse_u64_spec(s@),
{
    let start: usize = if s.len() > 0 && s[0] == 43 {
        1
    } else {
        0
    };
    let ghost d = unsigned_digits(s@);
    assert(d =~= s@.subrange(start as int, s@.len() as int));
    if start >= s.len() {
        return None;
    }
    let mut v: u64 = 0;
    let mut i = start;
    assert(d.subrange(0, 0) =~= Seq::<u8>::empty());
    while i < s.len()
        invariant
            start <= i <= s@.len(),
            d == unsigned_digits(s@),
            d =~= s@.subrange(start as int, s@.len() as int),
            all_digits(d.subrange(0, i - start)),
            v as int == digits_value(d.subrange(0, i - start)),
        decreases s@.len() - i,
    {
        let b = s[i];
        let k = i - start;
        assert(d[k as int] == b);
        if b < 48 || b > 57 {
            assert(!all_digits(d));
            return None;
        }
        let ghost p1 = d.subrange(0, k + 1);
        assert(p1.drop_last() =~= d.subrange(0, k as int));
        assert(all_digits(p1));
        match v.checked_mul(10) {
            None => {
                proof {
                    if all_digits(d) {
                        lemma_digits_nonneg(d.subrange(0, k as int));
                        lemma_digits_prefix(d, k + 1);
                    }
                }
                return None;
            },
            Some(v10) => match v10.checked_add((b - 48) as u64) {
                None => {
                    proof {
                        if all_digits(d) {
                            lemma_digits_prefix(d, k + 1);
                        }
                    }
                    return None;
                },
                Some(nv) => {
                    v = nv;
                },
            },
        }
        i = i + 1;
    }
    assert(d.subrange(0, d.len() as int) =~= d);
    Some(v)
}

/// Scans a danmaku list for its `<d p="...">...</d>` elements, in order.
pub fn scan_danmaku(data: &Vec<u8>) -> (r: Vec<DanmakuRecord>)
    requires
        data@.len() + 8 <= usize::MAX,
    ensures
        records_view(r@) == scan_from(data@, 0),
{
    let t = data.as_slice();
    let open: Vec<u8> = vec![60, 100, 32, 112, 61, 34];
    let quote: Vec<u8> = vec![34];
    let close: Vec<u8> = vec![60, 47, 100, 62];
    assert(open@ =~= open_tag());
    assert(quote@ =~= quote_mark());
    assert(close@ =~= close_tag());
    let mut out: Vec<DanmakuRecord> = Vec::new();
    let mut pos: usize = 0;
    assert(records_view(out@) =~= Seq::<RecordModel>::empty());
    while pos <= t.len()
        invariant
            t@ == data@,
            t@.len() + 8 <= usize::MAX,
            open@ == open_tag(),
            quote@ == quote_mark(),
            close@ == close_tag(),
            pos <= t@.len(),
            records_view(out@) + scan_from(t@, pos as int) == scan_from(t@, 0),
        ensures
            records_view(out@) == scan_from(data@, 0),
        decreases t@.len() + 1 - pos,
    {
        let ghost t0 = t@;
        let ghost p0 = pos as int;
        let ghost o0 = records_view(out@);
        match find_bytes(t, &open, pos) {
            None => {
                assert(scan_from(t0, p0) =~= Seq::<RecordModel>::empty());
                assert(o0 + scan_from(t0, p0) =~= o0);
                break;
            },
            Some(s) => {
                proof {
                    lemma_find_from(t0, open_tag(), p0);
                }
                let a = s + 6;
                match find_bytes(t, &quote, a) {
                    None => {
                        pos = s + 1;
                    },
                    Some(q) => {
                        proof {
                            lemma_find_from(t0, quote_mark(), a as int);
                        }
                        let c = q + 2;
                        match find_bytes(t, &close, c) {
                            None => {
                                pos = s + 1;
                            },
                            Some(e) => {
                                proof {
                                    lemma_find_from(t0, close_tag(), c as int);
                                }
                                let parts = split_commas(t, a, q);
                                if parts.len() >= 5 {
                                    let rec = DanmakuRecord {
                                        time_text: lossy_text(parts[0].as_slice()),
                                        content: lossy_text(&t[c..e]),
                                        timestamp: match parse_u64_field(parts[4].as_slice()) {
                                            Some(v) => v,
                                            None => 0,
                                        },
                                    };
                                    proof {
                                        assert(parts@[0]@ == split_fields(t0.subrange(a as int, q as int))[0]);
                                        assert(parts@[4]@ == split_fields(t0.subrange(a as int, q as int))[4]);
                                        assert(t@.subrange(c as int, e as int) == t0.subrange(c as int, e as int));
                                        assert(record_view(rec) == record_of(t0, a as int, q as int, c as int, e as int));
                                    }
                                    out.push(rec);
                                    proof {
                                        assert(records_view(out@) =~= o0.push(record_of(t0, a as int, q as int, c as int, e as int)));
                                        assert(scan_from(t0, p0) == seq![record_of(t0, a as int, q as int, c as int, e as int)] + scan_from(t0, e + 4));
                                        assert(records_view(out@) + scan_from(t0, e + 4) =~= o0 + scan_from(t0, p0));
                                    }
                                }
                                pos = e + 4;
                            },
                        }
                    },
                }
            },
        }
    }
    out
}

} // verus!

verus! {

/// The cid a video lookup reply gives: its `data.cid`, where the reply's
/// `code` is 0.
pub fn cid_from_reply(code: Option<i64>, cid: Option<u64>) -> (r: Option<u64>)
    ensures
        r == (if code == Some(0i64) {
            cid
        } else {
            None
        }),
{
    match code {
        Some(c) => if c == 0 {
            cid
        } else {
            None
        },
        None => None,
    }
}

} // verus!
