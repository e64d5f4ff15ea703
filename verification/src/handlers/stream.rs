//! Streaming and downloading.
//!
//! A track that is one file is answered with a redirect. A track in segments is answered with
//! the bytes of one continuous file: FLAC is rewrapped into a native stream, anything else is
//! the segments in a row.

use crate::flac;
use crate::handlers::{is_missing, is_requested, missing, not_found, pairs, put, requested, Failure,
    HttpReply};
use crate::ids;
use crate::ids::{track_of, IdKind};
use crate::params::QueryParams;
use crate::text;
use crate::text::{after_prefix, all_digits, decimal, opt_view, parted, trimmed, unsigned};
use crate::settings::Settings;
use crate::tidal::{tier_named, Asset, Error, Quality, StreamInfo};
use vstd::prelude::*;

verus! {

/// One part of a response: where its bytes come from, and the slice of them to send.
///
/// A part without an address is the header of a rewrapped stream, already in memory.
#[derive(Debug)]
pub struct Part {
    pub url: Option<String>,
    pub skip: usize,
    pub take: usize,
}

/// The bytes before the part `n`.
pub open spec fn offset(lens: Seq<u64>, n: int) -> int
    decreases n,
{
    if n <= 0 {
        0
    } else {
        offset(lens, n - 1) + lens[n - 1]
    }
}

/// The larger of two numbers.
pub open spec fn larger(a: int, b: int) -> int {
    if a >= b {
        a
    } else {
        b
    }
}

/// The smaller of two numbers.
pub open spec fn smaller(a: int, b: int) -> int {
    if a <= b {
        a
    } else {
        b
    }
}

/// The part `k` has bytes at or after `start`, and begins at or before `end`.
pub open spec fn covers(lens: Seq<u64>, k: int, start: int, end: int) -> bool {
    offset(lens, k + 1) > start && offset(lens, k) <= end
}

/// How many bytes at the start of the part `k` lie before `start`.
pub open spec fn skipped(lens: Seq<u64>, k: int, start: int) -> int {
    larger(start - offset(lens, k), 0)
}

/// How many bytes of the part `k` lie between `start` and `end`.
pub open spec fn taken(lens: Seq<u64>, k: int, start: int, end: int) -> int {
    smaller(end - offset(lens, k) + 1, lens[k] as int) - skipped(lens, k, start)
}

/// Which of the first `n` parts cover the span, each with what to skip and what to take.
pub open spec fn planned(lens: Seq<u64>, n: int, start: int, end: int) -> Seq<(int, int, int)>
    decreases n,
{
    if n <= 0 {
        Seq::empty()
    } else {
        let before = planned(lens, n - 1, start, end);
        if covers(lens, n - 1, start, end) {
            before.push((n - 1, skipped(lens, n - 1, start), taken(lens, n - 1, start, end)))
        } else {
            before
        }
    }
}

proof fn lemma_offset_grows(lens: Seq<u64>, m: int, n: int)
    requires
        0 <= m <= n,
    ensures
        0 <= offset(lens, m) <= offset(lens, n),
    decreases n,
{
    if n > 0 {
        if m < n {
            lemma_offset_grows(lens, m, n - 1);
        } else {
            lemma_offset_grows(lens, m - 1, n - 1);
        }
    }
}

proof fn lemma_planned_past_end(lens: Seq<u64>, m: int, n: int, start: int, end: int)
    requires
        0 <= m <= n,
        offset(lens, m) > end,
    ensures
        planned(lens, n, start, end) == planned(lens, m, start, end),
    decreases n - m,
{
    if m < n {
        lemma_planned_past_end(lens, m, n - 1, start, end);
        lemma_offset_grows(lens, m, n - 1);
    }
}

/// The parts are those planned, each with the address that belongs to it.
pub open spec fn follows_plan(
    parts: Seq<Part>,
    urls: Seq<Option<String>>,
    plan: Seq<(int, int, int)>,
) -> bool {
    &&& parts.len() == plan.len()
    &&& forall|j: int|
        0 <= j < parts.len() ==> {
            &&& (#[trigger] parts[j]).url == urls[plan[j].0]
            &&& parts[j].skip == plan[j].1
            &&& parts[j].take == plan[j].2
        }
}

/// How many parts have both an address and a length.
pub open spec fn part_count(urls: Seq<Option<String>>, lens: Seq<u64>) -> int {
    smaller(urls.len() as int, lens.len() as int)
}

/// Which parts cover the bytes from `start` to `end`, and how much of each.
pub fn plan(urls: &Vec<Option<String>>, sizes: &Vec<u64>, start: u64, end: u64) -> (r: Vec<Part>)
    requires
        start <= end < u64::MAX,
        forall|k: int|
            0 <= k < sizes@.len() && offset(sizes@, k) <= end ==> {
                &&& #[trigger] offset(sizes@, k + 1) <= u64::MAX
                &&& sizes@[k] <= usize::MAX
            },
    ensures
        follows_plan(
            r@,
            urls@,
            planned(sizes@, part_count(urls@, sizes@), start as int, end as int),
        ),
        ({
            let n = if urls@.len() <= sizes@.len() {
                urls@.len() as int
            } else {
                sizes@.len() as int
            };
            let p = planned(sizes@, n, start as int, end as int);
            &&& r@.len() == p.len()
            &&& forall|j: int|
                0 <= j < r@.len() ==> {
                    let (k, skip, take) = p[j];
                    (#[trigger] r@[j]).url == urls@[k] && r@[j].skip == skip && r@[j].take == take
                }
        }),
{
    let mut parts: Vec<Part> = Vec::new();
    let mut at: u64 = 0;
    let mut k: usize = 0;
    let n: usize = if urls.len() < sizes.len() {
        urls.len()
    } else {
        sizes.len()
    };
    while k < n
        invariant
            k <= n,
            n == part_count(urls@, sizes@),
            start <= end < u64::MAX,
            at == offset(sizes@, k as int),
            at <= end,
            follows_plan(
                parts@,
                urls@,
                planned(sizes@, k as int, start as int, end as int),
            ),
            forall|k: int|
                0 <= k < sizes@.len() && offset(sizes@, k) <= end ==> {
                    &&& #[trigger] offset(sizes@, k + 1) <= u64::MAX
                    &&& sizes@[k] <= usize::MAX
                },
        decreases n - k,
    {
        let len: u64 = sizes[k];
        proof {
            lemma_offset_grows(sizes@, k as int, k + 1);
            assert(offset(sizes@, k + 1) <= u64::MAX);
        }
        let part_end: u64 = at + len;
        if part_end > start {
            let from: u64 = if start > at {
                start - at
            } else {
                0
            };
            let to: u64 = if end - at + 1 < len {
                end - at + 1
            } else {
                len
            };
            let url: Option<String> = match &urls[k] {
                Some(u) => Some(u.clone()),
                None => None,
            };
            assert(url == urls@[k as int]);
            assert(sizes@[k as int] <= usize::MAX);
            parts.push(Part { url, skip: from as usize, take: (to - from) as usize });
        }
        at = part_end;
        k += 1;
        if at > end {
            proof {
                lemma_planned_past_end(sizes@, k as int, n as int, start as int, end as int);
            }
            return parts;
        }
    }
    parts
}

/// The number that a text of digits stands for, where 64 bits hold it.
pub open spec fn place_named(s: Seq<char>) -> Option<nat> {
    if all_digits(s) {
        unsigned(s, u64::MAX as nat)
    } else {
        None
    }
}

/// Reads a number of digits alone.
fn read_place(s: &str) -> (r: Option<u64>)
    ensures
        text::opt_nat(r) == place_named(s@),
        r is Some ==> all_digits(s@) && s@.len() > 0 && crate::text::digits_value(s@) == r->0,
        s@.len() > 0 && all_digits(s@) && crate::text::digits_value(s@) <= u64::MAX ==> r is Some,
{
    if text::only_digits(s) {
        text::parse_u64(s)
    } else {
        None
    }
}

/// The first and the last byte that a range header asks for, of a body of `total` bytes.
///
/// A missing start asks for the last bytes, a missing end for all from the start on, and an end
/// past the body for what there is. Nothing comes of several ranges, of a range that starts past
/// the end or ends before its start, or of an empty body.
pub open spec fn range_of(header: Seq<char>, total: nat) -> Option<(nat, nat)> {
    match after_prefix(trimmed(header), "bytes="@) {
        Some(spec) => if total == 0 || spec.contains(',') {
            None
        } else {
            match parted(spec, '-') {
                Some((f, t)) => {
                    let from = place_named(trimmed(f));
                    let to = place_named(trimmed(t));
                    let span: Option<(int, int)> = if trimmed(f).len() == 0 {
                        match to {
                            Some(n) => Some((larger(total - n, 0), total - 1)),
                            None => None,
                        }
                    } else if trimmed(t).len() == 0 {
                        match from {
                            Some(s) => Some((s as int, total - 1)),
                            None => None,
                        }
                    } else {
                        match (from, to) {
                            (Some(s), Some(e)) => Some((s as int, smaller(e as int, total - 1))),
                            _ => None,
                        }
                    };
                    match span {
                        Some((s, e)) if s <= e && s < total => Some((s as nat, e as nat)),
                        _ => None,
                    }
                },
                None => None,
            }
        },
        None => None,
    }
}

/// An optional span in machine numbers as one in mathematical numbers.
pub open spec fn opt_span(o: Option<(u64, u64)>) -> Option<(nat, nat)> {
    match o {
        Some((s, e)) => Some((s as nat, e as nat)),
        None => None,
    }
}

proof fn lemma_digits_are_plain(s: Seq<char>)
    requires
        all_digits(s),
    ensures
        !s.contains('-'),
        !s.contains(','),
        text::is_core(s),
        trimmed(s) == s,
        s.len() == 0 || s[0] != '+',
{
    assert forall|i: int| 0 <= i < s.len() implies s[i] != '-' && s[i] != ',' && !text::is_space(
        s[i],
    ) && s[i] != '+' by {
        assert(text::is_digit(s[i]));
    }
    text::law_trimming_keeps_the_core(Seq::empty(), s, Seq::empty());
}

/// Numbers with a dash between them hold no comma.
proof fn lemma_no_comma(f: Seq<char>, t: Seq<char>)
    requires
        !f.contains(','),
        !t.contains(','),
    ensures
        !(f + seq!['-'] + t).contains(','),
{
    let spec = f + seq!['-'] + t;
    if spec.contains(',') {
        let i = choose|i: int| 0 <= i < spec.len() && spec[i] == ',';
        if i < f.len() {
            assert(f[i] == ',');
        } else if i > f.len() {
            assert(t[i - f.len() - 1] == ',');
        }
    }
}

/// Behind `bytes=`, what begins with no white space and ends with none is found as it is.
proof fn lemma_behind_bytes(spec: Seq<char>)
    requires
        spec.len() > 0,
        !text::is_space(spec.last()),
    ensures
        after_prefix(trimmed("bytes="@ + spec), "bytes="@) == Some(spec),
{
    let p = "bytes="@;
    let header = p + spec;
    assert(p.len() > 0 && p[0] == 'b') by {
        reveal_strlit("bytes=");
    }
    assert(header[0] == p[0]);
    assert(header.last() == spec.last());
    let none = Seq::<char>::empty();
    text::law_trimming_keeps_the_core(none, header, none);
    text::law_a_prefix_leaves_the_rest(p, spec, spec);
}

/// What a range header of two numbers is taken apart into.
#[verifier::rlimit(40)]
proof fn lemma_range_parts(f: Seq<char>, t: Seq<char>)
    requires
        all_digits(f),
        all_digits(t),
    ensures
        after_prefix(trimmed("bytes="@ + f + "-"@ + t), "bytes="@) == Some(f + seq!['-'] + t),
        !(f + seq!['-'] + t).contains(','),
        parted(f + seq!['-'] + t, '-') == Some((f, t)),
{
    lemma_digits_are_plain(f);
    lemma_digits_are_plain(t);
    let spec = f + seq!['-'] + t;
    lemma_no_comma(f, t);
    text::law_parted_at_the_first(f, '-', t);
    if t.len() > 0 {
        assert(spec.last() == t.last());
    } else {
        assert(spec.last() == '-');
    }
    lemma_behind_bytes(spec);
    assert("-"@ =~= seq!['-']) by {
        reveal_strlit("-");
    }
    assert("bytes="@ + f + "-"@ + t =~= "bytes="@ + spec);
}

/// A range of two numbers asks for the bytes from the first to the second, as far as there are
/// such. Without the second it asks for all from the first on, and without the first for as many
/// bytes as the second says, from the end.
#[verifier::rlimit(40)]
pub proof fn law_ranges_ask_for_their_bytes(f: Seq<char>, t: Seq<char>, total: nat)
    requires
        all_digits(f),
        all_digits(t),
        text::digits_value(f) <= u64::MAX,
        text::digits_value(t) <= u64::MAX,
        total > 0,
    ensures
        ({
            let from = text::digits_value(f);
            let to = text::digits_value(t);
            let header = "bytes="@ + f + "-"@ + t;
            &&& f.len() > 0 && t.len() > 0 ==> range_of(header, total) == (if from < total && from
                <= to {
                Some(
                    (
                        from,
                        if to < total {
                            to
                        } else {
                            (total - 1) as nat
                        },
                    ),
                )
            } else {
                None
            })
            &&& f.len() > 0 && t.len() == 0 ==> range_of(header, total) == (if from < total {
                Some((from, (total - 1) as nat))
            } else {
                None
            })
            &&& f.len() == 0 && t.len() > 0 ==> range_of(header, total) == (if to == 0 {
                None
            } else if to < total {
                Some(((total - to) as nat, (total - 1) as nat))
            } else {
                Some((0nat, (total - 1) as nat))
            })
            &&& f.len() == 0 && t.len() == 0 ==> range_of(header, total) is None
            &&& range_of(header, 0) is None
        }),
{
    lemma_range_parts(f, t);
    lemma_digits_are_plain(f);
    lemma_digits_are_plain(t);
    assert(f.len() > 0 ==> place_named(f) == Some(text::digits_value(f)));
    assert(t.len() > 0 ==> place_named(t) == Some(text::digits_value(t)));
    if f.len() == 0 {
        assert(text::digits_value(f) == 0);
    }
}

/// Several ranges in one header are not served, nor are ranges of anything but bytes.
pub proof fn law_only_one_range_of_bytes(spec: Seq<char>, header: Seq<char>, total: nat)
    requires
        spec.contains(','),
    ensures
        trimmed(header) == "bytes="@ + spec ==> range_of(header, total) is None,
        !text::begins(trimmed(header), "bytes="@) ==> range_of(header, total) is None,
{
    text::law_a_prefix_leaves_the_rest("bytes="@, spec, trimmed(header));
}

/// One byte range from a range header, clamped to the body.
pub fn parse_range(header: &str, total: u64) -> (r: Option<(u64, u64)>)
    ensures
        opt_span(r) == range_of(header@, total as nat),
{
    if total == 0 {
        return None;
    }
    let spec = match text::strip_prefix(text::trim(header), "bytes=") {
        Some(s) => s,
        None => {
            return None;
        },
    };
    if text::has_char(spec, ',') {
        return None;
    }
    let (f, t) = match text::split_once(spec, '-') {
        Some(p) => p,
        None => {
            return None;
        },
    };
    let from = text::trim(f);
    let to = text::trim(t);
    let (start, end): (u64, u64) = if from.unicode_len() == 0 {
        match read_place(to) {
            Some(n) => (
                if n < total {
                    total - n
                } else {
                    0
                },
                total - 1,
            ),
            None => {
                return None;
            },
        }
    } else if to.unicode_len() == 0 {
        match read_place(from) {
            Some(s) => (s, total - 1),
            None => {
                return None;
            },
        }
    } else {
        match (read_place(from), read_place(to)) {
            (Some(s), Some(e)) => (
                s,
                if e < total - 1 {
                    e
                } else {
                    total - 1
                },
            ),
            _ => {
                return None;
            },
        }
    };
    if start > end || start >= total {
        None
    } else {
        Some((start, end))
    }
}

/// The span of a body of `total` bytes that answers an optional range header, and whether it is
/// less than the client would get without one.
pub open spec fn span_of(range: Option<Seq<char>>, total: nat) -> (nat, nat, bool) {
    match range {
        Some(h) => match range_of(h, total) {
            Some((s, e)) => (s, e, true),
            None => (0, larger(total - 1, 0) as nat, false),
        },
        None => (0, larger(total - 1, 0) as nat, false),
    }
}

/// The headers of a response with audio: what it is, its length, that ranges are understood,
/// which range it is, and the name to save it under.
pub open spec fn audio_headers(
    content_type: Seq<char>,
    length: nat,
    range: Option<(nat, nat, nat)>,
    attachment: Option<Seq<char>>,
) -> Seq<(Seq<char>, Seq<char>)> {
    let fixed = seq![
        ("Content-Type"@, content_type),
        ("Content-Length"@, decimal(length)),
        ("Accept-Ranges"@, "bytes"@),
    ];
    let ranged = match range {
        Some((start, end, total)) => fixed.push(
            (
                "Content-Range"@,
                "bytes "@ + decimal(start) + "-"@ + decimal(end) + "/"@ + decimal(total),
            ),
        ),
        None => fixed,
    };
    match attachment {
        Some(name) => ranged.push(
            ("Content-Disposition"@, "attachment; filename=\""@ + name + "\""@),
        ),
        None => ranged,
    }
}

/// The headers say what kind of audio is sent, how many bytes of it, that ranges are served, and,
/// where it is so, which range it is and under which name to keep it. They say nothing else.
pub proof fn law_headers_say_what_is_sent(
    content_type: Seq<char>,
    length: nat,
    range: Option<(nat, nat, nat)>,
    attachment: Option<Seq<char>>,
)
    ensures
        ({
            let h = audio_headers(content_type, length, range, attachment);
            &&& h.contains(("Content-Type"@, content_type))
            &&& h.contains(("Content-Length"@, decimal(length)))
            &&& h.contains(("Accept-Ranges"@, "bytes"@))
            &&& match range {
                Some((start, end, total)) => h.contains(
                    (
                        "Content-Range"@,
                        "bytes "@ + decimal(start) + "-"@ + decimal(end) + "/"@ + decimal(total),
                    ),
                ),
                None => true,
            }
            &&& attachment is Some ==> h.contains(
                ("Content-Disposition"@, "attachment; filename=\""@ + attachment->0 + "\""@),
            )
            &&& h.len() == 3 + (if range is Some {
                1int
            } else {
                0
            }) + (if attachment is Some {
                1int
            } else {
                0
            })
        }),
{
    let h = audio_headers(content_type, length, range, attachment);
    assert(h[0] == ("Content-Type"@, content_type));
    assert(h[1] == ("Content-Length"@, decimal(length)));
    assert(h[2] == ("Accept-Ranges"@, "bytes"@));
    if let Some((start, end, total)) = range {
        assert(h[3] == (
            "Content-Range"@,
            "bytes "@ + decimal(start) + "-"@ + decimal(end) + "/"@ + decimal(total),
        ));
    }
    if let Some(name) = attachment {
        assert(h[h.len() - 1] == (
            "Content-Disposition"@,
            "attachment; filename=\""@ + name + "\""@,
        ));
    }
}

/// Writes the headers of a response with audio.
fn write_headers(
    content_type: &str,
    length: u64,
    range: Option<(u64, u64, u64)>,
    attachment: Option<&str>,
) -> (r: Vec<(String, String)>)
    ensures
        pairs(r@) == audio_headers(
            content_type@,
            length as nat,
            match range {
                Some((s, e, t)) => Some((s as nat, e as nat, t as nat)),
                None => None,
            },
            opt_view(attachment),
        ),
{
    let mut out: Vec<(String, String)> = Vec::new();
    put(&mut out, "Content-Type", content_type);
    put(&mut out, "Content-Length", text::decimal_text(length).as_str());
    put(&mut out, "Accept-Ranges", "bytes");
    assert(pairs(out@) =~= seq![
        ("Content-Type"@, content_type@),
        ("Content-Length"@, decimal(length as nat)),
        ("Accept-Ranges"@, "bytes"@),
    ]);
    if let Some((start, end, total)) = range {
        let mut value = "bytes ".to_owned();
        value.append(text::decimal_text(start).as_str());
        value.append("-");
        value.append(text::decimal_text(end).as_str());
        value.append("/");
        value.append(text::decimal_text(total).as_str());
        put(&mut out, "Content-Range", value.as_str());
    }
    if let Some(name) = attachment {
        put(&mut out, "Content-Disposition", text::join3("attachment; filename=\"", name, "\"").as_str());
    }
    out
}

/// The bytes from `from` up to `to`.
pub fn bytes_between(v: &Vec<u8>, from: usize, to: usize) -> (r: Vec<u8>)
    requires
        from <= to <= v@.len(),
    ensures
        r@ == v@.subrange(from as int, to as int),
{
    let mut out: Vec<u8> = Vec::new();
    flac::append_bytes(&mut out, vstd::slice::slice_subrange(v.as_slice(), from, to));
    assert(out@ =~= v@.subrange(from as int, to as int));
    out
}

/// Serves bytes that are all in memory, or the part of them that a range header asks for.
///
/// A range that cannot be used is answered with the whole body: players send odd ranges while
/// they probe, and an error would stop them.
pub fn audio_reply(
    bytes: &Vec<u8>,
    range: Option<&str>,
    attachment: Option<&str>,
    content_type: &str,
) -> (r: HttpReply)
    ensures
        ({
            let total = bytes@.len();
            let (start, end, partial) = span_of(opt_view(range), total);
            &&& r.status == (if partial {
                206u16
            } else {
                200u16
            })
            &&& r.body@ == (if partial {
                bytes@.subrange(start as int, end as int + 1)
            } else {
                bytes@
            })
            &&& pairs(r.headers@) == audio_headers(
                content_type@,
                r.body@.len(),
                if partial {
                    Some((start, end, total))
                } else {
                    None
                },
                opt_view(attachment),
            )
        }),
        match range {
            Some(h) => match range_of(h@, bytes@.len()) {
                Some((s, e)) => r.status == 206 && r.body@ == bytes@.subrange(s as int, e as int + 1),
                None => r.status == 200 && r.body@ == bytes@,
            },
            None => r.status == 200 && r.body@ == bytes@,
        },
        pairs(r.headers@).contains(("Content-Type"@, content_type@)),
        pairs(r.headers@).contains(("Content-Length"@, decimal(r.body@.len()))),
{
    let total: u64 = bytes.len() as u64;
    let sliced = match range {
        Some(h) => parse_range(h, total),
        None => None,
    };
    match sliced {
        Some((start, end)) => {
            let body = bytes_between(bytes, start as usize, end as usize + 1);
            let headers = write_headers(
                content_type,
                body.len() as u64,
                Some((start, end, total)),
                attachment,
            );
            proof {
                law_headers_say_what_is_sent(
                    content_type@,
                    body@.len(),
                    Some((start as nat, end as nat, total as nat)),
                    opt_view(attachment),
                );
            }
            HttpReply { status: 206, headers, body }
        },
        None => {
            let body = bytes_between(bytes, 0, bytes.len());
            assert(body@ =~= bytes@);
            let headers = write_headers(content_type, body.len() as u64, None, attachment);
            proof {
                law_headers_say_what_is_sent(
                    content_type@,
                    body@.len(),
                    None,
                    opt_view(attachment),
                );
            }
            HttpReply { status: 200, headers, body }
        },
    }
}

/// A response that is sent part by part.
#[derive(Debug)]
pub struct ChunkedReply {
    pub status: u16,
    pub headers: Vec<(String, String)>,
    /// The parts to send, in order.
    pub parts: Vec<Part>,
    /// Whether the parts make up the whole file, which can then be kept.
    pub cacheable: bool,
}

/// The lengths add up within 64 bits, and each can be held in memory.
pub open spec fn lens_fit(lens: Seq<u64>) -> bool {
    &&& offset(lens, lens.len() as int) <= u64::MAX
    &&& forall|k: int| 0 <= k < lens.len() ==> #[trigger] lens[k] <= usize::MAX
}

/// Whether the lengths add up within 64 bits, and each can be held in memory.
pub fn check_lens(lens: &Vec<u64>) -> (r: bool)
    ensures
        r == lens_fit(lens@),
{
    let mut at: u64 = 0;
    let mut k: usize = 0;
    while k < lens.len()
        invariant
            k <= lens@.len(),
            at == offset(lens@, k as int),
            forall|j: int| 0 <= j < k ==> #[trigger] lens@[j] <= usize::MAX,
        decreases lens@.len() - k,
    {
        if lens[k] > usize::MAX as u64 {
            return false;
        }
        if lens[k] > u64::MAX - at {
            proof {
                lemma_offset_grows(lens@, k + 1, lens@.len() as int);
            }
            return false;
        }
        at += lens[k];
        k += 1;
    }
    true
}

/// What a chunked response holds for the parts with these addresses and lengths.
pub open spec fn answers_range(
    r: ChunkedReply,
    urls: Seq<Option<String>>,
    lens: Seq<u64>,
    range: Option<Seq<char>>,
    attachment: Option<Seq<char>>,
    content_type: Seq<char>,
) -> bool {
    let total = offset(lens, lens.len() as int) as nat;
    let (start, end, partial) = span_of(range, total);
    &&& r.status == (if partial {
        206u16
    } else {
        200u16
    })
    &&& follows_plan(
        r.parts@,
        urls,
        planned(lens, part_count(urls, lens), start as int, end as int),
    )
    &&& r.cacheable == (start == 0 && end + 1 == total)
    &&& pairs(r.headers@) == audio_headers(
        content_type,
        if total == 0 {
            0nat
        } else {
            (end - start + 1) as nat
        },
        if partial {
            Some((start, end, total))
        } else {
            None
        },
        attachment,
    )
}

/// The bytes of all the parts together.
fn total_len(lens: &Vec<u64>) -> (r: u64)
    requires
        lens_fit(lens@),
    ensures
        r == offset(lens@, lens@.len() as int),
{
    let mut at: u64 = 0;
    let mut k: usize = 0;
    while k < lens.len()
        invariant
            k <= lens@.len(),
            at == offset(lens@, k as int),
            lens_fit(lens@),
        decreases lens@.len() - k,
    {
        proof {
            lemma_offset_grows(lens@, k + 1, lens@.len() as int);
        }
        at += lens[k];
        k += 1;
    }
    at
}

/// Plans the requested byte range as one continuous file, of which only the parts that cover
/// it are sent.
pub fn chunked_reply(
    parts_desc: &Vec<Option<String>>,
    lens: &Vec<u64>,
    range: Option<&str>,
    attachment: Option<&str>,
    content_type: &str,
) -> (r: ChunkedReply)
    requires
        lens_fit(lens@),
    ensures
        answers_range(
            r,
            parts_desc@,
            lens@,
            opt_view(range),
            opt_view(attachment),
            content_type@,
        ),
        ({
            let total = offset(lens@, lens@.len() as int);
            let asked = match range {
                Some(h) => range_of(h@, total as nat),
                None => None,
            };
            &&& r.status == if asked is Some {
                206u16
            } else {
                200u16
            }
            &&& pairs(r.headers@).contains(("Content-Type"@, content_type@))
            &&& pairs(r.headers@).contains(("Accept-Ranges"@, "bytes"@))
            &&& match asked {
                Some((s, e)) => {
                    &&& pairs(r.headers@).contains(("Content-Length"@, decimal((e - s + 1) as nat)))
                    &&& pairs(r.headers@).contains(
                        (
                            "Content-Range"@,
                            "bytes "@ + decimal(s) + "-"@ + decimal(e) + "/"@ + decimal(
                                total as nat,
                            ),
                        ),
                    )
                    &&& r.cacheable == (s == 0 && e + 1 == total)
                },
                None => {
                    &&& pairs(r.headers@).contains(("Content-Length"@, decimal(total as nat)))
                    &&& r.cacheable == (total > 0)
                },
            }
            &&& attachment is Some ==> pairs(r.headers@).contains(
                ("Content-Disposition"@, "attachment; filename=\""@ + attachment->0@ + "\""@),
            )
        }),
{
    let total: u64 = total_len(lens);
    let asked = match range {
        Some(h) => parse_range(h, total),
        None => None,
    };
    let partial = asked.is_some();
    let (start, end): (u64, u64) = match asked {
        Some((s, e)) => (s, e),
        None => (
            0,
            if total > 0 {
                total - 1
            } else {
                0
            },
        ),
    };
    proof {
        assert forall|k: int| 0 <= k < lens@.len() && offset(lens@, k) <= end implies {
            &&& #[trigger] offset(lens@, k + 1) <= u64::MAX
            &&& lens@[k] <= usize::MAX
        } by {
            lemma_offset_grows(lens@, k + 1, lens@.len() as int);
        }
    }
    let parts = plan(parts_desc, lens, start, end);
    let length: u64 = if total == 0 {
        0
    } else {
        end - start + 1
    };
    let cacheable = start == 0 && end + 1 == total;
    let headers = write_headers(
        content_type,
        length,
        if partial {
            Some((start, end, total))
        } else {
            None
        },
        attachment,
    );
    proof {
        law_headers_say_what_is_sent(
            content_type@,
            length as nat,
            if partial {
                Some((start as nat, end as nat, total as nat))
            } else {
                None
            },
            opt_view(attachment),
        );
        if let Some(h) = range {
            law_range_within_body(h@, total as nat);
        }
    }
    ChunkedReply {
        status: if partial {
            206
        } else {
            200
        },
        headers,
        parts,
        cacheable,
    }
}

/// The slice of the header in memory that a part without an address stands for.
pub fn header_chunk(part: &Part, header: &Vec<u8>) -> (r: Vec<u8>)
    requires
        part.skip + part.take <= header@.len(),
    ensures
        r@ == header@.subrange(part.skip as int, part.skip + part.take),
{
    let n: usize = header.len();
    assert(part.skip + part.take <= n);
    bytes_between(header, part.skip, part.skip + part.take)
}

/// The slice of a fetched segment that goes out.
///
/// A segment shorter than it was said to be would shift every byte after it, so the response
/// ends there.
pub fn segment_chunk(part: &Part, payload: &Vec<u8>, track_id: u64) -> (r: Result<Vec<u8>, Error>)
    ensures
        match r {
            Ok(b) => {
                &&& part.skip + part.take <= payload@.len()
                &&& b@ == payload@.subrange(part.skip as int, part.skip + part.take)
            },
            Err(e) => {
                &&& part.skip + part.take > payload@.len()
                &&& e matches Error::Malformed(m) && m@ == "track "@ + decimal(track_id as nat)
                    + ": segment shorter than its header claimed"@
            },
        },
{
    if part.skip <= payload.len() && part.take <= payload.len() - part.skip {
        Ok(bytes_between(payload, part.skip, part.skip + part.take))
    } else {
        Err(
            Error::Malformed(
                text::join3(
                    "track ",
                    text::decimal_text(track_id).as_str(),
                    ": segment shorter than its header claimed",
                ),
            ),
        )
    }
}

/// What a fetched segment adds to a rewrapped stream.
pub fn chunked_flac_transform(raw: &Vec<u8>) -> (r: Vec<u8>)
    ensures
        r@ == flac::frames_of(raw@),
{
    flac::frames(raw.as_slice())
}

/// What a fetched segment adds to a stream that is not rewrapped: all of it.
pub fn chunked_mp4_transform(raw: Vec<u8>) -> (r: Vec<u8>)
    ensures
        r == raw,
{
    raw
}

/// The lengths measured from the start of each segment, where every one could be measured, none
/// is empty, and there is one for each of the `count` segments.
pub open spec fn measured(prefixes: Seq<Option<Vec<u8>>>, count: nat) -> bool {
    &&& prefixes.len() == count
    &&& forall|i: int|
        0 <= i < count ==> {
            &&& (#[trigger] prefixes[i]) is Some
            &&& flac::mdat_len_from(prefixes[i]->0@, 0) is Some
            &&& flac::mdat_len_from(prefixes[i]->0@, 0)->0 > 0
        }
}

/// The lengths of the FLAC frames of the segments, measured from the start of each.
pub fn flac_sizes(prefixes: &Vec<Option<Vec<u8>>>, count: usize) -> (r: Option<Vec<u64>>)
    ensures
        match r {
            Some(v) => {
                &&& measured(prefixes@, count as nat)
                &&& v@.len() == count
                &&& forall|i: int|
                    0 <= i < count ==> #[trigger] v@[i] == flac::mdat_len_from(
                        prefixes@[i]->0@,
                        0,
                    )->0
            },
            None => !measured(prefixes@, count as nat),
        },
        r is Some ==> prefixes@.len() == count && forall|i: int|
            0 <= i < count ==> (#[trigger] prefixes@[i]) is Some && flac::mdat_len_from(
                prefixes@[i]->0@,
                0,
            ) is Some && flac::mdat_len_from(prefixes@[i]->0@, 0)->0 > 0,
        prefixes@.len() == count && (forall|i: int|
            0 <= i < count ==> (#[trigger] prefixes@[i]) is Some && flac::mdat_len_from(
                prefixes@[i]->0@,
                0,
            ) is Some && flac::mdat_len_from(prefixes@[i]->0@, 0)->0 > 0) ==> r is Some,
{
    if prefixes.len() != count {
        return None;
    }
    let mut out: Vec<u64> = Vec::new();
    let mut i: usize = 0;
    while i < count
        invariant
            i <= count,
            prefixes@.len() == count,
            out@.len() == i,
            forall|j: int|
                0 <= j < i ==> {
                    &&& (#[trigger] prefixes@[j]) is Some
                    &&& flac::mdat_len_from(prefixes@[j]->0@, 0) is Some
                    &&& flac::mdat_len_from(prefixes@[j]->0@, 0)->0 > 0
                },
            forall|j: int|
                0 <= j < i ==> #[trigger] out@[j] == flac::mdat_len_from(
                    prefixes@[j]->0@,
                    0,
                )->0,
        decreases count - i,
    {
        let len: u64 = match &prefixes[i] {
            Some(p) => match flac::mdat_len(p.as_slice()) {
                Some(n) => n,
                None => {
                    assert(prefixes@[i as int] is Some);
                    return None;
                },
            },
            None => {
                assert(prefixes@[i as int] is None);
                return None;
            },
        };
        if len == 0 {
            assert(prefixes@[i as int] is Some);
            return None;
        }
        out.push(len);
        i += 1;
    }
    Some(out)
}

/// A table of lengths that can be used: one for each of the `count` parts, none of them empty.
pub open spec fn usable(sizes: Option<Vec<u64>>, count: nat) -> bool {
    sizes is Some && sizes->0@.len() == count && !sizes->0@.contains(0u64)
}

/// Keeps a table of lengths only where it can be used.
pub fn sizes_for(sizes: Option<Vec<u64>>, count: usize) -> (r: Option<Vec<u64>>)
    ensures
        r == (if usable(sizes, count as nat) {
            sizes
        } else {
            None
        }),
        sizes is Some && sizes->0@.len() == count && (forall|i: int|
            0 <= i < count ==> (#[trigger] sizes->0@[i]) > 0) ==> r == sizes,
        r is Some ==> r == sizes && r->0@.len() == count && forall|i: int|
            0 <= i < count ==> (#[trigger] r->0@[i]) > 0,
{
    match sizes {
        Some(v) => {
            if v.len() != count {
                return None;
            }
            let mut i: usize = 0;
            while i < v.len()
                invariant
                    i <= v@.len(),
                    sizes == Some(v),
                    forall|j: int| 0 <= j < i ==> v@[j] != 0u64,
                decreases v@.len() - i,
            {
                if v[i] == 0 {
                    assert(v@[i as int] == 0u64);
                    return None;
                }
                i += 1;
            }
            Some(v)
        },
        None => None,
    }
}

/// The first `n` payloads, one after the other.
pub open spec fn joined(payloads: Seq<Seq<u8>>, n: int) -> Seq<u8>
    decreases n,
{
    if n <= 0 {
        Seq::empty()
    } else {
        joined(payloads, n - 1) + payloads[n - 1]
    }
}

/// The frames of the fetched segments, with the header before them.
pub open spec fn flac_payloads(header: Seq<u8>, segments: Seq<Seq<u8>>) -> Seq<Seq<u8>> {
    seq![header] + segments.map_values(|s: Seq<u8>| flac::frames_of(s))
}

/// Fetched segments as byte sequences.
pub open spec fn segment_bytes(parts: Seq<Result<Vec<u8>, Error>>) -> Seq<Seq<u8>> {
    parts.map_values(|p: Result<Vec<u8>, Error>| p->Ok_0@)
}

/// Every fetch worked.
pub open spec fn all_fetched(parts: Seq<Result<Vec<u8>, Error>>) -> bool {
    forall|i: int| 0 <= i < parts.len() ==> (#[trigger] parts[i]) is Ok
}

/// `e` is the first error among the fetches.
pub open spec fn first_error(parts: Seq<Result<Vec<u8>, Error>>, e: Error) -> bool {
    exists|i: int|
        {
            &&& 0 <= i < parts.len()
            &&& #[trigger] parts[i] == Err::<Vec<u8>, Error>(e)
            &&& forall|j: int| 0 <= j < i ==> (#[trigger] parts[j]) is Ok
        }
}

/// Builds a whole FLAC stream from its header and the fetched segments; the first fetch that
/// failed fails it.
pub fn assemble_flac(header: Vec<u8>, parts: Vec<Result<Vec<u8>, Error>>) -> (r: Result<
    Vec<u8>,
    Error,
>)
    ensures
        match r {
            Ok(b) => all_fetched(parts@) && b@ == joined(
                flac_payloads(header@, segment_bytes(parts@)),
                parts@.len() as int + 1,
            ),
            Err(e) => first_error(parts@, e),
        },
        r is Ok <==> forall|i: int| 0 <= i < parts@.len() ==> (#[trigger] parts@[i]) is Ok,
        r is Err ==> exists|i: int|
            0 <= i < parts@.len() && #[trigger] parts@[i] == Err::<Vec<u8>, Error>(r->Err_0) && forall|
                j: int,
            |
                0 <= j < i ==> (#[trigger] parts@[j]) is Ok,
{
    let ghost all = parts@;
    let ghost payloads = flac_payloads(header@, segment_bytes(all));
    let count: usize = parts.len();
    let ghost n = count as int;
    let mut out = header;
    proof {
        assert(payloads[0] == header@);
        assert(joined(payloads, 0) + payloads[0] =~= header@);
    }
    let mut i: usize = 0;
    let mut rest = parts;
    while rest.len() > 0
        invariant
            i + rest@.len() == n,
            n == all.len(),
            n == count,
            all == parts@,
            rest@ == all.subrange(i as int, n),
            out@ == joined(payloads, i + 1),
            payloads == flac_payloads(header@, segment_bytes(all)),
            forall|j: int| 0 <= j < i ==> (#[trigger] all[j]) is Ok,
        decreases rest@.len(),
    {
        assert(rest@[0] == all[i as int]);
        match rest.remove(0) {
            Ok(raw) => {
                let f = flac::frames(raw.as_slice());
                assert(payloads[i + 1] == flac::frames_of(segment_bytes(all)[i as int]));
                flac::append_bytes(&mut out, f.as_slice());
            },
            Err(e) => {
                assert(all[i as int] == Err::<Vec<u8>, Error>(e));
                return Err(e);
            },
        }
        i += 1;
        assert(rest@ =~= all.subrange(i as int, n));
    }
    Ok(out)
}

/// What comes after the init segment of a FLAC track was fetched.
#[derive(Debug)]
pub enum FlacStart {
    /// The init segment could not be had.
    Unavailable(Failure),
    /// It is not FLAC after all: the whole track is sent as it is.
    AssembleMp4,
    /// The native header; the lengths of the segments come next.
    Measure(Vec<u8>),
}

/// Decides how a FLAC track is served from what came of its init segment.
pub fn flac_start(init: Result<Vec<u8>, Error>) -> (r: FlacStart)
    ensures
        match r {
            FlacStart::Unavailable(f) => init is Err && f.is(0, "Stream unavailable"@),
            FlacStart::AssembleMp4 => init is Ok && flac::header_of(init->Ok_0@) is None,
            FlacStart::Measure(h) => init is Ok && flac::header_of(init->Ok_0@) == Some(h@),
        },
        init is Err ==> r is Unavailable,
        init is Ok && flac::header_of(init->Ok_0@) is None ==> r is AssembleMp4,
        init is Ok && flac::header_of(init->Ok_0@) is Some ==> (r matches FlacStart::Measure(h) && h@
            == flac::header_of(init->Ok_0@)->0),
{
    match init {
        Ok(bytes) => match flac::header(bytes.as_slice()) {
            Some(h) => FlacStart::Measure(h),
            None => FlacStart::AssembleMp4,
        },
        Err(_) => FlacStart::Unavailable(Failure { code: 0, message: "Stream unavailable" }),
    }
}

/// The addresses of the parts of a rewrapped stream: none for the header, then the segments.
pub open spec fn flac_urls(segments: Seq<String>) -> Seq<Option<String>> {
    seq![None::<String>] + segments.map_values(|s: String| Some(s))
}

/// The lengths of the parts of a rewrapped stream.
pub open spec fn flac_lens(header: Seq<u8>, sizes: Seq<u64>) -> Seq<u64> {
    seq![header.len() as u64] + sizes
}

/// Some of each string.
fn some_each(out: &mut Vec<Option<String>>, v: &Vec<String>)
    ensures
        final(out)@ == old(out)@ + v@.map_values(|s: String| Some(s)),
{
    let mut i: usize = 0;
    while i < v.len()
        invariant
            i <= v@.len(),
            out@ =~= old(out)@ + v@.take(i as int).map_values(|s: String| Some(s)),
        decreases v@.len() - i,
    {
        out.push(Some(v[i].clone()));
        i += 1;
    }
    assert(v@.take(v@.len() as int) =~= v@);
}

/// Serves a FLAC track: in parts where the lengths of its segments are known, and otherwise not
/// yet, for then the whole track is fetched first.
pub fn serve_flac(
    header: &Vec<u8>,
    segments: &Vec<String>,
    sizes: Option<&Vec<u64>>,
    range: Option<&str>,
    attachment: Option<&str>,
) -> (r: Option<ChunkedReply>)
    requires
        sizes is Some ==> lens_fit(flac_lens(header@, sizes->0@)),
    ensures
        match r {
            Some(c) => sizes is Some && answers_range(
                c,
                flac_urls(segments@),
                flac_lens(header@, sizes->0@),
                opt_view(range),
                opt_view(attachment),
                "audio/flac"@,
            ),
            None => sizes is None,
        },
{
    match sizes {
        Some(table) => {
            let mut lens: Vec<u64> = Vec::new();
            lens.push(header.len() as u64);
            let mut i: usize = 0;
            while i < table.len()
                invariant
                    i <= table@.len(),
                    lens@ =~= flac_lens(header@, table@.take(i as int)),
                decreases table@.len() - i,
            {
                lens.push(table[i]);
                i += 1;
            }
            assert(table@.take(table@.len() as int) =~= table@);
            let mut urls: Vec<Option<String>> = Vec::new();
            urls.push(None);
            some_each(&mut urls, segments);
            assert(urls@ =~= flac_urls(segments@));
            Some(chunked_reply(&urls, &lens, range, attachment, "audio/flac"))
        },
        None => None,
    }
}

/// The addresses of the parts of a stream that is not rewrapped.
pub open spec fn mp4_urls(init: String, segments: Seq<String>) -> Seq<Option<String>> {
    seq![Some(init)] + segments.map_values(|s: String| Some(s))
}

/// Serves a track that is not FLAC: in parts where the lengths of its segments are known, and
/// otherwise not yet, for then the whole track is fetched first.
pub fn serve_mp4(
    init: &String,
    segments: &Vec<String>,
    sizes: Option<&Vec<u64>>,
    range: Option<&str>,
    attachment: Option<&str>,
) -> (r: Option<ChunkedReply>)
    requires
        sizes is Some ==> lens_fit(sizes->0@),
    ensures
        match r {
            Some(c) => sizes is Some && answers_range(
                c,
                mp4_urls(*init, segments@),
                sizes->0@,
                opt_view(range),
                opt_view(attachment),
                "audio/mp4"@,
            ),
            None => sizes is None,
        },
{
    match sizes {
        Some(lens) => {
            let mut urls: Vec<Option<String>> = Vec::new();
            urls.push(Some(init.clone()));
            some_each(&mut urls, segments);
            assert(urls@ =~= mp4_urls(*init, segments@));
            Some(chunked_reply(&urls, lens, range, attachment, "audio/mp4"))
        },
        None => None,
    }
}

/// The codec is FLAC.
pub open spec fn is_flac(codec: Seq<char>) -> bool {
    text::begins(codec, "flac"@)
}

/// The type of content of a segmented track.
pub open spec fn content_type_of(codec: Seq<char>) -> Seq<char> {
    if is_flac(codec) {
        "audio/flac"@
    } else {
        "audio/mp4"@
    }
}

/// How a track is served.
#[derive(Debug)]
pub enum Serving {
    Unavailable(Failure),
    Redirect(String),
    /// From the bytes already assembled, as this type of content.
    FromMemory(&'static str),
    Flac,
    Mp4,
}

/// Decides how a track is served: encrypted audio not at all, a whole file by a redirect,
/// segments from memory where they were assembled before, and otherwise by their codec.
pub fn serve(info: &StreamInfo, assembled: bool) -> (r: Serving)
    ensures
        match r {
            Serving::Unavailable(f) => info.encrypted && f.is(0, "Stream unavailable"@),
            Serving::Redirect(url) => !info.encrypted && info.asset == Asset::File(url),
            Serving::FromMemory(t) => !info.encrypted && info.asset is Segmented && assembled
                && t@ == content_type_of(info.codec@),
            Serving::Flac => !info.encrypted && info.asset is Segmented && !assembled && is_flac(
                info.codec@,
            ),
            Serving::Mp4 => !info.encrypted && info.asset is Segmented && !assembled && !is_flac(
                info.codec@,
            ),
        },
        info.encrypted ==> r is Unavailable,
        !info.encrypted && info.asset is File ==> r is Redirect,
        !info.encrypted && info.asset is Segmented && !assembled ==> (r is Flac <==>
            "flac"@.is_prefix_of(info.codec@)) && (r is Mp4 <==> !"flac"@.is_prefix_of(info.codec@)),
        !info.encrypted && info.asset is Segmented && assembled ==> (r matches Serving::FromMemory(t) && t@
            == (if "flac"@.is_prefix_of(info.codec@) {
            "audio/flac"@
        } else {
            "audio/mp4"@
        })),
{
    proof {
        lemma_flac_is_a_prefix(info.codec@);
    }
    if info.encrypted {
        return Serving::Unavailable(Failure { code: 0, message: "Stream unavailable" });
    }
    match &info.asset {
        Asset::File(url) => Serving::Redirect(url.clone()),
        Asset::Segmented { init: _, segments: _ } => {
            let native = text::starts_with(info.codec.as_str(), "flac");
            if assembled {
                if native {
                    Serving::FromMemory("audio/flac")
                } else {
                    Serving::FromMemory("audio/mp4")
                }
            } else if native {
                Serving::Flac
            } else {
                Serving::Mp4
            }
        },
    }
}

/// The name to save a track under: its number, and the ending of what it contains.
pub fn download_name(track_id: u64, codec: &str) -> (r: String)
    ensures
        r@ == decimal(track_id as nat) + "."@ + (if is_flac(codec@) {
            "flac"@
        } else {
            "m4a"@
        }),
        "flac"@.is_prefix_of(codec@) ==> r@ == decimal(track_id as nat) + "."@ + "flac"@,
        !"flac"@.is_prefix_of(codec@) ==> r@ == decimal(track_id as nat) + "."@ + "m4a"@,
{
    proof {
        lemma_flac_is_a_prefix(codec@);
    }
    let ext = if text::starts_with(codec, "flac") {
        "flac"
    } else {
        "m4a"
    };
    text::join3(text::decimal_text(track_id).as_str(), ".", ext)
}

/// What the planned parts send, where `payloads` are the bytes of the parts.
pub open spec fn sent(payloads: Seq<Seq<u8>>, plan: Seq<(int, int, int)>) -> Seq<u8>
    decreases plan.len(),
{
    if plan.len() == 0 {
        Seq::empty()
    } else {
        let (k, skip, take) = plan.last();
        sent(payloads, plan.drop_last()) + payloads[k].subrange(skip, skip + take)
    }
}

proof fn lemma_joined_len(payloads: Seq<Seq<u8>>, lens: Seq<u64>, n: int)
    requires
        0 <= n <= lens.len(),
        lens.len() <= payloads.len(),
        forall|k: int| 0 <= k < lens.len() ==> (#[trigger] payloads[k]).len() == lens[k],
    ensures
        joined(payloads, n).len() == offset(lens, n),
    decreases n,
{
    if n > 0 {
        lemma_joined_len(payloads, lens, n - 1);
        assert(payloads[n - 1].len() == lens[n - 1]);
    }
}

proof fn lemma_sent(payloads: Seq<Seq<u8>>, lens: Seq<u64>, n: int, start: int, end: int)
    requires
        0 <= n <= lens.len(),
        lens.len() <= payloads.len(),
        forall|k: int| 0 <= k < lens.len() ==> (#[trigger] payloads[k]).len() == lens[k],
        0 <= start <= end,
    ensures
        sent(payloads, planned(lens, n, start, end)) == joined(payloads, n).subrange(
            smaller(start, offset(lens, n)),
            smaller(end + 1, offset(lens, n)),
        ),
    decreases n,
{
    lemma_joined_len(payloads, lens, n);
    if n <= 0 {
        assert(joined(payloads, n).subrange(0, 0) =~= Seq::empty());
    } else {
        lemma_sent(payloads, lens, n - 1, start, end);
        lemma_joined_len(payloads, lens, n - 1);
        lemma_offset_grows(lens, n - 1, n);
        let before = planned(lens, n - 1, start, end);
        let file = joined(payloads, n - 1);
        let o = offset(lens, n - 1);
        let p = payloads[n - 1];
        assert(p.len() == lens[n - 1]);
        let lo = smaller(start, offset(lens, n));
        let hi = smaller(end + 1, offset(lens, n));
        if covers(lens, n - 1, start, end) {
            let skip = skipped(lens, n - 1, start);
            let take = taken(lens, n - 1, start, end);
            assert(planned(lens, n, start, end).drop_last() =~= before);
            assert((file + p).subrange(lo, hi) =~= file.subrange(
                smaller(start, o),
                smaller(end + 1, o),
            ) + p.subrange(skip, skip + take));
        } else {
            assert((file + p).subrange(lo, hi) =~= file.subrange(
                smaller(start, o),
                smaller(end + 1, o),
            ));
        }
    }
}

/// The parts of a response add up to exactly the bytes that were asked for, out of the file
/// that all the parts in a row make up. So the length announced is the length sent.
pub proof fn law_parts_add_up(payloads: Seq<Seq<u8>>, lens: Seq<u64>, start: int, end: int)
    requires
        payloads.len() == lens.len(),
        forall|k: int| 0 <= k < lens.len() ==> (#[trigger] payloads[k]).len() == lens[k],
        0 <= start <= end < offset(lens, lens.len() as int),
    ensures
        sent(payloads, planned(lens, lens.len() as int, start, end)) == joined(
            payloads,
            lens.len() as int,
        ).subrange(start, end + 1),
        sent(payloads, planned(lens, lens.len() as int, start, end)).len() == end - start + 1,
{
    lemma_sent(payloads, lens, lens.len() as int, start, end);
    lemma_joined_len(payloads, lens, lens.len() as int);
}

/// Serving a FLAC track whole in parts sends the same bytes as assembling it first, where each
/// segment holds as many frames as was measured. So a body kept from either is good for both.
pub proof fn law_chunked_is_assembled(
    header: Seq<u8>,
    segments: Seq<Seq<u8>>,
    sizes: Seq<u64>,
)
    requires
        segments.len() == sizes.len(),
        0 < header.len() <= u64::MAX,
        forall|i: int|
            0 <= i < sizes.len() ==> flac::frames_of(#[trigger] segments[i]).len() == sizes[i],
    ensures
        ({
            let lens = flac_lens(header, sizes);
            let n = lens.len() as int;
            let payloads = flac_payloads(header, segments);
            sent(payloads, planned(lens, n, 0, offset(lens, n) - 1)) == joined(payloads, n)
        }),
{
    let lens = flac_lens(header, sizes);
    let n = lens.len() as int;
    let payloads = flac_payloads(header, segments);
    assert forall|k: int| 0 <= k < lens.len() implies (#[trigger] payloads[k]).len()
        == lens[k] by {
        if k > 0 {
            assert(payloads[k] == flac::frames_of(segments[k - 1]));
        }
    }
    lemma_offset_grows(lens, 1, n);
    assert(offset(lens, 1) == offset(lens, 0) + lens[0]);
    law_parts_add_up(payloads, lens, 0, offset(lens, n) - 1);
    lemma_joined_len(payloads, lens, n);
    assert(joined(payloads, n).subrange(0, offset(lens, n)) =~= joined(payloads, n));
}

/// A range that is served lies within the body, and is not empty.
pub proof fn law_range_within_body(header: Seq<char>, total: nat)
    ensures
        match range_of(header, total) {
            Some((start, end)) => start <= end < total,
            None => true,
        },
{
}

/// The tier of the settings: the lossless one without settings, or where the name in them is
/// none of a tier.
pub open spec fn tier_of(settings: Option<&Settings>) -> Quality {
    match settings {
        Some(s) => match tier_named(s.tidal_quality@) {
            Some(q) => q,
            None => Quality::Lossless,
        },
        None => Quality::Lossless,
    }
}

/// The tier that the settings name.
pub fn configured_tier(settings: Option<&Settings>) -> (r: Quality)
    ensures
        r == tier_of(settings),
        settings is None ==> r == Quality::Lossless,
{
    match settings {
        Some(s) => match Quality::from_setting(s.tidal_quality.as_str()) {
            Some(q) => q,
            None => Quality::Lossless,
        },
        None => Quality::Lossless,
    }
}

/// The tier to ask for: that which the client hints at, and otherwise that of the settings. What
/// the service says of the track takes nothing from it.
pub fn resolve_tier(hint: Option<Quality>, settings: Option<&Settings>) -> (r: Quality)
    ensures
        r == (match hint {
            Some(q) => q,
            None => tier_of(settings),
        }),
        hint is Some ==> r == hint->0,
        hint is None && settings is None ==> r == Quality::Lossless,
{
    match hint {
        Some(q) => q,
        None => configured_tier(settings),
    }
}

/// The track that a request is to stream.
pub fn stream(q: &QueryParams) -> (r: Result<u64, Failure>)
    ensures
        is_requested(r, *q, IdKind::Track),
        q.id.0@.len() == 0 ==> r is Err && r->Err_0.code == 10,
        q.id.0@.len() > 0 ==> (r is Ok <==> crate::handlers::numbered(IdKind::Track, q.id.0@[0]@) is Some),
        r is Ok ==> crate::handlers::numbered(IdKind::Track, q.id.0@[0]@) == Some(r->Ok_0 as nat),
        q.id.0@.len() > 0 && r is Err ==> r->Err_0.code == 70 && r->Err_0.message@ == "Song not found"@,
{
    requested(q, IdKind::Track)
}

/// The track that a request is to download. Several would make an archive, which there is not.
pub fn download(q: &QueryParams) -> (r: Result<u64, Failure>)
    ensures
        if q.id.0@.len() == 0 {
            r matches Err(f) && is_missing(f)
        } else if q.id.0@.len() > 1 {
            r matches Err(f) && f.is(0, "Multiple downloads not supported"@)
        } else {
            match track_of(q.id.0@[0]@) {
                Some(n) => r matches Ok(m) && m == n,
                None => r matches Err(f) && f.is(70, "Song not found"@),
            }
        },
{
    if q.id.0.len() == 0 {
        return Err(missing());
    }
    if q.id.0.len() > 1 {
        return Err(Failure { code: 0, message: "Multiple downloads not supported" });
    }
    match ids::parse_track_id(q.id.0[0].as_str()) {
        Some(n) => Ok(n),
        None => Err(not_found(IdKind::Track)),
    }
}

/// The number under a name in a document, where the text is one and has it.
pub uninterp spec fn number_under(document: Seq<char>, name: Seq<char>) -> Option<u64>;

/// `serde_json::from_str` reads a text as a document, `Value::get` takes the part with a name,
/// and `Value::as_u64` gives the number that a part is. A text that is no document, a document
/// without the part, and a part that is no whole number of 64 bits give none.
#[verifier::external_body]
fn read_number_under(document: &str, name: &str) -> (r: Option<u64>)
    ensures
        r == number_under(document@, name@),
{
    serde_json::from_str::<serde_json::Value>(document).ok()?.get(name)?.as_u64()
}

/// The reason that the service gives in the body of a refusal.
pub open spec fn reason_in(e: Error) -> Option<u64> {
    match e {
        Error::Tidal(_, body) => number_under(body@, "subStatus"@),
        _ => None,
    }
}

/// Reads the reason that the service gives in the body of a refusal.
pub fn sub_status(e: &Error) -> (r: Option<u64>)
    ensures
        r == reason_in(*e),
        (e matches Error::Tidal(_, body)) ==> (e matches Error::Tidal(_, body) && r == number_under(
            body@,
            "subStatus"@,
        )),
        !(e is Tidal) ==> r is None,
{
    match e {
        Error::Tidal(_, body) => read_number_under(body.as_str(), "subStatus"),
        _ => None,
    }
}

/// Why a track is not streamed, as the log says it.
#[derive(Debug, Clone, Copy, PartialEq, Eq, Structural)]
pub enum Refusal {
    /// Too many streams were started.
    TooMany,
    /// The track cannot be played.
    NotPlayable,
    /// The streams of the month are used up.
    Quota,
    /// Not in this region.
    Region,
    /// Not with this subscription.
    Subscription,
    Other,
}

/// What a reason means.
pub open spec fn refusal_of(reason: Option<u64>) -> Refusal {
    match reason {
        Some(n) => if n == 4010 {
            Refusal::Quota
        } else if n == 4032 || n == 4035 {
            Refusal::Region
        } else if n == 4033 {
            Refusal::Subscription
        } else {
            Refusal::Other
        },
        None => Refusal::Other,
    }
}

/// What a reason means.
pub fn diagnose(reason: Option<u64>) -> (r: Refusal)
    ensures
        r == refusal_of(reason),
        reason == Some(4010u64) ==> r == Refusal::Quota,
        reason == Some(4032u64) || reason == Some(4035u64) ==> r == Refusal::Region,
        reason == Some(4033u64) ==> r == Refusal::Subscription,
        reason is None ==> r == Refusal::Other,
{
    match reason {
        Some(n) => if n == 4010 {
            Refusal::Quota
        } else if n == 4032 || n == 4035 {
            Refusal::Region
        } else if n == 4033 {
            Refusal::Subscription
        } else {
            Refusal::Other
        },
        None => Refusal::Other,
    }
}

/// What is answered where a track could not be had, and why, for the log: a track that cannot be
/// played is not there, and with anything else it is not available.
pub fn stream_error(e: &Error, not_playable: bool) -> (r: (Failure, Refusal))
    ensures
        if e is RateLimited {
            r.0.is(0, "Stream unavailable"@) && r.1 == Refusal::TooMany
        } else if not_playable {
            r.0.is(70, "Song not found"@) && r.1 == Refusal::NotPlayable
        } else {
            r.0.is(0, "Stream unavailable"@) && r.1 == refusal_of(reason_in(*e))
        },
        ({
            let (f, why) = r;
            &&& e is RateLimited || !not_playable ==> f.code == 0 && f.message@ == "Stream unavailable"@
            &&& !(e is RateLimited) && not_playable ==> f.code == 70 && f.message@ == "Song not found"@
            &&& e is RateLimited ==> why == Refusal::TooMany
            &&& !(e is RateLimited) && not_playable ==> why == Refusal::NotPlayable
        }),
{
    let unavailable = Failure { code: 0, message: "Stream unavailable" };
    match e {
        Error::RateLimited => (unavailable, Refusal::TooMany),
        _ => if not_playable {
            (not_found(IdKind::Track), Refusal::NotPlayable)
        } else {
            (unavailable, diagnose(sub_status(e)))
        },
    }
}

/// The parts of a rewrapped stream are its header, which has no address, and then the segments,
/// each with its own address, length and frames, in their order. The parts of any other stream
/// are the init segment and then the segments.
#[verifier::rlimit(40)]
pub proof fn law_parts_stand_in_their_order(
    header: Seq<u8>,
    init: String,
    segments: Seq<String>,
    sizes: Seq<u64>,
    fetched: Seq<Seq<u8>>,
    k: int,
)
    requires
        header.len() <= u64::MAX,
    ensures
        flac_urls(segments).len() == segments.len() + 1,
        flac_urls(segments)[0] is None,
        0 <= k < segments.len() ==> flac_urls(segments)[k + 1] == Some(segments[k]),
        flac_lens(header, sizes).len() == sizes.len() + 1,
        flac_lens(header, sizes)[0] == header.len(),
        0 <= k < sizes.len() ==> flac_lens(header, sizes)[k + 1] == sizes[k],
        flac_payloads(header, fetched).len() == fetched.len() + 1,
        flac_payloads(header, fetched)[0] == header,
        0 <= k < fetched.len() ==> flac_payloads(header, fetched)[k + 1] == flac::frames_of(
            fetched[k],
        ),
        mp4_urls(init, segments).len() == segments.len() + 1,
        mp4_urls(init, segments)[0] == Some(init),
        0 <= k < segments.len() ==> mp4_urls(init, segments)[k + 1] == Some(segments[k]),
{
}

/// Parts are joined one behind the other, and the place of a part is the length of all before it.
pub proof fn law_parts_are_joined_in_a_row(payloads: Seq<Seq<u8>>, lens: Seq<u64>, n: int)
    requires
        0 <= n < payloads.len(),
        n < lens.len(),
    ensures
        joined(payloads, n + 1) == joined(payloads, n) + payloads[n],
        joined(payloads, 0).len() == 0,
        offset(lens, n + 1) == offset(lens, n) + lens[n],
        offset(lens, 0) == 0,
{
}

/// Of what a refusal gives as its reason, these are told apart.
pub proof fn law_reasons_are_told_apart(n: u64)
    ensures
        refusal_of(Some(4010u64)) == Refusal::Quota,
        refusal_of(Some(4032u64)) == Refusal::Region,
        refusal_of(Some(4035u64)) == Refusal::Region,
        refusal_of(Some(4033u64)) == Refusal::Subscription,
        n != 4010 && n != 4032 && n != 4033 && n != 4035 ==> refusal_of(Some(n))
            == Refusal::Other,
        refusal_of(None) == Refusal::Other,
{
}

/// Audio is sent as FLAC exactly where its codec begins with that word.
pub proof fn law_the_codec_says_what_is_sent(codec: Seq<char>)
    ensures
        text::begins(codec, "flac"@) ==> is_flac(codec) && content_type_of(codec) == "audio/flac"@,
        !text::begins(codec, "flac"@) ==> !is_flac(codec) && content_type_of(codec)
            == "audio/mp4"@,
{
}

/// Without settings, or where the name in them is none of a tier, the lossless tier is asked for.
pub proof fn law_the_tier_of_the_settings(settings: Settings)
    ensures
        tier_of(None) == Quality::Lossless,
        settings.tidal_quality@ == "LOW"@ ==> tier_of(Some(&settings)) == Quality::Low,
        settings.tidal_quality@ == "HIGH"@ ==> tier_of(Some(&settings)) == Quality::High,
        settings.tidal_quality@ == "LOSSLESS"@ ==> tier_of(Some(&settings)) == Quality::Lossless,
        settings.tidal_quality@ == "HI_RES_LOSSLESS"@ ==> tier_of(Some(&settings))
            == Quality::HiResLossless,
        settings.tidal_quality@ == "ATMOS"@ ==> tier_of(Some(&settings)) == Quality::Atmos,
        tier_named(settings.tidal_quality@) is None ==> tier_of(Some(&settings))
            == Quality::Lossless,
{
    reveal_strlit("LOW");
    reveal_strlit("HIGH");
    reveal_strlit("LOSSLESS");
    reveal_strlit("HI_RES_LOSSLESS");
    reveal_strlit("ATMOS");
    assert("LOW"@.len() == 3 && "HIGH"@.len() == 4 && "LOSSLESS"@.len() == 8 && "HI_RES_LOSSLESS"@.len()
        == 15 && "ATMOS"@.len() == 5);
}

/// A codec is FLAC where its name begins so.
proof fn lemma_flac_is_a_prefix(codec: Seq<char>)
    ensures
        is_flac(codec) <==> "flac"@.is_prefix_of(codec),
{
    reveal_strlit("flac");
    assert("flac"@.len() == 4);
    assert(codec.len() >= 4 ==> ("flac"@.is_prefix_of(codec) <==> codec.subrange(0, 4) =~= "flac"@));
}

} // verus!
