//! Lyrics, timed by line or by word where they can be.

use crate::handlers::{is_missing, missing, Failure};
use crate::json;
use crate::json::{field, field2, items, number, string, Json};
use crate::models::lyrics::{RadiantLine, RadiantLyrics, RadiantSyllable};
use crate::models::song::{Cue, CueLine, LyricLine, Lyrics, LyricsResponse, StructuredLyrics};
use crate::number::{law_a_second_is_a_thousand_milliseconds, millis, parse_millis, thousandths};
use crate::params::{number32, QueryParams};
use crate::text;
use crate::text::{after_prefix, all_digits, parted, pieces, texts, trimmed};
use crate::tidal::Error;
use vstd::prelude::*;
use vstd::utf8::encode_utf8;

verus! {

/// The milliseconds that a timestamp of minutes and seconds stands for: digits, a colon, digits,
/// and optionally a point with digits behind it. Any other text is no timestamp.
pub open spec fn timestamp(tag: Seq<char>) -> Option<nat> {
    match parted(tag, ':') {
        Some((minutes, seconds)) => match (number32(minutes), millis(seconds)) {
            (Some(m), Some(ms)) => if all_digits(minutes) {
                Some((m * 60_000 + ms) as nat)
            } else {
                None
            },
            _ => None,
        },
        None => None,
    }
}

/// Reads a timestamp in wider numbers.
fn wide_timestamp(tag: &str) -> (r: Option<u64>)
    ensures
        text::opt_nat(r) == timestamp(tag@),
{
    match text::split_once(tag, ':') {
        Some((minutes, seconds)) => match (text::parse_u32(minutes), parse_millis(seconds)) {
            (Some(m), Some(ms)) => {
                if text::only_digits(minutes) {
                    Some(m as u64 * 60_000 + ms as u64)
                } else {
                    None
                }
            },
            _ => None,
        },
        None => None,
    }
}

/// Reads a timestamp such as `00:13.67`; a tag of another kind gives none.
pub fn timestamp_ms(tag: &str) -> (r: Option<u32>)
    requires
        timestamp(tag@) is Some ==> timestamp(tag@)->0 <= u32::MAX,
    ensures
        text::opt_nat32(r) == timestamp(tag@),
{
    match wide_timestamp(tag) {
        Some(t) => Some(t as u32),
        None => None,
    }
}

/// A timestamp reads as sixty thousand for each of its minutes, a thousand for each of its
/// seconds, and the thousandths behind the point. So a minute more is sixty thousand more,
/// however many there are.
#[verifier::rlimit(40)]
pub proof fn law_timestamps_count_minutes_and_seconds(
    m: Seq<char>,
    s: Seq<char>,
    f: Seq<char>,
)
    requires
        m.len() > 0,
        s.len() > 0,
        f.len() > 0,
        all_digits(m),
        all_digits(s),
        all_digits(f),
        text::digits_value(m) <= u32::MAX,
        text::digits_value(s) * 1000 + 999 <= u32::MAX,
    ensures
        timestamp(m + seq![':'] + s + seq!['.'] + f) == Some(
            (text::digits_value(m) * 60_000 + text::digits_value(s) * 1000 + thousandths(f)) as nat,
        ),
        timestamp(m + seq![':'] + s) == Some(
            (text::digits_value(m) * 60_000 + text::digits_value(s) * 1000) as nat,
        ),
{
    assert(!m.contains(':')) by {
        if m.contains(':') {
            let i = choose|i: int| 0 <= i < m.len() && m[i] == ':';
            assert(text::is_digit(m[i]));
        }
    }
    text::law_parted_at_the_first(m, ':', s + seq!['.'] + f);
    text::law_parted_at_the_first(m, ':', s);
    assert(m + seq![':'] + s + seq!['.'] + f =~= m + seq![':'] + (s + seq!['.'] + f));
    law_a_second_is_a_thousand_milliseconds(s, f);
    assert(text::is_digit(m[0]));
    assert(text::is_digit(f[0]));
    if f.len() > 1 {
        assert(text::is_digit(f[1]));
    }
    if f.len() > 2 {
        assert(text::is_digit(f[2]));
    }
}

proof fn lemma_time_parts(ms: int)
    requires
        0 <= ms,
    ensures
        ms / 100 % 10 * 100 + ms / 10 % 10 * 10 + ms % 10 == ms % 1000,
        ms / 60_000 * 60_000 + ms / 1000 % 60 * 1000 + ms % 1000 == ms,
{
    assert(ms / 10 / 10 == ms / 100);
    assert(ms / 100 / 10 == ms / 1000);
    assert(ms / 1000 / 60 == ms / 60_000);
}

/// A time written as minutes, seconds and thousandths is read back as that time.
#[verifier::rlimit(40)]
pub proof fn law_times_read_back(ms: nat)
    requires
        ms <= u32::MAX,
    ensures
        ({
            let f = seq![
                text::digit_char(ms / 100 % 10),
                text::digit_char(ms / 10 % 10),
                text::digit_char(ms % 10),
            ];
            timestamp(
                text::decimal(ms / 60_000) + seq![':'] + text::decimal(ms / 1000 % 60) + seq!['.']
                    + f,
            ) == Some(ms)
        }),
{
    let m = text::decimal(ms / 60_000);
    let s = text::decimal(ms / 1000 % 60);
    let f = seq![
        text::digit_char(ms / 100 % 10),
        text::digit_char(ms / 10 % 10),
        text::digit_char(ms % 10),
    ];
    text::lemma_decimal(ms / 60_000);
    text::lemma_decimal(ms / 1000 % 60);
    lemma_time_parts(ms as int);
    assert(all_digits(f));
    law_timestamps_count_minutes_and_seconds(m, s, f);
    assert(thousandths(f) == ms as int % 1000);
}

/// The time and the words of a line that starts with a timestamp in brackets.
pub open spec fn lrc_entry(raw: Seq<char>) -> Option<(nat, Seq<char>)> {
    match after_prefix(trimmed(raw), "["@) {
        Some(rest) => match parted(rest, ']') {
            Some((tag, tail)) => match timestamp(tag) {
                Some(t) => if trimmed(tail).len() > 0 {
                    Some((t, trimmed(tail)))
                } else {
                    None
                },
                None => None,
            },
            None => None,
        },
        None => None,
    }
}

/// The timed lines among these lines; lines without a time or without words are passed over.
pub open spec fn lrc_entries(lines: Seq<Seq<char>>) -> Seq<(nat, Seq<char>)>
    decreases lines.len(),
{
    if lines.len() == 0 {
        Seq::empty()
    } else {
        match lrc_entry(lines.last()) {
            Some(e) => lrc_entries(lines.drop_last()).push(e),
            None => lrc_entries(lines.drop_last()),
        }
    }
}

/// The timed lines of a subtitle track.
pub open spec fn lrc(s: Seq<char>) -> Seq<(nat, Seq<char>)> {
    lrc_entries(pieces(s, '\n'))
}

/// Every time of a subtitle track can be held in 32 bits.
pub open spec fn lrc_fits(s: Seq<char>) -> bool {
    forall|i: int| 0 <= i < lrc(s).len() ==> (#[trigger] lrc(s)[i]).0 <= u32::MAX
}

proof fn lemma_entries_join(a: Seq<Seq<char>>, b: Seq<Seq<char>>)
    ensures
        lrc_entries(a + b) == lrc_entries(a) + lrc_entries(b),
    decreases b.len(),
{
    if b.len() == 0 {
        assert(a + b =~= a);
        assert(lrc_entries(a) + lrc_entries(b) =~= lrc_entries(a));
    } else {
        lemma_entries_join(a, b.drop_last());
        assert((a + b).drop_last() =~= a + b.drop_last());
        assert((a + b).last() == b.last());
        assert(lrc_entries(a + b) =~= lrc_entries(a) + lrc_entries(b));
    }
}

/// A subtitle track is read line by line: first what its first line gives, then what the lines
/// behind it give.
pub proof fn law_subtitles_are_read_line_by_line(line: Seq<char>, rest: Seq<char>)
    requires
        !line.contains('\n'),
    ensures
        lrc(line + seq!['\n'] + rest) == lrc(line) + lrc(rest),
        lrc(line) == (match lrc_entry(line) {
            Some(e) => seq![e],
            None => Seq::empty(),
        }),
{
    text::law_pieces_are_cut_at_each(line, '\n', rest);
    lemma_entries_join(seq![line], pieces(rest, '\n'));
    assert(seq![line].drop_last() =~= Seq::empty());
    assert(lrc_entries(seq![line].drop_last()) =~= Seq::empty());
    assert(lrc_entries(seq![line]) =~= (match lrc_entry(line) {
        Some(e) => seq![e],
        None => Seq::empty(),
    }));
}

/// A line with a timestamp in brackets gives its time and its words, without the white space
/// around them; a line without words, or with a tag that is no timestamp, gives nothing.
pub proof fn law_a_line_gives_its_time_and_its_words(
    before: Seq<char>,
    tag: Seq<char>,
    between: Seq<char>,
    words: Seq<char>,
    behind: Seq<char>,
)
    requires
        text::all_space(before),
        text::all_space(between),
        text::all_space(behind),
        text::is_core(words),
        !tag.contains(']'),
    ensures
        lrc_entry(before + seq!['['] + tag + seq![']'] + between + words + behind) == (
        match timestamp(tag) {
            Some(t) => if words.len() > 0 {
                Some((t, words))
            } else {
                None
            },
            None => None,
        }),
{
    reveal_strlit("[");
    assert("["@ =~= seq!['[']);
    let raw = before + seq!['['] + tag + seq![']'] + between + words + behind;
    if words.len() > 0 {
        let tail = between + words;
        let core = seq!['['] + (tag + seq![']'] + tail);
        assert(raw =~= before + core + behind);
        assert(core.last() == words.last());
        text::law_trimming_keeps_the_core(before, core, behind);
        text::law_a_prefix_leaves_the_rest(seq!['['], tag + seq![']'] + tail, core);
        text::law_parted_at_the_first(tag, ']', tail);
        text::law_trimming_keeps_the_core(between, words, Seq::empty());
        assert(between + words + Seq::<char>::empty() =~= tail);
    } else {
        let space = between + behind;
        let core = seq!['['] + (tag + seq![']']);
        assert(raw =~= before + core + space);
        assert forall|i: int| 0 <= i < space.len() implies text::is_space(#[trigger] space[i]) by {
            if i < between.len() {
                assert(space[i] == between[i]);
            } else {
                assert(space[i] == behind[i - between.len()]);
            }
        }
        assert(core.last() == ']');
        text::law_trimming_keeps_the_core(before, core, space);
        assert(core =~= seq!['['] + (tag + seq![']'] + Seq::<char>::empty()));
        text::law_a_prefix_leaves_the_rest(
            seq!['['],
            tag + seq![']'] + Seq::<char>::empty(),
            core,
        );
        text::law_parted_at_the_first(tag, ']', Seq::empty());
        text::law_trimming_keeps_the_core(Seq::empty(), words, Seq::empty());
        assert(words =~= Seq::<char>::empty());
    }
}

/// Timed lines as values.
pub open spec fn timed_lines(v: Seq<LyricLine>) -> Seq<(Option<u32>, Seq<char>)> {
    v.map_values(|l: LyricLine| (l.start, l.value@))
}

/// Timed lines of a subtitle track as they are served.
pub open spec fn served_lines(v: Seq<(nat, Seq<char>)>) -> Seq<(Option<u32>, Seq<char>)> {
    v.map_values(|e: (nat, Seq<char>)| (Some(e.0 as u32), e.1))
}

/// Reads one line of a subtitle track.
fn read_entry(raw: &str) -> (r: Option<(u64, String)>)
    ensures
        match r {
            Some((t, words)) => lrc_entry(raw@) == Some((t as nat, words@)),
            None => lrc_entry(raw@) is None,
        },
{
    match text::strip_prefix(text::trim(raw), "[") {
        Some(rest) => match text::split_once(rest, ']') {
            Some((tag, tail)) => match wide_timestamp(tag) {
                Some(t) => {
                    let words = text::trim(tail);
                    if words.unicode_len() > 0 {
                        Some((t, words.to_owned()))
                    } else {
                        None
                    }
                },
                None => None,
            },
            None => None,
        },
        None => None,
    }
}

/// Reads the timed lines of a subtitle track in wider numbers.
fn wide_lrc(s: &str) -> (r: Vec<(u64, String)>)
    ensures
        r@.len() == lrc(s@).len(),
        forall|i: int|
            0 <= i < r@.len() ==> (#[trigger] r@[i]).0 == lrc(s@)[i].0 && r@[i].1@ == lrc(s@)[i].1,
{
    let lines = text::split(s, '\n');
    let ghost all = pieces(s@, '\n');
    let mut out: Vec<(u64, String)> = Vec::new();
    let mut i: usize = 0;
    assert(all.take(0) =~= Seq::empty());
    while i < lines.len()
        invariant
            i <= lines@.len(),
            text::texts(lines@) == all,
            out@.len() == lrc_entries(all.take(i as int)).len(),
            forall|j: int|
                0 <= j < out@.len() ==> (#[trigger] out@[j]).0 == lrc_entries(
                    all.take(i as int),
                )[j].0 && out@[j].1@ == lrc_entries(all.take(i as int))[j].1,
        decreases lines@.len() - i,
    {
        assert(all.take(i + 1).drop_last() =~= all.take(i as int));
        assert(all.take(i + 1).last() == lines@[i as int]@);
        if let Some(e) = read_entry(lines[i].as_str()) {
            out.push(e);
        }
        i += 1;
    }
    assert(all.take(all.len() as int) =~= all);
    out
}

/// Whether every time of a subtitle track can be held in 32 bits.
pub fn check_lrc(s: &str) -> (r: bool)
    ensures
        r == lrc_fits(s@),
        r <==> forall|i: int| 0 <= i < lrc(s@).len() ==> (#[trigger] lrc(s@)[i]).0 <= u32::MAX,
{
    let all = wide_lrc(s);
    let mut i: usize = 0;
    while i < all.len()
        invariant
            i <= all@.len(),
            all@.len() == lrc(s@).len(),
            forall|j: int| 0 <= j < all@.len() ==> (#[trigger] all@[j]).0 == lrc(s@)[j].0,
            forall|j: int| 0 <= j < i ==> (#[trigger] lrc(s@)[j]).0 <= u32::MAX,
        decreases all@.len() - i,
    {
        assert(all@[i as int].0 == lrc(s@)[i as int].0);
        if all[i].0 > u32::MAX as u64 {
            return false;
        }
        i += 1;
    }
    true
}

/// Reads the timed lines of a subtitle track. The first timestamp of a line counts, and tags of
/// other kinds are passed over.
pub fn parse_lrc(s: &str) -> (r: Vec<LyricLine>)
    requires
        lrc_fits(s@),
    ensures
        timed_lines(r@) == served_lines(lrc(s@)),
        r@.len() == lrc(s@).len(),
        forall|i: int|
            0 <= i < r@.len() ==> (#[trigger] r@[i]).start == Some(lrc(s@)[i].0 as u32)
                && r@[i].value@ == lrc(s@)[i].1,
{
    let all = wide_lrc(s);
    let mut out: Vec<LyricLine> = Vec::new();
    let mut i: usize = 0;
    while i < all.len()
        invariant
            i <= all@.len(),
            lrc_fits(s@),
            all@.len() == lrc(s@).len(),
            forall|j: int|
                0 <= j < all@.len() ==> (#[trigger] all@[j]).0 == lrc(s@)[j].0 && all@[j].1@ == lrc(
                    s@,
                )[j].1,
            timed_lines(out@) =~= served_lines(lrc(s@)).take(i as int),
            out@.len() == i,
            forall|j: int|
                0 <= j < i ==> (#[trigger] out@[j]).start == Some(lrc(s@)[j].0 as u32)
                    && out@[j].value@ == lrc(s@)[j].1,
        decreases all@.len() - i,
    {
        assert(all@[i as int].0 == lrc(s@)[i as int].0);
        let ghost before = timed_lines(out@);
        let line = LyricLine { start: Some(all[i].0 as u32), value: all[i].1.clone() };
        out.push(line);
        assert(timed_lines(out@) =~= before.push((line.start, line.value@)));
        i += 1;
    }
    assert(served_lines(lrc(s@)).take(i as int) =~= served_lines(lrc(s@)));
    out
}

/// Bytes and a key of the same length, combined.
pub open spec fn xored(enc: Seq<u8>, key: Seq<u8>) -> Seq<char> {
    Seq::new(
        if enc.len() <= key.len() {
            enc.len()
        } else {
            key.len()
        },
        |i: int| (enc[i] ^ key[i]) as char,
    )
}

/// Recovers a text from its bytes and a key.
pub fn two_xor(enc: &[u8], key: &[u8]) -> (r: String)
    ensures
        r@ == xored(enc@, key@),
        r@.len() <= enc@.len() && r@.len() <= key@.len(),
        r@.len() == enc@.len() || r@.len() == key@.len(),
        forall|i: int| 0 <= i < r@.len() ==> #[trigger] r@[i] as u32 == (enc@[i] ^ key@[i]) as u32,
{
    let n: usize = if enc.len() <= key.len() {
        enc.len()
    } else {
        key.len()
    };
    let mut out = String::new();
    let mut i: usize = 0;
    while i < n
        invariant
            i <= n,
            n <= enc@.len(),
            n <= key@.len(),
            n == xored(enc@, key@).len(),
            out@ =~= xored(enc@, key@).take(i as int),
        decreases n - i,
    {
        out.push((enc[i] ^ key[i]) as char);
        i += 1;
    }
    assert(xored(enc@, key@).take(n as int) =~= xored(enc@, key@));
    out
}

pub const ENC_ID: [u8; 8] = [0x9f, 0x99, 0x9d, 0x9f, 0xd3, 0x9d, 0x95, 0x97];

pub const KEY_ID: [u8; 8] = [0xa7, 0xa8, 0xa9, 0xaa, 0xab, 0xac, 0xad, 0xae];

pub const ENC_TOKEN: [u8; 26] = [
    0x5a, 0x47, 0x56, 0x55, 0x2d, 0x38, 0x2a, 0x35, 0x3d, 0x22, 0x34, 0x2c, 0x3a, 0x24, 0x23, 0x20,
    0x2f, 0x7a, 0x24, 0x3c, 0x2a, 0x20, 0x64, 0x35, 0x37, 0x30,
];

pub const KEY_TOKEN: [u8; 26] = [
    0x3c, 0x3d, 0x3e, 0x3f, 0x40, 0x41, 0x42, 0x43, 0x44, 0x45, 0x46, 0x47, 0x48, 0x49, 0x4a, 0x4b,
    0x4c, 0x4d, 0x4e, 0x4f, 0x50, 0x51, 0x52, 0x53, 0x54, 0x55,
];

/// The syllables that hold something. An empty one is a pause.
pub open spec fn spoken(v: Seq<RadiantSyllable>) -> Seq<RadiantSyllable> {
    v.filter(|s: RadiantSyllable| s.text@.len() > 0)
}

/// The bytes of the first `n` syllables.
pub open spec fn bytes_before(v: Seq<RadiantSyllable>, n: int) -> int
    decreases n,
{
    if n <= 0 {
        0
    } else {
        bytes_before(v, n - 1) + encode_utf8(v[n - 1].text@).len()
    }
}

/// A number in 32 bits.
pub open spec fn wrap32(n: int) -> u32 {
    (n % 0x1_0000_0000) as u32
}

/// The larger number that 32 bits can hold of a sum.
pub open spec fn sum32(a: u32, b: u32) -> u32 {
    if a + b <= u32::MAX {
        (a + b) as u32
    } else {
        u32::MAX
    }
}

/// The cue for the syllable at `j`: when it is sung, and which bytes of the line it is.
pub open spec fn is_cue(c: Cue, v: Seq<RadiantSyllable>, j: int) -> bool {
    &&& c.start == v[j].time
    &&& c.end == Some(sum32(v[j].time, v[j].duration))
    &&& c.value == v[j].text
    &&& c.byte_start == wrap32(bytes_before(v, j))
    &&& c.byte_end == wrap32(bytes_before(v, j + 1) - 1)
}

/// The cues of a line, one for each syllable that holds something.
pub open spec fn is_cue_line(c: CueLine, index: int, l: RadiantLine) -> bool {
    &&& c.index == wrap32(index)
    &&& c.start == Some(l.start_time)
    &&& c.end == Some(l.end_time)
    &&& c.value == l.text
    &&& c.agent_id is None
    &&& c.cue@.len() == spoken(l.syllabus@).len()
    &&& forall|j: int| 0 <= j < c.cue@.len() ==> is_cue(#[trigger] c.cue@[j], spoken(l.syllabus@), j)
}

/// Some line has a syllable that holds something.
pub open spec fn has_syllables(data: Seq<RadiantLine>) -> bool {
    exists|i: int| 0 <= i < data.len() && spoken((#[trigger] data[i]).syllabus@).len() > 0
}

proof fn lemma_spoken_empty(v: Seq<RadiantSyllable>)
    ensures
        spoken(v).len() > 0 <==> exists|j: int| 0 <= j < v.len() && (#[trigger] v[j]).text@.len() > 0,
    decreases v.len(),
{
    reveal(Seq::filter);
    if v.len() > 0 {
        let w = v.drop_last();
        lemma_spoken_empty(w);
        if spoken(w).len() > 0 {
            let j = choose|j: int| 0 <= j < w.len() && (#[trigger] w[j]).text@.len() > 0;
            assert(v[j].text@.len() > 0);
        }
        if exists|j: int| 0 <= j < v.len() && (#[trigger] v[j]).text@.len() > 0 {
            let j = choose|j: int| 0 <= j < v.len() && (#[trigger] v[j]).text@.len() > 0;
            if j < w.len() {
                assert(w[j].text@.len() > 0);
            }
        }
    }
}

proof fn lemma_has_syllables(data: Seq<RadiantLine>)
    ensures
        has_syllables(data) <==> exists|i: int, j: int|
            0 <= i < data.len() && 0 <= j < data[i].syllabus@.len()
                && #[trigger] data[i].syllabus@[j].text@.len() > 0,
{
    if has_syllables(data) {
        let i = choose|i: int| 0 <= i < data.len() && spoken((#[trigger] data[i]).syllabus@).len() > 0;
        lemma_spoken_empty(data[i].syllabus@);
        let j = choose|j: int|
            0 <= j < data[i].syllabus@.len() && (#[trigger] data[i].syllabus@[j]).text@.len() > 0;
        assert(data[i].syllabus@[j].text@.len() > 0);
    }
    if exists|i: int, j: int|
        0 <= i < data.len() && 0 <= j < data[i].syllabus@.len()
            && #[trigger] data[i].syllabus@[j].text@.len() > 0 {
        let (i, j) = choose|i: int, j: int|
            0 <= i < data.len() && 0 <= j < data[i].syllabus@.len()
                && #[trigger] data[i].syllabus@[j].text@.len() > 0;
        lemma_spoken_empty(data[i].syllabus@);
        assert(spoken(data[i].syllabus@).len() > 0);
    }
}

/// An empty syllable makes no difference, wherever it stands.
pub proof fn law_empty_syllables_make_no_difference(
    a: Seq<RadiantSyllable>,
    pause: RadiantSyllable,
    b: Seq<RadiantSyllable>,
)
    requires
        pause.text@.len() == 0,
    ensures
        spoken(a + seq![pause] + b) == spoken(a + b),
    decreases b.len(),
{
    reveal(Seq::filter);
    let x = a + seq![pause] + b;
    let y = a + b;
    if b.len() == 0 {
        assert(x.drop_last() =~= a);
        assert(x.last() == pause);
        assert(y =~= a);
    } else {
        law_empty_syllables_make_no_difference(a, pause, b.drop_last());
        assert(x.drop_last() =~= a + seq![pause] + b.drop_last());
        assert(y.drop_last() =~= a + b.drop_last());
        assert(x.last() == y.last());
    }
}

proof fn lemma_spoken_all(v: Seq<RadiantSyllable>)
    requires
        forall|j: int| 0 <= j < v.len() ==> (#[trigger] v[j]).text@.len() > 0,
    ensures
        spoken(v) == v,
    decreases v.len(),
{
    reveal(Seq::filter);
    if v.len() > 0 {
        let w = v.drop_last();
        assert forall|j: int| 0 <= j < w.len() implies (#[trigger] w[j]).text@.len() > 0 by {
            assert(w[j] == v[j]);
        }
        lemma_spoken_all(w);
        assert(v.last() == v[v.len() - 1]);
        assert(w.push(v.last()) =~= v);
    }
}

/// Each syllable has its cue: its words, when it starts, and when it ends, which is its length
/// later.
pub proof fn law_a_cue_for_each_syllable(c: CueLine, index: int, l: RadiantLine, j: int)
    requires
        is_cue_line(c, index, l),
        forall|k: int| 0 <= k < l.syllabus@.len() ==> (#[trigger] l.syllabus@[k]).text@.len() > 0,
        0 <= j < l.syllabus@.len(),
    ensures
        c.cue@.len() == l.syllabus@.len(),
        c.cue@[j].value@ == l.syllabus@[j].text@,
        c.cue@[j].start == l.syllabus@[j].time,
        l.syllabus@[j].time + l.syllabus@[j].duration <= u32::MAX ==> c.cue@[j].end == Some(
            (l.syllabus@[j].time + l.syllabus@[j].duration) as u32,
        ),
        l.syllabus@[j].time + l.syllabus@[j].duration > u32::MAX ==> c.cue@[j].end == Some(
            u32::MAX,
        ),
        0 <= index <= u32::MAX ==> c.index == index,
        c.value@ == l.text@,
        c.start == Some(l.start_time),
        c.end == Some(l.end_time),
{
    lemma_spoken_all(l.syllabus@);
    assert(is_cue(c.cue@[j], spoken(l.syllabus@), j));
}

/// Lyrics as they are served. Plain text has no times; lines without syllables have no cues.
pub open spec fn is_structured(
    r: StructuredLyrics,
    radiant: RadiantLyrics,
    artist: Seq<char>,
    title: Seq<char>,
) -> bool {
    let data = radiant.data@;
    let plain = radiant.kind@ == "None"@;
    &&& r.display_artist@ == artist
    &&& r.display_title@ == title
    &&& r.lang@.len() == 0
    &&& r.offset == 0
    &&& r.synced == !plain
    &&& r.kind matches Some(k) && k@ == "main"@
    &&& r.agents is None
    &&& r.line@.len() == data.len()
    &&& forall|i: int|
        0 <= i < data.len() ==> (#[trigger] r.line@[i]).value == data[i].text && r.line@[i].start
            == (if plain {
            None
        } else {
            Some(data[i].start_time)
        })
    &&& if plain || !has_syllables(data) {
        r.cue_line is None
    } else {
        &&& r.cue_line is Some
        &&& r.cue_line->0@.len() == data.len()
        &&& forall|i: int|
            0 <= i < data.len() ==> is_cue_line(#[trigger] r.cue_line->0@[i], i, data[i])
    }
}

proof fn lemma_spoken_step(v: Seq<RadiantSyllable>, n: int)
    requires
        0 <= n < v.len(),
    ensures
        spoken(v.take(n + 1)) == (if v[n].text@.len() > 0 {
            spoken(v.take(n)).push(v[n])
        } else {
            spoken(v.take(n))
        }),
{
    reveal(Seq::filter);
    assert(v.take(n + 1).drop_last() =~= v.take(n));
}

proof fn lemma_bytes_before_prefix(v: Seq<RadiantSyllable>, w: Seq<RadiantSyllable>, n: int)
    requires
        0 <= n <= v.len(),
        n <= w.len(),
        forall|i: int| 0 <= i < n ==> v[i] == w[i],
    ensures
        bytes_before(v, n) == bytes_before(w, n),
        bytes_before(v, n) >= 0,
    decreases n,
{
    if n > 0 {
        lemma_bytes_before_prefix(v, w, n - 1);
    }
}

proof fn lemma_spoken_nonempty(c: Seq<char>)
    requires
        c.len() > 0,
    ensures
        encode_utf8(c).len() > 0,
{
}

/// The cues of a line.
fn line_cues(v: &Vec<RadiantSyllable>) -> (r: Vec<Cue>)
    ensures
        r@.len() == spoken(v@).len(),
        forall|j: int| 0 <= j < r@.len() ==> is_cue(#[trigger] r@[j], spoken(v@), j),
{
    let mut out: Vec<Cue> = Vec::new();
    let mut cursor: u128 = 0;
    let mut i: usize = 0;
    proof {
        reveal(Seq::filter);
        assert(v@.take(0) =~= Seq::empty());
    }
    while i < v.len()
        invariant
            i <= v@.len(),
            out@.len() == spoken(v@.take(i as int)).len(),
            cursor == bytes_before(spoken(v@.take(i as int)), out@.len() as int),
            cursor <= i * 0xffff_ffff_ffff_ffff,
            forall|j: int|
                0 <= j < out@.len() ==> is_cue(#[trigger] out@[j], spoken(v@.take(i as int)), j),
        decreases v@.len() - i,
    {
        let s = &v[i];
        let ghost before = spoken(v@.take(i as int));
        let ghost after = spoken(v@.take(i + 1));
        let ghost n = out@.len() as int;
        proof {
            lemma_spoken_step(v@, i as int);
        }
        assert((i + 1) * 0xffff_ffff_ffff_ffff == i * 0xffff_ffff_ffff_ffff
            + 0xffff_ffff_ffff_ffff) by (nonlinear_arith);
        if s.text.as_str().unicode_len() > 0 {
            let len: usize = s.text.as_str().as_bytes().len();
            let ghost old_out = out@;
            proof {
                lemma_spoken_nonempty(s.text@);
                lemma_bytes_before_prefix(after, before, n);
                assert(i * 0xffff_ffff_ffff_ffff + 0xffff_ffff_ffff_ffff <= u128::MAX)
                    by (nonlinear_arith)
                    requires
                        i <= 0xffff_ffff_ffff_ffff,
                ;
            }
            let end: u32 = if s.duration <= u32::MAX - s.time {
                s.time + s.duration
            } else {
                u32::MAX
            };
            let next: u128 = cursor + len as u128;
            out.push(
                Cue {
                    start: s.time,
                    end: Some(end),
                    value: s.text.clone(),
                    byte_start: (cursor % 0x1_0000_0000) as u32,
                    byte_end: ((next - 1) % 0x1_0000_0000) as u32,
                },
            );
            proof {
                assert(bytes_before(after, n + 1) == next);
                assert forall|j: int| 0 <= j < out@.len() implies is_cue(
                    #[trigger] out@[j],
                    after,
                    j,
                ) by {
                    if j < n {
                        assert(out@[j] == old_out[j]);
                        assert(is_cue(old_out[j], before, j));
                        lemma_bytes_before_prefix(after, before, j);
                        lemma_bytes_before_prefix(after, before, j + 1);
                    }
                }
            }
            cursor = next;
        }
        i += 1;
    }
    assert(v@.take(v@.len() as int) =~= v@);
    out
}

/// Turns the lyrics of the service into those that are served: each line with its time, and each
/// syllable with its time and with the bytes of the line that it is.
pub fn radiant_to_structured(
    radiant: RadiantLyrics,
    display_artist: &str,
    display_title: &str,
) -> (r: StructuredLyrics)
    ensures
        is_structured(r, radiant, display_artist@, display_title@),
        r.display_artist@ == display_artist@,
        r.display_title@ == display_title@,
        r.synced == (radiant.kind@ != "None"@),
        r.line@.len() == radiant.data@.len(),
        forall|i: int|
            0 <= i < radiant.data@.len() ==> (#[trigger] r.line@[i]).value@
                == radiant.data@[i].text@ && r.line@[i].start == (if r.synced {
                Some(radiant.data@[i].start_time)
            } else {
                None
            }),
        r.cue_line is Some <==> r.synced && exists|i: int, j: int|
            0 <= i < radiant.data@.len() && 0 <= j < radiant.data@[i].syllabus@.len()
                && #[trigger] radiant.data@[i].syllabus@[j].text@.len() > 0,
        r.cue_line is Some ==> r.cue_line->0@.len() == radiant.data@.len(),
        r.cue_line is Some ==> forall|i: int|
            0 <= i < radiant.data@.len() ==> {
                let c = #[trigger] r.cue_line->0@[i];
                &&& c.start == Some(radiant.data@[i].start_time)
                &&& c.end == Some(radiant.data@[i].end_time)
                &&& c.value@ == radiant.data@[i].text@
            },
{
    let plain = text::same(radiant.kind.as_str(), "None");
    let mut line: Vec<LyricLine> = Vec::new();
    let mut cue_line: Vec<CueLine> = Vec::new();
    let mut any = false;
    let mut i: usize = 0;
    while i < radiant.data.len()
        invariant
            i <= radiant.data@.len(),
            plain == (radiant.kind@ == "None"@),
            line@.len() == i,
            cue_line@.len() == i,
            any == exists|k: int|
                0 <= k < i && spoken((#[trigger] radiant.data@[k]).syllabus@).len() > 0,
            forall|k: int|
                0 <= k < i ==> (#[trigger] line@[k]).value == radiant.data@[k].text && line@[k].start
                    == (if plain {
                    None
                } else {
                    Some(radiant.data@[k].start_time)
                }),
            forall|k: int|
                0 <= k < i ==> is_cue_line(#[trigger] cue_line@[k], k, radiant.data@[k]),
        decreases radiant.data@.len() - i,
    {
        let l = &radiant.data[i];
        line.push(
            LyricLine {
                start: if plain {
                    None
                } else {
                    Some(l.start_time)
                },
                value: l.text.clone(),
            },
        );
        let cue = line_cues(&l.syllabus);
        let ghost any_before = any;
        if cue.len() > 0 {
            any = true;
        }
        proof {
            assert(spoken(radiant.data@[i as int].syllabus@).len() == cue@.len());
            if any_before {
                let k = choose|k: int|
                    0 <= k < i && spoken((#[trigger] radiant.data@[k]).syllabus@).len() > 0;
                assert(0 <= k < i + 1 && spoken(radiant.data@[k].syllabus@).len() > 0);
            }
        }
        cue_line.push(
            CueLine {
                index: (i as u64 % 0x1_0000_0000) as u32,
                start: Some(l.start_time),
                end: Some(l.end_time),
                value: l.text.clone(),
                agent_id: None,
                cue,
            },
        );
        i += 1;
    }
    proof {
        lemma_has_syllables(radiant.data@);
    }
    StructuredLyrics {
        display_artist: display_artist.to_owned(),
        display_title: display_title.to_owned(),
        lang: String::new(),
        offset: 0,
        synced: !plain,
        kind: Some("main"),
        line,
        cue_line: if any && !plain {
            Some(cue_line)
        } else {
            None
        },
        agents: None,
    }
}

/// The texts of the first `n` syllables in a row.
pub open spec fn sung(v: Seq<RadiantSyllable>, n: int) -> Seq<char>
    decreases n,
{
    if n <= 0 {
        Seq::empty()
    } else {
        sung(v, n - 1) + v[n - 1].text@
    }
}

proof fn lemma_encode_join(a: Seq<char>, b: Seq<char>)
    ensures
        encode_utf8(a + b) == encode_utf8(a) + encode_utf8(b),
    decreases a.len(),
{
    if a.len() == 0 {
        assert(a + b =~= b);
        assert(encode_utf8(a) + encode_utf8(b) =~= encode_utf8(b));
    } else {
        lemma_encode_join(a.drop_first(), b);
        assert((a + b).drop_first() =~= a.drop_first() + b);
        assert((a + b)[0] == a[0]);
        assert(encode_utf8(a + b) =~= encode_utf8(a) + encode_utf8(b));
    }
}

proof fn lemma_sung_bytes(v: Seq<RadiantSyllable>, n: int)
    requires
        0 <= n <= v.len(),
    ensures
        encode_utf8(sung(v, n)).len() == bytes_before(v, n),
    decreases n,
{
    if n > 0 {
        lemma_sung_bytes(v, n - 1);
        lemma_encode_join(sung(v, n - 1), v[n - 1].text@);
    }
}

proof fn lemma_sung_prefix(v: Seq<RadiantSyllable>, m: int, n: int) -> (rest: Seq<char>)
    requires
        0 <= m <= n <= v.len(),
    ensures
        sung(v, n) == sung(v, m) + rest,
    decreases n - m,
{
    if m == n {
        assert(sung(v, n) =~= sung(v, m) + Seq::empty());
        Seq::empty()
    } else {
        let r = lemma_sung_prefix(v, m, n - 1);
        assert(sung(v, n) =~= sung(v, m) + (r + v[n - 1].text@));
        r + v[n - 1].text@
    }
}

proof fn lemma_middle(a: Seq<u8>, b: Seq<u8>, c: Seq<u8>)
    ensures
        (a + b + c).subrange(a.len() as int, (a.len() + b.len()) as int) == b,
{
    assert((a + b + c).subrange(a.len() as int, (a.len() + b.len()) as int) =~= b);
}

/// Where the bytes of a syllable lie among those of all.
proof fn lemma_syllable_bytes(v: Seq<RadiantSyllable>, j: int)
    requires
        0 <= j < v.len(),
    ensures
        ({
            let line = encode_utf8(sung(v, v.len() as int));
            &&& 0 <= bytes_before(v, j)
            &&& bytes_before(v, j + 1) <= line.len()
            &&& line.subrange(bytes_before(v, j), bytes_before(v, j + 1)) == encode_utf8(
                v[j].text@,
            )
            &&& bytes_before(v, v.len() as int) == line.len()
        }),
{
    let n = v.len() as int;
    lemma_sung_bytes(v, j);
    lemma_sung_bytes(v, n);
    let rest = lemma_sung_prefix(v, j + 1, n);
    lemma_encode_join(sung(v, j + 1), rest);
    lemma_encode_join(sung(v, j), v[j].text@);
    assert(sung(v, j + 1) == sung(v, j) + v[j].text@);
    assert(bytes_before(v, j + 1) == bytes_before(v, j) + encode_utf8(v[j].text@).len());
    lemma_middle(encode_utf8(sung(v, j)), encode_utf8(v[j].text@), encode_utf8(rest));
}

proof fn lemma_wrap32(n: int)
    requires
        0 <= n <= u32::MAX,
    ensures
        wrap32(n) == n,
{
}

/// The bytes that a cue names are those of its syllable, where the syllables in a row make up
/// the line. And the cues follow one another without a gap, from the first byte of the line to
/// the last.
pub proof fn law_cues_land_on_their_syllables(c: CueLine, index: int, l: RadiantLine, j: int)
    requires
        is_cue_line(c, index, l),
        ({
            let v = spoken(l.syllabus@);
            &&& sung(v, v.len() as int) == l.text@
            &&& encode_utf8(l.text@).len() <= u32::MAX
            &&& 0 <= j < v.len()
        }),
    ensures
        0 <= c.cue@[j].byte_start <= c.cue@[j].byte_end < encode_utf8(l.text@).len(),
        encode_utf8(l.text@).subrange(c.cue@[j].byte_start as int, c.cue@[j].byte_end + 1)
            == encode_utf8(c.cue@[j].value@),
        j == 0 ==> c.cue@[j].byte_start == 0,
        j + 1 < spoken(l.syllabus@).len() ==> c.cue@[j + 1].byte_start == c.cue@[j].byte_end + 1,
        j + 1 == spoken(l.syllabus@).len() ==> c.cue@[j].byte_end + 1 == encode_utf8(
            l.text@,
        ).len(),
{
    let v = spoken(l.syllabus@);
    let n = v.len() as int;
    assert(is_cue(c.cue@[j], v, j));
    assert(v[j].text@.len() > 0) by {
        let keep = |s: RadiantSyllable| s.text@.len() > 0;
        l.syllabus@.lemma_filter_pred(keep, j);
    }
    lemma_spoken_nonempty(v[j].text@);
    lemma_syllable_bytes(v, j);
    assert(bytes_before(v, j + 1) == bytes_before(v, j) + encode_utf8(v[j].text@).len());
    lemma_wrap32(bytes_before(v, j));
    lemma_wrap32(bytes_before(v, j + 1) - 1);
    if j + 1 < n {
        assert(is_cue(c.cue@[j + 1], v, j + 1));
        lemma_syllable_bytes(v, j + 1);
        assert(bytes_before(v, j + 1) <= bytes_before(v, j + 2));
        lemma_wrap32(bytes_before(v, j + 1));
    }
}

/// What the service of timed lyrics is told of a track.
#[derive(Debug)]
pub struct TrackFacts {
    pub title: String,
    /// The name of the artist, where the track has one.
    pub artist: Option<String>,
    /// The names of all artists.
    pub artists: Vec<String>,
    pub isrc: Option<String>,
    pub duration: Option<u64>,
    pub album: Option<String>,
}

/// The names of the artists in a list.
pub open spec fn names_in(v: Seq<Json>) -> Seq<Seq<char>>
    decreases v.len(),
{
    if v.len() == 0 {
        Seq::empty()
    } else {
        match string(field(v.last(), "name"@)) {
            Some(n) => names_in(v.drop_last()).push(n),
            None => names_in(v.drop_last()),
        }
    }
}

/// Reads the names of the artists in a list.
fn read_names(v: &Vec<Json>) -> (r: Vec<String>)
    ensures
        texts(r@) == names_in(v@),
{
    let mut out: Vec<String> = Vec::new();
    let mut i: usize = 0;
    assert(texts(out@) =~= names_in(v@.take(0)));
    while i < v.len()
        invariant
            i <= v@.len(),
            texts(out@) == names_in(v@.take(i as int)),
        decreases v@.len() - i,
    {
        assert(v@.take(i + 1).drop_last() =~= v@.take(i as int));
        assert(v@.take(i + 1).last() == v@[i as int]);
        let ghost before = out@;
        if let Some(n) = json::as_str(v[i].get("name")) {
            out.push(n.to_owned());
            assert(texts(out@) =~= texts(before).push(n@));
        }
        i += 1;
    }
    assert(v@.take(v@.len() as int) =~= v@);
    out
}

/// What a track says of itself.
pub open spec fn is_facts(t: TrackFacts, track: Json) -> bool {
    &&& t.title@ == (match string(field(track, "title"@)) {
        Some(s) => s,
        None => Seq::empty(),
    })
    &&& text::opt_text(t.artist) == string(field2(track, "artist"@, "name"@))
    &&& texts(t.artists@) == names_in(items(field(track, "artists"@)))
    &&& text::opt_text(t.isrc) == string(field(track, "isrc"@))
    &&& t.duration == number(field(track, "duration"@))
    &&& text::opt_text(t.album) == string(field2(track, "album"@, "title"@))
}

/// A text in a document as a text of its own.
fn owned(s: Option<&str>) -> (r: Option<String>)
    ensures
        text::opt_text(r) == text::opt_view(s),
{
    match s {
        Some(t) => Some(t.to_owned()),
        None => None,
    }
}

/// Reads what a track says of itself.
pub fn track_facts(track: &Json) -> (r: TrackFacts)
    ensures
        is_facts(r, *track),
        r.title@ == (match string(field(*track, "title"@)) {
            Some(t) => t,
            None => Seq::empty(),
        }),
        text::opt_text(r.artist) == string(field2(*track, "artist"@, "name"@)),
        texts(r.artists@) == names_in(items(field(*track, "artists"@))),
        text::opt_text(r.isrc) == string(field(*track, "isrc"@)),
        r.duration == number(field(*track, "duration"@)),
        text::opt_text(r.album) == string(field2(*track, "album"@, "title"@)),
{
    let artists = match track.get("artists") {
        Some(Json::Array(v)) => read_names(v),
        _ => {
            let none: Vec<String> = Vec::new();
            assert(texts(none@) =~= names_in(Seq::empty()));
            none
        },
    };
    TrackFacts {
        title: match json::as_str(track.get("title")) {
            Some(s) => s.to_owned(),
            None => String::new(),
        },
        artist: owned(json::as_str(track.get2("artist", "name"))),
        artists,
        isrc: owned(json::as_str(track.get("isrc"))),
        duration: json::as_u64(track.get("duration")),
        album: owned(json::as_str(track.get2("album", "title"))),
    }
}

/// The artist of a track: the one it has, and otherwise the first of all; none is empty.
pub open spec fn artist_name_of(t: TrackFacts) -> Seq<char> {
    match t.artist {
        Some(a) => a@,
        None => if t.artists@.len() > 0 {
            t.artists@[0]@
        } else {
            Seq::empty()
        },
    }
}

/// The artist of a track.
pub fn artist_name(t: &TrackFacts) -> (r: String)
    ensures
        r@ == artist_name_of(*t),
        t.artist is Some ==> r@ == t.artist->0@,
        t.artist is None && t.artists@.len() > 0 ==> r@ == t.artists@[0]@,
        t.artist is None && t.artists@.len() == 0 ==> r@.len() == 0,
{
    match &t.artist {
        Some(a) => a.clone(),
        None => if t.artists.len() > 0 {
            t.artists[0].clone()
        } else {
            String::new()
        },
    }
}

/// What is sent to the service of timed lyrics: the platform and the title, then what else is
/// known.
pub open spec fn lyrics_query(t: TrackFacts) -> Seq<(Seq<char>, Seq<char>)> {
    let a = seq![("platform"@, "subtidal"@), ("title"@, t.title@)];
    let b = if artist_name_of(t).len() > 0 {
        a.push(("artist"@, artist_name_of(t)))
    } else {
        a
    };
    let c = match t.isrc {
        Some(x) => b.push(("isrc"@, x@)),
        None => b,
    };
    let d = match t.duration {
        Some(n) => c.push(("duration"@, text::decimal(n as nat))),
        None => c,
    };
    match t.album {
        Some(x) => d.push(("album"@, x@)),
        None => d,
    }
}

/// Each fact of a track is sent under its own name, and what is not known is not sent.
pub proof fn law_each_fact_is_sent_under_its_name(t: TrackFacts)
    ensures
        ({
            let q = lyrics_query(t);
            &&& q.contains(("platform"@, "subtidal"@))
            &&& q.contains(("title"@, t.title@))
            &&& artist_name_of(t).len() > 0 ==> q.contains(("artist"@, artist_name_of(t)))
            &&& t.isrc is Some ==> q.contains(("isrc"@, t.isrc->0@))
            &&& t.duration is Some ==> q.contains(("duration"@, text::decimal(t.duration->0 as nat)))
            &&& t.album is Some ==> q.contains(("album"@, t.album->0@))
            &&& q.len() == 2 + (if artist_name_of(t).len() > 0 {
                1int
            } else {
                0
            }) + (if t.isrc is Some {
                1int
            } else {
                0
            }) + (if t.duration is Some {
                1int
            } else {
                0
            }) + (if t.album is Some {
                1int
            } else {
                0
            })
        }),
{
    let a = seq![("platform"@, "subtidal"@), ("title"@, t.title@)];
    assert(a[0] == ("platform"@, "subtidal"@) && a[1] == ("title"@, t.title@));
    let b = if artist_name_of(t).len() > 0 {
        a.push(("artist"@, artist_name_of(t)))
    } else {
        a
    };
    let c = match t.isrc {
        Some(x) => b.push(("isrc"@, x@)),
        None => b,
    };
    let d = match t.duration {
        Some(n) => c.push(("duration"@, text::decimal(n as nat))),
        None => c,
    };
    let q = lyrics_query(t);
    assert(q[0] == a[0] && q[1] == a[1]);
    if artist_name_of(t).len() > 0 {
        assert(q[2] == ("artist"@, artist_name_of(t)));
    }
    if t.isrc is Some {
        assert(q[b.len() as int] == ("isrc"@, t.isrc->0@));
    }
    if t.duration is Some {
        assert(q[c.len() as int] == ("duration"@, text::decimal(t.duration->0 as nat)));
    }
    if t.album is Some {
        assert(q[d.len() as int] == ("album"@, t.album->0@));
    }
}

/// Puts together what is sent to the service of timed lyrics.
pub fn radiant_params(t: &TrackFacts) -> (r: Vec<(String, String)>)
    ensures
        crate::handlers::pairs(r@) == lyrics_query(*t),
{
    let mut params: Vec<(String, String)> = Vec::new();
    crate::handlers::put(&mut params, "platform", "subtidal");
    crate::handlers::put(&mut params, "title", t.title.as_str());
    assert(crate::handlers::pairs(params@) =~= seq![
        ("platform"@, "subtidal"@),
        ("title"@, t.title@),
    ]);
    let artist = artist_name(t);
    if artist.as_str().unicode_len() > 0 {
        crate::handlers::put(&mut params, "artist", artist.as_str());
    }
    if let Some(x) = &t.isrc {
        crate::handlers::put(&mut params, "isrc", x.as_str());
    }
    if let Some(n) = t.duration {
        crate::handlers::put(&mut params, "duration", text::decimal_text(n).as_str());
    }
    if let Some(x) = &t.album {
        crate::handlers::put(&mut params, "album", x.as_str());
    }
    params
}

/// Takes the body of a reply of the service where its status says that it worked.
pub fn radiant_reply(status: u16, body: String) -> (r: Result<String, Error>)
    ensures
        match r {
            Ok(b) => 200 <= status <= 299 && b == body,
            Err(e) => !(200 <= status <= 299) && (e matches Error::Tidal(s, m) && s == status && m@
                == "radiant lyrics lookup failed: "@ + body@),
        },
{
    if 200 <= status && status <= 299 {
        Ok(body)
    } else {
        Err(Error::Tidal(status, text::join2("radiant lyrics lookup failed: ", body.as_str())))
    }
}

/// What is kept of a lookup: the lyrics, or that there are none; a failure is not kept, so that
/// it is tried again.
pub fn lookup_to_keep(result: Result<StructuredLyrics, Error>) -> (r: Option<
    Option<StructuredLyrics>,
>)
    ensures
        r == (match result {
            Ok(l) => Some(Some(l)),
            Err(Error::Tidal(status, _)) => if status == 404 {
                Some(None)
            } else {
                None
            },
            Err(_) => None,
        }),
{
    match result {
        Ok(l) => Some(Some(l)),
        Err(Error::Tidal(status, _)) => if status == 404 {
            Some(None)
        } else {
            None
        },
        Err(_) => None,
    }
}

/// What a request does that waits for a lookup.
#[derive(Debug)]
pub enum LookupWait {
    /// The lookup found lyrics, which are kept.
    Found,
    Fail(Error),
    /// Start the lookup, then look again.
    Start,
    /// Look again in a moment.
    Again,
}

/// What a request does that waits for a lookup, when it comes (`first`) and each time that it
/// looks again.
pub open spec fn is_wait(
    r: LookupWait,
    kept: Option<bool>,
    first: bool,
    in_flight: bool,
    time_over: bool,
) -> bool {
    match kept {
        Some(true) => r is Found,
        Some(false) => r matches LookupWait::Fail(Error::Tidal(s, m)) && s == 404 && m@ == (
        if first {
            "no radiant lyrics for track (cached)"@
        } else {
            "no radiant lyrics for track"@
        }),
        None => if first {
            r == (if in_flight {
                LookupWait::Again
            } else {
                LookupWait::Start
            })
        } else if !in_flight {
            r matches LookupWait::Fail(Error::Tidal(s, m)) && s == 502 && m@
                == "radiant lyrics lookup failed"@
        } else if time_over {
            r matches LookupWait::Fail(Error::Tidal(s, m)) && s == 504 && m@
                == "radiant lyrics lookup still running after 60s; will serve from cache next time"@
        } else {
            r is Again
        },
    }
}

/// Decides what a request does that waits for a lookup: `kept` says whether an answer is kept
/// and whether it holds lyrics. A request that comes starts the lookup unless one is under way.
/// A lookup that ended without an answer failed, and one that takes too long is left to run on.
pub fn fetch_radiant_lyrics(kept: Option<bool>, first: bool, in_flight: bool, time_over: bool) -> (r:
    LookupWait)
    ensures
        is_wait(r, kept, first, in_flight, time_over),
        kept == Some(true) ==> r is Found,
        kept is None && first && in_flight ==> r is Again,
        kept is None && first && !in_flight ==> r is Start,
        kept is None && !first && in_flight && !time_over ==> r is Again,
        kept == Some(false) ==> (r matches LookupWait::Fail(Error::Tidal(s, _)) && s == 404),
        kept is None && !first && !in_flight ==> (r matches LookupWait::Fail(Error::Tidal(s, _)) && s
            == 502),
        kept is None && !first && in_flight && time_over ==> (r matches LookupWait::Fail(
            Error::Tidal(s, _),
        ) && s == 504),
{
    match kept {
        Some(true) => LookupWait::Found,
        Some(false) => if first {
            LookupWait::Fail(Error::Tidal(404, "no radiant lyrics for track (cached)".to_owned()))
        } else {
            LookupWait::Fail(Error::Tidal(404, "no radiant lyrics for track".to_owned()))
        },
        None => if first {
            if in_flight {
                LookupWait::Again
            } else {
                LookupWait::Start
            }
        } else if !in_flight {
            LookupWait::Fail(Error::Tidal(502, "radiant lyrics lookup failed".to_owned()))
        } else if time_over {
            LookupWait::Fail(
                Error::Tidal(
                    504,
                    "radiant lyrics lookup still running after 60s; will serve from cache next time".to_owned(),
                ),
            )
        } else {
            LookupWait::Again
        },
    }
}

/// The plain text in a reply of the catalogue with lyrics.
pub open spec fn plain_lyrics(v: Json) -> Seq<char> {
    trimmed(
        match string(field(v, "lyrics"@)) {
            Some(s) => s,
            None => Seq::empty(),
        },
    )
}

/// The subtitle track in a reply of the catalogue with lyrics.
pub open spec fn subtitles_of(v: Json) -> Seq<char> {
    match string(field(v, "subtitles"@)) {
        Some(s) => s,
        None => Seq::empty(),
    }
}

/// The plain text is that under `lyrics`, without white space at its ends; the subtitle track is
/// that under `subtitles`, as it is.
pub proof fn law_words_and_subtitles_are_kept_apart(v: Json)
    ensures
        string(field(v, "lyrics"@)) is Some ==> plain_lyrics(v) == trimmed(
            string(field(v, "lyrics"@))->0,
        ),
        string(field(v, "lyrics"@)) is None ==> plain_lyrics(v).len() == 0,
        string(field(v, "subtitles"@)) is Some ==> subtitles_of(v) == string(
            field(v, "subtitles"@),
        )->0,
        string(field(v, "subtitles"@)) is None ==> subtitles_of(v).len() == 0,
{
    text::law_trimming_keeps_the_core(Seq::empty(), Seq::empty(), Seq::empty());
}

/// Lyrics without names, cues and agents, with these lines.
pub open spec fn bare_lyrics(
    r: StructuredLyrics,
    synced: bool,
    lines: Seq<(Option<u32>, Seq<char>)>,
) -> bool {
    &&& r.display_artist@.len() == 0
    &&& r.display_title@.len() == 0
    &&& r.lang@.len() == 0
    &&& r.offset == 0
    &&& r.synced == synced
    &&& r.kind is None
    &&& timed_lines(r.line@) == lines
    &&& r.cue_line is None
    &&& r.agents is None
}

/// The lyrics of the catalogue: the subtitle track where it has timed lines, and otherwise the
/// plain text as one line. That there are none is an error of its own.
pub fn fetch_tidal_lyrics(value: Result<&Json, Error>) -> (r: Result<StructuredLyrics, Error>)
    requires
        value is Ok ==> lrc_fits(subtitles_of(*value->Ok_0)),
    ensures
        match value {
            Ok(v) => r matches Ok(l) && (if lrc(subtitles_of(*v)).len() > 0 {
                bare_lyrics(l, true, served_lines(lrc(subtitles_of(*v))))
            } else {
                bare_lyrics(l, false, seq![(None, plain_lyrics(*v))])
            }),
            Err(Error::Tidal(404, _)) => r matches Err(Error::Tidal(s, m)) && s == 404 && m@
                == "no tidal lyrics for track"@,
            Err(e) => r == Err::<StructuredLyrics, Error>(e),
        },
        value is Ok ==> r is Ok && ({
            let timed = lrc(subtitles_of(*value->Ok_0));
            let l = r->Ok_0;
            &&& l.synced == (timed.len() > 0)
            &&& l.cue_line is None
            &&& l.synced ==> l.line@.len() == timed.len() && forall|i: int|
                0 <= i < timed.len() ==> (#[trigger] l.line@[i]).start == Some(timed[i].0 as u32)
                    && l.line@[i].value@ == timed[i].1
            &&& !l.synced ==> l.line@.len() == 1 && l.line@[0].start is None && l.line@[0].value@
                == plain_lyrics(*value->Ok_0)
        }),
{
    let v = match value {
        Ok(v) => v,
        Err(Error::Tidal(status, message)) => {
            if status == 404 {
                return Err(Error::Tidal(404, "no tidal lyrics for track".to_owned()));
            }
            return Err(Error::Tidal(status, message));
        },
        Err(e) => {
            return Err(e);
        },
    };
    proof {
        reveal_strlit("");
        assert(""@ =~= Seq::empty());
    }
    let subtitles = match json::as_str(v.get("subtitles")) {
        Some(s) => s,
        None => "",
    };
    let lines = parse_lrc(subtitles);
    assert(timed_lines(lines@).len() == lines@.len());
    if lines.len() > 0 {
        return Ok(
            StructuredLyrics {
                display_artist: String::new(),
                display_title: String::new(),
                lang: String::new(),
                offset: 0,
                synced: true,
                kind: None,
                line: lines,
                cue_line: None,
                agents: None,
            },
        );
    }
    let plain = match json::as_str(v.get("lyrics")) {
        Some(s) => text::trim(s),
        None => text::trim(""),
    };
    let mut line: Vec<LyricLine> = Vec::new();
    line.push(LyricLine { start: None, value: plain.to_owned() });
    assert(timed_lines(line@) =~= seq![(None::<u32>, plain_lyrics(*v))]);
    Ok(
        StructuredLyrics {
            display_artist: String::new(),
            display_title: String::new(),
            lang: String::new(),
            offset: 0,
            synced: false,
            kind: None,
            line,
            cue_line: None,
            agents: None,
        },
    )
}

/// What comes after the service of timed lyrics was asked.
#[derive(Debug)]
pub enum AfterLookup {
    Serve(StructuredLyrics),
    /// Ask the catalogue; these are served where it has none that are timed.
    AskTidal(Option<StructuredLyrics>),
}

/// Serves timed lyrics, and asks the catalogue where they are not timed or there are none.
pub fn after_lookup(found: Result<StructuredLyrics, Error>) -> (r: AfterLookup)
    ensures
        r == (match found {
            Ok(l) => if l.synced {
                AfterLookup::Serve(l)
            } else {
                AfterLookup::AskTidal(Some(l))
            },
            Err(_) => AfterLookup::AskTidal(None),
        }),
{
    match found {
        Ok(l) => if l.synced {
            AfterLookup::Serve(l)
        } else {
            AfterLookup::AskTidal(Some(l))
        },
        Err(_) => AfterLookup::AskTidal(None),
    }
}

/// Picks the lyrics to serve once the catalogue was asked: plain text that is at hand gives way
/// to timed lyrics only.
pub fn get_lyrics_by_song_id(
    plain: Option<StructuredLyrics>,
    tidal: Result<StructuredLyrics, Error>,
) -> (r: Result<StructuredLyrics, Error>)
    ensures
        r == (match plain {
            Some(p) => match tidal {
                Ok(t) => if t.synced {
                    Ok(t)
                } else {
                    Ok(p)
                },
                Err(_) => Ok(p),
            },
            None => tidal,
        }),
{
    match plain {
        Some(p) => match tidal {
            Ok(t) => if t.synced {
                Ok(t)
            } else {
                Ok(p)
            },
            Err(_) => Ok(p),
        },
        None => tidal,
    }
}

/// The reply with the plain text of a song.
pub fn lyrics_reply(artist: &str, title: &str, value: &str) -> (r: LyricsResponse)
    ensures
        r.lyrics.artist@ == artist@,
        r.lyrics.title@ == title@,
        r.lyrics.value@ == value@,
{
    LyricsResponse {
        lyrics: Lyrics {
            artist: artist.to_owned(),
            title: title.to_owned(),
            value: value.to_owned(),
        },
    }
}

/// The artist, the title and what to search for, of a request for the lyrics of a song.
pub fn get_lyrics(q: &QueryParams) -> (r: Result<(String, String, String), Failure>)
    ensures
        match (q.artist, q.title) {
            (Some(a), Some(t)) => r matches Ok((x, y, s)) && x == a && y == t && s@ == a@ + " "@
                + t@,
            _ => r matches Err(f) && is_missing(f),
        },
{
    match (&q.artist, &q.title) {
        (Some(a), Some(t)) => Ok(
            (a.clone(), t.clone(), text::join3(a.as_str(), " ", t.as_str())),
        ),
        _ => Err(missing()),
    }
}

/// The plain text of the lyrics of a song; none where the catalogue has none.
pub fn plain_text(value: Result<&Json, Error>) -> (r: Result<String, Error>)
    ensures
        match value {
            Ok(v) => r matches Ok(s) && s@ == plain_lyrics(*v),
            Err(Error::Tidal(404, _)) => r matches Ok(s) && s@.len() == 0,
            Err(e) => r == Err::<String, Error>(e),
        },
{
    match value {
        Ok(v) => {
            proof {
                reveal_strlit("");
                assert(""@ =~= Seq::empty());
            }
            let words = match json::as_str(v.get("lyrics")) {
                Some(s) => text::trim(s),
                None => text::trim(""),
            };
            Ok(words.to_owned())
        },
        Err(Error::Tidal(status, message)) => if status == 404 {
            Ok(String::new())
        } else {
            Err(Error::Tidal(status, message))
        },
        Err(e) => Err(e),
    }
}

/// The names of artists are those of each part of the list in a row; one without a name gives none.
pub proof fn law_names_are_read_in_order(a: Seq<Json>, b: Seq<Json>, e: Json)
    ensures
        names_in(a + b) == names_in(a) + names_in(b),
        names_in(Seq::empty()).len() == 0,
        string(field(e, "name"@)) is Some ==> names_in(seq![e]) == seq![
            string(field(e, "name"@))->0,
        ],
        string(field(e, "name"@)) is None ==> names_in(seq![e]).len() == 0,
    decreases b.len(),
{
    assert(seq![e].drop_last() =~= Seq::<Json>::empty());
    assert(names_in(Seq::<Json>::empty()) =~= Seq::empty());
    if string(field(e, "name"@)) is Some {
        assert(names_in(seq![e]) =~= seq![string(field(e, "name"@))->0]);
    }
    if b.len() == 0 {
        assert(a + b =~= a);
        assert(names_in(a) + names_in(b) =~= names_in(a));
    } else {
        law_names_are_read_in_order(a, b.drop_last(), e);
        assert((a + b).drop_last() =~= a + b.drop_last());
        assert((a + b).last() == b.last());
        assert(names_in(a + b) =~= names_in(a) + names_in(b));
    }
}

/// A tag is a time only where digits stand before its first colon and seconds behind it.
pub proof fn law_other_tags_are_no_times(before: Seq<char>, behind: Seq<char>)
    requires
        !before.contains(':'),
    ensures
        timestamp(before) is None,
        before.len() == 0 || !all_digits(before) ==> timestamp(before + seq![':'] + behind) is None,
        millis(behind) is None ==> timestamp(before + seq![':'] + behind) is None,
        text::digits_value(before) > u32::MAX ==> timestamp(before + seq![':'] + behind) is None,
{
    text::law_parted_at_the_first(before, ':', behind);
    if before.len() > 0 && all_digits(before) {
        assert(text::is_digit(before[0]));
    }
}

/// Lines are their times and their words, one for one, as they are read and as they are served.
pub proof fn law_lines_are_what_is_held(v: Seq<LyricLine>, w: Seq<(nat, Seq<char>)>)
    ensures
        timed_lines(v).len() == v.len(),
        forall|i: int| 0 <= i < v.len() ==> #[trigger] timed_lines(v)[i] == (v[i].start, v[i].value@),
        served_lines(w).len() == w.len(),
        forall|i: int|
            0 <= i < w.len() ==> #[trigger] served_lines(w)[i] == (Some(w[i].0 as u32), w[i].1),
{
}

} // verus!
