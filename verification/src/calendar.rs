//! Dates and times: days of the calendar, and moments as text.

use crate::text;
use crate::text::{all_digits, before_suffix, decimal, is_digit, next_char, parted, pieces, signed,
    unsigned};
use vstd::arithmetic::div_mod::lemma_fundamental_div_mod_converse;
use vstd::prelude::*;

verus! {

/// The days from the first of January 1970 to a date.
///
/// Years are counted from March, so that the day that only some years have is the last of the
/// year; then 400 years have 146097 days, and the days before a month grow by 153 in five months.
pub open spec fn civil_days(y: int, m: int, d: int) -> int {
    let y2 = if m <= 2 {
        y - 1
    } else {
        y
    };
    let era = y2 / 400;
    let yoe = y2 % 400;
    let mp = if m > 2 {
        m - 3
    } else {
        m + 9
    };
    let doy = (153 * mp + 2) / 5 + d - 1;
    let doe = yoe * 365 + yoe / 4 - yoe / 100 + doy;
    era * 146097 + doe - 719468
}

/// The year has a day more than others.
pub open spec fn is_leap(y: int) -> bool {
    y % 4 == 0 && (y % 100 != 0 || y % 400 == 0)
}

/// The days of a month.
pub open spec fn month_days(y: int, m: int) -> int {
    if m == 2 {
        if is_leap(y) {
            29
        } else {
            28
        }
    } else if m == 4 || m == 6 || m == 9 || m == 11 {
        30
    } else {
        31
    }
}

/// There is such a day in the calendar.
pub open spec fn is_date(y: int, m: int, d: int) -> bool {
    1 <= m <= 12 && 1 <= d <= month_days(y, m)
}

/// The day after a date.
pub open spec fn next_date(y: int, m: int, d: int) -> (int, int, int) {
    if d < month_days(y, m) {
        (y, m, d + 1)
    } else if m < 12 {
        (y, m + 1, 1)
    } else {
        (y + 1, 1, 1)
    }
}

/// The days are counted by the calendar: the first of January 1970 is day zero, and each day is
/// one more than the day before, over months and years of every length.
pub proof fn law_days_follow_the_calendar(y: int, m: int, d: int)
    requires
        is_date(y, m, d),
    ensures
        civil_days(1970, 1, 1) == 0,
        ({
            let (y2, m2, d2) = next_date(y, m, d);
            is_date(y2, m2, d2) && civil_days(y2, m2, d2) == civil_days(y, m, d) + 1
        }),
{
    if m == 2 && d == month_days(y, m) {
        let a = y - 1;
        assert(civil_days(y, 3, 1) == civil_days(y, 2, d) + 1) by {
            lemma_year_turn(a);
        }
    }
}

/// The days of the years of an era before the year `r` of it, from March to March.
spec fn era_days(r: int) -> int {
    r * 365 + r / 4 - r / 100
}

proof fn lemma_era(e: int, r: int)
    requires
        0 <= r < 400,
    ensures
        (e * 400 + r) / 400 == e,
        (e * 400 + r) % 400 == r,
        (e * 400 + r) % 100 == r % 100,
        (e * 400 + r) % 4 == r % 4,
{
    let a = e * 400 + r;
    lemma_fundamental_div_mod_converse(a, 400, e, r);
    lemma_fundamental_div_mod_converse(a, 100, e * 4 + r / 100, r % 100);
    lemma_fundamental_div_mod_converse(a, 4, e * 100 + r / 4, r % 4);
}

/// From the first of March of one year to that of the next.
proof fn lemma_year_turn(a: int)
    ensures
        (a + 1) / 400 * 146097 + era_days((a + 1) % 400) == a / 400 * 146097 + era_days(a % 400) + (
        if is_leap(a + 1) {
            366int
        } else {
            365int
        }),
{
    let e = a / 400;
    let r = a % 400;
    lemma_era(e, r);
    if r < 399 {
        lemma_era(e, r + 1);
        lemma_step(r);
        assert(a + 1 == e * 400 + (r + 1));
    } else {
        lemma_era(e + 1, 0);
        assert(a + 1 == (e + 1) * 400 + 0);
    }
}

proof fn lemma_step(r: int)
    ensures
        (r + 1) / 4 == r / 4 + (if (r + 1) % 4 == 0 {
            1int
        } else {
            0int
        }),
        (r + 1) / 100 == r / 100 + (if (r + 1) % 100 == 0 {
            1int
        } else {
            0int
        }),
{
}

/// The days from the first of January 1970 to a date, in wider numbers.
fn wide_days(y: i64, m: u32, d: u32) -> (r: i128)
    ensures
        r == civil_days(y as int, m as int, d as int),
        -0x1_0000_0000_0000_0000 * 366 <= r <= 0x1_0000_0000_0000_0000 * 366,
{
    let y2: i128 = if m <= 2 {
        y as i128 - 1
    } else {
        y as i128
    };
    let era: i128 = if y2 >= 0 {
        y2 / 400
    } else {
        -((399 - y2) / 400)
    };
    let yoe: i128 = y2 - era * 400;
    proof {
        assert(era == y2 as int / 400);
        assert(yoe == y2 as int % 400);
    }
    let mp: i128 = if m > 2 {
        m as i128 - 3
    } else {
        m as i128 + 9
    };
    let doy: i128 = (153 * mp + 2) / 5 + d as i128 - 1;
    let doe: i128 = yoe * 365 + yoe / 4 - yoe / 100 + doy;
    era * 146_097 + doe - 719_468
}

/// The days from the first of January 1970 to a date.
pub fn days_from_civil(y: i64, m: u32, d: u32) -> (r: i64)
    requires
        i64::MIN <= civil_days(y as int, m as int, d as int) <= i64::MAX,
    ensures
        r == civil_days(y as int, m as int, d as int),
{
    wide_days(y, m, d) as i64
}

/// The year, the month and the day in a text with dashes between them.
pub open spec fn date_of(s: Seq<char>) -> Option<(int, nat, nat)> {
    let p = pieces(s, '-');
    if p.len() == 3 {
        match (signed(p[0]), unsigned(p[1], u32::MAX as nat), unsigned(p[2], u32::MAX as nat)) {
            (Some(y), Some(m), Some(d)) => Some((y, m, d)),
            _ => None,
        }
    } else {
        None
    }
}

/// Reads a date.
pub fn date_parts(s: &str) -> (r: Option<(i64, u32, u32)>)
    ensures
        match r {
            Some((y, m, d)) => date_of(s@) == Some((y as int, m as nat, d as nat)),
            None => date_of(s@) is None,
        },
{
    let p = text::split(s, '-');
    if p.len() != 3 {
        assert(text::texts(p@).len() == p@.len());
        return None;
    }
    assert(text::texts(p@)[0] == p@[0]@ && text::texts(p@)[1] == p@[1]@ && text::texts(p@)[2]
        == p@[2]@);
    match (
        text::parse_i64(p[0].as_str()),
        text::parse_u32(p[1].as_str()),
        text::parse_u32(p[2].as_str()),
    ) {
        (Some(y), Some(m), Some(d)) => Some((y, m, d)),
        _ => None,
    }
}

/// The hour, the minute and the second in a text with colons between them.
pub open spec fn time_of(s: Seq<char>) -> Option<(nat, nat, nat)> {
    let p = pieces(s, ':');
    if p.len() == 3 {
        match (
            unsigned(p[0], u32::MAX as nat),
            unsigned(p[1], u32::MAX as nat),
            unsigned(p[2], u32::MAX as nat),
        ) {
            (Some(h), Some(m), Some(s)) => Some((h, m, s)),
            _ => None,
        }
    } else {
        None
    }
}

/// Reads a time of day.
pub fn hms_parts(s: &str) -> (r: Option<(u32, u32, u32)>)
    ensures
        match r {
            Some((h, m, sec)) => time_of(s@) == Some((h as nat, m as nat, sec as nat)),
            None => time_of(s@) is None,
        },
{
    let p = text::split(s, ':');
    if p.len() != 3 {
        assert(text::texts(p@).len() == p@.len());
        return None;
    }
    assert(text::texts(p@)[0] == p@[0]@ && text::texts(p@)[1] == p@[1]@ && text::texts(p@)[2]
        == p@[2]@);
    match (
        text::parse_u32(p[0].as_str()),
        text::parse_u32(p[1].as_str()),
        text::parse_u32(p[2].as_str()),
    ) {
        (Some(h), Some(m), Some(sec)) => Some((h, m, sec)),
        _ => None,
    }
}

/// The milliseconds from the start of 1970 to a moment.
pub open spec fn moment_ms(days: int, h: int, m: int, s: int) -> int {
    (days * 86400 + h * 3600 + m * 60 + s) * 1000
}

/// The text has the form of another, in which a zero stands for any digit.
pub open spec fn has_form(s: Seq<char>, form: Seq<char>) -> bool {
    s.len() == form.len() && forall|i: int|
        0 <= i < s.len() ==> if form[i] == '0' {
            is_digit(#[trigger] s[i])
        } else {
            s[i] == form[i]
        }
}

/// Whether a text has the form of another, in which a zero stands for any digit.
fn check_form(s: &str, form: &str) -> (r: bool)
    ensures
        r == has_form(s@, form@),
{
    let v = text::chars_of(s);
    let w = text::chars_of(form);
    if v.len() != w.len() {
        return false;
    }
    let mut i: usize = 0;
    while i < v.len()
        invariant
            i <= v@.len(),
            v@.len() == w@.len(),
            v@ == s@,
            w@ == form@,
            forall|j: int|
                0 <= j < i ==> if form@[j] == '0' {
                    is_digit(#[trigger] s@[j])
                } else {
                    s@[j] == form@[j]
                },
        decreases v@.len() - i,
    {
        let c: char = v[i];
        assert(s@[i as int] == c);
        if w[i] == '0' {
            if !('0' <= c && c <= '9') {
                return false;
            }
        } else if c != w[i] {
            return false;
        }
        i += 1;
    }
    true
}

/// The hours, minutes and seconds in a time of day, where all that follows them is digits behind
/// a point, if anything.
pub open spec fn whole_time(t: Seq<char>) -> Option<Seq<char>> {
    match parted(t, '.') {
        Some((whole, fraction)) => if fraction.len() > 0 && all_digits(fraction) {
            Some(whole)
        } else {
            None
        },
        None => Some(t),
    }
}

/// Takes the hours, minutes and seconds from a time of day.
fn take_whole(t: &str) -> (r: Option<&str>)
    ensures
        text::opt_view(r) == whole_time(t@),
{
    match text::split_once(t, '.') {
        Some((whole, fraction)) => {
            if !text::only_digits(fraction) {
                return None;
            }
            Some(whole)
        },
        None => Some(t),
    }
}

/// The date, and the hours, minutes and seconds, in a text such as `2023-01-15T10:00:00.000Z`.
/// The zone is that of Greenwich, which the `Z` says; a text in any other form gives none.
pub open spec fn iso_halves(s: Seq<char>) -> Option<(Seq<char>, Seq<char>)> {
    match parted(s, 'T') {
        Some((date, rest)) => match before_suffix(rest, "Z"@) {
            Some(time) => match whole_time(time) {
                Some(whole) => if has_form(date, "0000-00-00"@) && has_form(whole, "00:00:00"@) {
                    Some((date, whole))
                } else {
                    None
                },
                None => None,
            },
            None => None,
        },
        None => None,
    }
}

/// The milliseconds from the start of 1970 to the moment in a text, down to the second; a text
/// in another form, and a date or a time of day that does not exist, give none.
pub open spec fn iso_moment(s: Seq<char>) -> Option<int> {
    match iso_halves(s) {
        Some((date, whole)) => match (date_of(date), time_of(whole)) {
            (Some((y, m, d)), Some((h, mi, sec))) => if is_moment(
                y,
                m as int,
                d as int,
                h as int,
                mi as int,
                sec as int,
            ) {
                Some(
                    moment_ms(
                        civil_days(y, m as int, d as int),
                        h as int,
                        mi as int,
                        sec as int,
                    ),
                )
            } else {
                None
            },
            _ => None,
        },
        None => None,
    }
}

/// Whether there is such a day in the calendar.
fn check_date(y: i64, m: u32, d: u32) -> (r: bool)
    ensures
        r == (0 <= y <= 9999 && is_date(y as int, m as int, d as int)),
{
    if !(0 <= y && y <= 9999 && 1 <= m && m <= 12) {
        return false;
    }
    let leap = y % 4 == 0 && (y % 100 != 0 || y % 400 == 0);
    let last: u32 = if m == 2 {
        if leap {
            29
        } else {
            28
        }
    } else if m == 4 || m == 6 || m == 9 || m == 11 {
        30
    } else {
        31
    };
    1 <= d && d <= last
}

proof fn lemma_days_bounded(y: int, m: int, d: int)
    requires
        0 <= y <= 9999,
        is_date(y, m, d),
    ensures
        -1_000_000 <= civil_days(y, m, d) <= 4_000_000,
{
}

/// Takes a text apart into the date and the hours, minutes and seconds.
fn iso_parts<'a>(s: &'a str) -> (r: Option<(&'a str, &'a str)>)
    ensures
        match r {
            Some((date, whole)) => iso_halves(s@) == Some((date@, whole@)),
            None => iso_halves(s@) is None,
        },
{
    match text::split_once(s, 'T') {
        Some((date, rest)) => match text::strip_suffix(rest, "Z") {
            Some(time) => match take_whole(time) {
                Some(whole) => if check_form(date, "0000-00-00") && check_form(whole, "00:00:00") {
                    Some((date, whole))
                } else {
                    None
                },
                None => None,
            },
            None => None,
        },
        None => None,
    }
}

/// Reads a moment such as `2023-01-15T10:00:00.000Z`.
pub fn iso8601_ms(s: &str) -> (r: Option<i64>)
    ensures
        text::opt_int(r) == iso_moment(s@),
        r is Some ==> {
            &&& s@.len() >= 20
            &&& s@.last() == 'Z'
            &&& s@[4] == '-' && s@[7] == '-' && s@[10] == 'T' && s@[13] == ':' && s@[16] == ':'
            &&& is_digit(s@[0]) && is_digit(s@[1]) && is_digit(s@[2]) && is_digit(s@[3])
            &&& is_digit(s@[5]) && is_digit(s@[6]) && is_digit(s@[8]) && is_digit(s@[9])
            &&& is_digit(s@[11]) && is_digit(s@[12]) && is_digit(s@[14]) && is_digit(s@[15])
            &&& is_digit(s@[17]) && is_digit(s@[18])
            &&& s@.len() > 20 ==> s@.len() > 21 && s@[19] == '.' && forall|i: int|
                20 <= i < s@.len() - 1 ==> is_digit(#[trigger] s@[i])
        },
{
    proof {
        if iso_halves(s@) is Some {
            lemma_iso_form(s@);
        }
    }
    let (date, whole) = match iso_parts(s) {
        Some(p) => p,
        None => {
            return None;
        },
    };
    match (date_parts(date), hms_parts(whole)) {
        (Some((y, m, d)), Some((h, mi, sec))) => {
            if !check_date(y, m, d) || h >= 24 || mi >= 60 || sec >= 60 {
                return None;
            }
            proof {
                lemma_days_bounded(y as int, m as int, d as int);
            }
            let days: i64 = days_from_civil(y, m, d);
            Some((days * 86_400 + h as i64 * 3_600 + mi as i64 * 60 + sec as i64) * 1_000)
        },
        _ => None,
    }
}

/// A moment as text, in the zone of Greenwich and down to the second.
pub uninterp spec fn rfc3339(ms: int) -> Option<Seq<char>>;

/// The digit of a number that stands for this power of ten.
#[verifier::opaque]
pub open spec fn place(n: int, power: int) -> char {
    text::digit_char((n / power % 10) as nat)
}

/// A date and a time of day as text.
pub open spec fn moment_text(y: int, m: int, d: int, h: int, mi: int, sec: int) -> Seq<char> {
    seq![
        place(y, 1000),
        place(y, 100),
        place(y, 10),
        place(y, 1),
        '-',
        place(m, 10),
        place(m, 1),
        '-',
        place(d, 10),
        place(d, 1),
        'T',
        place(h, 10),
        place(h, 1),
        ':',
        place(mi, 10),
        place(mi, 1),
        ':',
        place(sec, 10),
        place(sec, 1),
        'Z',
    ]
}

/// There is such a moment, in a year of at most four digits.
pub open spec fn is_moment(y: int, m: int, d: int, h: int, mi: int, sec: int) -> bool {
    0 <= y <= 9999 && is_date(y, m, d) && 0 <= h < 24 && 0 <= mi < 60 && 0 <= sec < 60
}

/// The text is that of the moment so many seconds after the start of 1970.
pub open spec fn tells_moment(s: Seq<char>, seconds: int) -> bool {
    exists|y: int, m: int, d: int, h: int, mi: int, sec: int|
        is_moment(y, m, d, h, mi, sec) && seconds * 1000 == moment_ms(
            civil_days(y, m, d),
            h,
            mi,
            sec,
        ) && s == #[trigger] moment_text(y, m, d, h, mi, sec)
}

/// The moment lies in the years from 0 to 9999.
pub open spec fn has_short_year(ms: int) -> bool {
    -62_167_219_200_000 <= ms <= 253_402_300_799_999
}

/// `chrono::DateTime::from_timestamp_millis` takes a number of milliseconds as a moment, and
/// `to_rfc3339_opts` writes it as text, here in whole seconds and with a `Z` for the zone. A
/// moment too far off is none. In the years from 0 to 9999 the text is the date of the calendar
/// and the time of day; how other years are written is left to the name.
#[verifier::external_body]
fn rfc3339_text(ms: i64) -> (r: Option<String>)
    ensures
        text::opt_text(r) == rfc3339(ms as int),
        has_short_year(ms as int) ==> r is Some && tells_moment(r->0@, ms as int / 1000),
{
    chrono::DateTime::from_timestamp_millis(ms).map(
        |t| t.to_rfc3339_opts(chrono::SecondsFormat::Secs, true),
    )
}

/// The text of a moment, or that of the start of 1970 where there is none.
pub open spec fn moment_or_epoch(t: Option<Seq<char>>) -> Seq<char> {
    match t {
        Some(s) => s,
        None => "1970-01-01T00:00:00Z"@,
    }
}

/// Keeps the text of a moment, and falls back to the start of 1970 where there is none.
pub fn or_epoch(t: Option<String>) -> (r: String)
    ensures
        r@ == moment_or_epoch(text::opt_text(t)),
        t is Some ==> r@ == t->0@,
        t is None ==> r@ == "1970-01-01T00:00:00Z"@,
{
    match t {
        Some(s) => s,
        None => "1970-01-01T00:00:00Z".to_owned(),
    }
}

/// Writes a moment as text. Read back, the text gives the moment down to the second.
pub fn iso8601_z(ms: i64) -> (r: String)
    ensures
        r@ == moment_or_epoch(rfc3339(ms as int)),
        has_short_year(ms as int) ==> tells_moment(r@, ms as int / 1000),
        has_short_year(ms as int) ==> iso_moment(r@) == Some(ms as int / 1000 * 1000),
{
    let t = rfc3339_text(ms);
    proof {
        if has_short_year(ms as int) {
            law_moments_read_back(t->0@, ms as int / 1000);
        }
    }
    or_epoch(t)
}

proof fn lemma_two_digits(n: int)
    requires
        0 <= n <= 99,
    ensures
        unsigned(seq![place(n, 10), place(n, 1)], u32::MAX as nat) == Some(n as nat),
        text::is_digit(place(n, 10)),
        text::is_digit(place(n, 1)),
{
    reveal(place);
    let s = seq![place(n, 10), place(n, 1)];
    assert(text::is_digit(s[0]) && text::is_digit(s[1]));
    reveal_with_fuel(text::digits_value, 3);
    assert(s.drop_last().drop_last() =~= Seq::empty());
    assert(text::digits_value(s) == n);
}

proof fn lemma_places(n: int)
    requires
        0 <= n <= 9999,
    ensures
        (n / 1000 % 10) * 1000 + (n / 100 % 10) * 100 + (n / 10 % 10) * 10 + n % 10 == n,
{
    let a = n / 10;
    let b = n / 100;
    let c = n / 1000;
    assert(a / 10 == b && b / 10 == c);
    assert(c < 10);
}

proof fn lemma_four_digits(n: int)
    requires
        0 <= n <= 9999,
    ensures
        signed(seq![place(n, 1000), place(n, 100), place(n, 10), place(n, 1)]) == Some(n),
        text::is_digit(place(n, 1000)),
        text::is_digit(place(n, 100)),
        text::is_digit(place(n, 10)),
        text::is_digit(place(n, 1)),
{
    reveal(place);
    let s = seq![place(n, 1000), place(n, 100), place(n, 10), place(n, 1)];
    assert(text::is_digit(s[0]) && text::is_digit(s[1]) && text::is_digit(s[2]) && text::is_digit(
        s[3],
    ));
    reveal_with_fuel(text::digits_value, 5);
    let s3 = s.drop_last();
    let s2 = s3.drop_last();
    let s1 = s2.drop_last();
    assert(s1.drop_last() =~= Seq::empty());
    assert(text::digits_value(s1) == n / 1000 % 10);
    assert(text::digits_value(s2) == (n / 1000 % 10) * 10 + n / 100 % 10);
    assert(text::digits_value(s3) == (n / 1000 % 10) * 100 + (n / 100 % 10) * 10 + n / 10 % 10);
    assert(text::digits_value(s) == (n / 1000 % 10) * 1000 + (n / 100 % 10) * 100 + (n / 10 % 10)
        * 10 + n % 10);
    lemma_places(n);
}

/// The pieces of a text with a `c` at `a` and at `b` and nowhere else.
proof fn lemma_three_pieces(s: Seq<char>, c: char, a: int, b: int)
    requires
        0 <= a < b < s.len(),
        forall|i: int| 0 <= i < s.len() ==> (#[trigger] s[i] == c <==> i == a || i == b),
    ensures
        pieces(s, c) == seq![
            s.subrange(0, a),
            s.subrange(a + 1, b),
            s.subrange(b + 1, s.len() as int),
        ],
{
    text::lemma_next_char_is(s, c, 0, a);
    let t = s.subrange(a + 1, s.len() as int);
    assert forall|i: int| 0 <= i < t.len() implies (#[trigger] t[i] == c <==> i == b - a - 1) by {
        assert(t[i] == s[a + 1 + i]);
    }
    text::lemma_next_char_is(t, c, 0, b - a - 1);
    let u = t.subrange(b - a, t.len() as int);
    assert forall|i: int| 0 <= i < u.len() implies u[i] != c by {
        assert(u[i] == t[b - a + i]);
    }
    text::lemma_next_char_is(u, c, 0, u.len() as int);
    assert(pieces(u, c) =~= seq![u]);
    assert(t.subrange(0, b - a - 1) =~= s.subrange(a + 1, b));
    assert(u =~= s.subrange(b + 1, s.len() as int));
    assert(pieces(t, c) =~= seq![t.subrange(0, b - a - 1), u]);
    assert(pieces(s, c) =~= seq![
        s.subrange(0, a),
        s.subrange(a + 1, b),
        s.subrange(b + 1, s.len() as int),
    ]);
}

proof fn lemma_date_reads_back(s: Seq<char>, y: int, m: int, d: int)
    requires
        0 <= y <= 9999,
        0 <= m <= 99,
        0 <= d <= 99,
        s =~= seq![
            place(y, 1000),
            place(y, 100),
            place(y, 10),
            place(y, 1),
            '-',
            place(m, 10),
            place(m, 1),
            '-',
            place(d, 10),
            place(d, 1),
        ],
    ensures
        date_of(s) == Some((y, m as nat, d as nat)),
{
    lemma_four_digits(y);
    lemma_two_digits(m);
    lemma_two_digits(d);
    lemma_three_pieces(s, '-', 4, 7);
    assert(s.subrange(0, 4) =~= seq![place(y, 1000), place(y, 100), place(y, 10), place(y, 1)]);
    assert(s.subrange(5, 7) =~= seq![place(m, 10), place(m, 1)]);
    assert(s.subrange(8, 10) =~= seq![place(d, 10), place(d, 1)]);
}

proof fn lemma_time_reads_back(s: Seq<char>, h: int, mi: int, sec: int)
    requires
        0 <= h <= 99,
        0 <= mi <= 99,
        0 <= sec <= 99,
        s =~= seq![
            place(h, 10),
            place(h, 1),
            ':',
            place(mi, 10),
            place(mi, 1),
            ':',
            place(sec, 10),
            place(sec, 1),
        ],
    ensures
        time_of(s) == Some((h as nat, mi as nat, sec as nat)),
        next_char(s, '.', 0) == 8,
{
    lemma_two_digits(h);
    lemma_two_digits(mi);
    lemma_two_digits(sec);
    text::lemma_next_char_is(s, '.', 0, 8);
    lemma_three_pieces(s, ':', 2, 5);
    assert(s.subrange(0, 2) =~= seq![place(h, 10), place(h, 1)]);
    assert(s.subrange(3, 5) =~= seq![place(mi, 10), place(mi, 1)]);
    assert(s.subrange(6, 8) =~= seq![place(sec, 10), place(sec, 1)]);
}

proof fn lemma_moment_reads_back(y: int, m: int, d: int, h: int, mi: int, sec: int)
    requires
        is_moment(y, m, d, h, mi, sec),
    ensures
        iso_moment(moment_text(y, m, d, h, mi, sec)) == Some(
            moment_ms(civil_days(y, m, d), h, mi, sec),
        ),
{
    let s = moment_text(y, m, d, h, mi, sec);
    let date = s.subrange(0, 10);
    let time = s.subrange(11, 20);
    lemma_four_digits(y);
    lemma_two_digits(m);
    lemma_two_digits(d);
    text::lemma_next_char_is(s, 'T', 0, 10);
    lemma_date_reads_back(date, y, m, d);
    reveal_strlit("Z");
    assert(time.subrange(8, 9) =~= "Z"@);
    let u = time.subrange(0, 8);
    lemma_time_reads_back(u, h, mi, sec);
    assert(before_suffix(time, "Z"@) == Some(u));
    assert(parted(u, '.') is None);
    assert(parted(s, 'T') == Some((date, time)));
    reveal_strlit("0000-00-00");
    reveal_strlit("00:00:00");
    lemma_two_digits(h);
    lemma_two_digits(mi);
    lemma_two_digits(sec);
    assert(has_form(date, "0000-00-00"@));
    assert(has_form(u, "00:00:00"@));
}

/// A moment written as text is read back as the same moment.
pub proof fn law_moments_read_back(s: Seq<char>, seconds: int)
    requires
        tells_moment(s, seconds),
    ensures
        iso_moment(s) == Some(seconds * 1000),
{
    let (y, m, d, h, mi, sec): (int, int, int, int, int, int) = choose|
        y: int,
        m: int,
        d: int,
        h: int,
        mi: int,
        sec: int,
    |
        is_moment(y, m, d, h, mi, sec) && seconds * 1000 == moment_ms(
            civil_days(y, m, d),
            h,
            mi,
            sec,
        ) && s == #[trigger] moment_text(y, m, d, h, mi, sec);
    lemma_moment_reads_back(y, m, d, h, mi, sec);
}

/// What a text that is taken apart into a date and a time looks like.
#[verifier::rlimit(40)]
proof fn lemma_iso_form(s: Seq<char>)
    requires
        iso_halves(s) is Some,
    ensures
        s.len() >= 20,
        s.last() == 'Z',
        s[4] == '-' && s[7] == '-' && s[10] == 'T' && s[13] == ':' && s[16] == ':',
        is_digit(s[0]) && is_digit(s[1]) && is_digit(s[2]) && is_digit(s[3]),
        is_digit(s[5]) && is_digit(s[6]) && is_digit(s[8]) && is_digit(s[9]),
        is_digit(s[11]) && is_digit(s[12]) && is_digit(s[14]) && is_digit(s[15]),
        is_digit(s[17]) && is_digit(s[18]),
        s.len() > 20 ==> s.len() > 21 && s[19] == '.' && forall|i: int|
            20 <= i < s.len() - 1 ==> is_digit(#[trigger] s[i]),
{
    reveal_strlit("0000-00-00");
    reveal_strlit("00:00:00");
    reveal_strlit("Z");
    let (date, rest) = parted(s, 'T')->0;
    let time = before_suffix(rest, "Z"@)->0;
    let whole = whole_time(time)->0;
    text::lemma_next_char(s, 'T', 0);
    text::lemma_next_char(time, '.', 0);
    let f = "0000-00-00"@;
    let g = "00:00:00"@;
    assert(has_form(date, f) && has_form(whole, g));
    assert(f.len() == 10 && g.len() == 8);
    assert(f[0] == '0' && f[1] == '0' && f[2] == '0' && f[3] == '0' && f[4] == '-' && f[5] == '0'
        && f[6] == '0' && f[7] == '-' && f[8] == '0' && f[9] == '0');
    assert(g[0] == '0' && g[1] == '0' && g[2] == ':' && g[3] == '0' && g[4] == '0' && g[5] == ':'
        && g[6] == '0' && g[7] == '0');
    assert(is_digit(date[0]) && is_digit(date[1]) && is_digit(date[2]) && is_digit(date[3])
        && date[4] == '-' && is_digit(date[5]) && is_digit(date[6]) && date[7] == '-' && is_digit(
        date[8],
    ) && is_digit(date[9]));
    assert(is_digit(whole[0]) && is_digit(whole[1]) && whole[2] == ':' && is_digit(whole[3])
        && is_digit(whole[4]) && whole[5] == ':' && is_digit(whole[6]) && is_digit(whole[7]));
    assert(date =~= s.subrange(0, 10));
    assert(rest =~= s.subrange(11, s.len() as int));
    assert forall|i: int| 0 <= i < 10 implies s[i] == #[trigger] date[i] by {}
    assert forall|i: int| 0 <= i < 8 implies s[11 + i] == #[trigger] whole[i] by {
        assert(whole[i] == time[i] && time[i] == rest[i]);
    }
    assert(rest.last() == 'Z') by {
        assert(rest.subrange(rest.len() - 1, rest.len() as int)[0] == "Z"@[0]);
    }
    assert(s.len() == 11 + rest.len() && rest.len() == time.len() + 1);
    match parted(time, '.') {
        Some((w, fraction)) => {
            assert(w.len() == 8 && time[8] == '.' && rest[8] == '.' && s[19] == '.');
            assert(fraction =~= time.subrange(9, time.len() as int));
            assert forall|i: int| 20 <= i < s.len() - 1 implies is_digit(#[trigger] s[i]) by {
                assert(s[i] == rest[i - 11] && rest[i - 11] == time[i - 11] && time[i - 11]
                    == fraction[i - 20]);
                assert(is_digit(fraction[i - 20]));
            }
        },
        None => {},
    }
}

/// From the first of a month to the first of the next lie as many days as the month has: thirty in
/// April, June, September and November, twenty-eight or, every fourth year but for the full
/// centuries that four hundred does not divide, twenty-nine in February, and thirty-one otherwise.
#[verifier::rlimit(40)]
pub proof fn law_months_are_as_long_as_they_are(y: int)
    ensures
        civil_days(y, 2, 1) - civil_days(y, 1, 1) == 31,
        civil_days(y, 3, 1) - civil_days(y, 2, 1) == (if y % 400 == 0 || (y % 4 == 0 && y % 100
            != 0) {
            29int
        } else {
            28
        }),
        civil_days(y, 4, 1) - civil_days(y, 3, 1) == 31,
        civil_days(y, 5, 1) - civil_days(y, 4, 1) == 30,
        civil_days(y, 6, 1) - civil_days(y, 5, 1) == 31,
        civil_days(y, 7, 1) - civil_days(y, 6, 1) == 30,
        civil_days(y, 8, 1) - civil_days(y, 7, 1) == 31,
        civil_days(y, 9, 1) - civil_days(y, 8, 1) == 31,
        civil_days(y, 10, 1) - civil_days(y, 9, 1) == 30,
        civil_days(y, 11, 1) - civil_days(y, 10, 1) == 31,
        civil_days(y, 12, 1) - civil_days(y, 11, 1) == 30,
        civil_days(y + 1, 1, 1) - civil_days(y, 12, 1) == 31,
{
    let last = month_days(y, 2);
    law_days_follow_the_calendar(y, 2, last);
    law_days_follow_the_calendar(y, 12, 31);
}

/// A day has twenty-four hours, an hour sixty minutes, a minute sixty seconds, and a second a
/// thousand milliseconds; at the start of 1970 none have passed.
pub proof fn law_moments_count_days_hours_minutes_and_seconds(days: int, h: int, m: int, s: int)
    ensures
        moment_ms(0, 0, 0, 0) == 0,
        moment_ms(days + 1, h, m, s) == moment_ms(days, h + 24, m, s),
        moment_ms(days, h + 1, m, s) == moment_ms(days, h, m + 60, s),
        moment_ms(days, h, m + 1, s) == moment_ms(days, h, m, s + 60),
        moment_ms(days, h, m, s + 1) == moment_ms(days, h, m, s) + 1000,
{
}

/// What follows the seconds behind a point does not count, but it must be digits.
pub proof fn law_fractions_do_not_count(t: Seq<char>, fraction: Seq<char>)
    requires
        !t.contains('.'),
    ensures
        whole_time(t) == Some(t),
        fraction.len() > 0 && all_digits(fraction) ==> whole_time(t + seq!['.'] + fraction) == Some(t),
        fraction.len() == 0 || !all_digits(fraction) ==> whole_time(t + seq!['.'] + fraction) is None,
{
    text::law_parted_at_the_first(t, '.', fraction);
}

/// A date is read from the year, the month and the day in this order, and a time of day from the
/// hour, the minute and the second.
pub proof fn law_dates_and_times_are_read_in_their_order(a: u32, b: u32, c: u32)
    ensures
        date_of(
            decimal(a as nat) + seq!['-'] + (decimal(b as nat) + seq!['-'] + decimal(c as nat)),
        ) == Some((a as int, b as nat, c as nat)),
        time_of(
            decimal(a as nat) + seq![':'] + (decimal(b as nat) + seq![':'] + decimal(c as nat)),
        ) == Some((a as nat, b as nat, c as nat)),
{
    lemma_three_numbers(a, b, c, '-');
    lemma_three_numbers(a, b, c, ':');
    text::law_decimal_reads_back(a as nat, u32::MAX as nat);
    text::law_decimal_reads_back(b as nat, u32::MAX as nat);
    text::law_decimal_reads_back(c as nat, u32::MAX as nat);
    text::law_signed_reads_back(a as int);
    assert(text::signed_decimal(a as int) == decimal(a as nat));
}

proof fn lemma_three_numbers(a: u32, b: u32, c: u32, sep: char)
    requires
        !is_digit(sep),
    ensures
        pieces(
            decimal(a as nat) + seq![sep] + (decimal(b as nat) + seq![sep] + decimal(c as nat)),
            sep,
        ) == seq![decimal(a as nat), decimal(b as nat), decimal(c as nat)],
{
    let x = decimal(a as nat);
    let y = decimal(b as nat);
    let z = decimal(c as nat);
    lemma_no_sep(a as nat, sep);
    lemma_no_sep(b as nat, sep);
    lemma_no_sep(c as nat, sep);
    text::law_pieces_are_cut_at_each(x, sep, y + seq![sep] + z);
    text::law_pieces_are_cut_at_each(y, sep, z);
    text::law_pieces_are_cut_at_each(z, sep, z);
    assert(pieces(x + seq![sep] + (y + seq![sep] + z), sep) =~= seq![x, y, z]);
}

proof fn lemma_no_sep(n: nat, sep: char)
    requires
        !is_digit(sep),
    ensures
        !decimal(n).contains(sep),
{
    text::lemma_decimal(n);
    let d = decimal(n);
    assert forall|i: int| 0 <= i < d.len() implies d[i] != sep by {
        assert(is_digit(d[i]));
    }
}

/// There is a moment where there is the day and the time of day: hours to twenty-three, minutes and
/// seconds to fifty-nine.
pub proof fn law_what_moments_there_are(y: int, m: int, d: int, h: int, mi: int, sec: int)
    ensures
        is_moment(y, m, d, h, mi, sec) <==> 0 <= y <= 9999 && 1 <= m <= 12 && 1 <= d && (d <= 28 || (d
            == 29 && (m != 2 || y % 400 == 0 || (y % 4 == 0 && y % 100 != 0))) || (d == 30 && m != 2)
            || (d == 31 && (m == 1 || m == 3 || m == 5 || m == 7 || m == 8 || m == 10 || m == 12)))
            && 0 <= h <= 23 && 0 <= mi <= 59 && 0 <= sec <= 59,
{
}

} // verus!
