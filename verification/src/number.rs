//! Numbers with a decimal point, read exactly.

use crate::text;
use crate::text::{all_digits, chars_of, digit_value, digits_value, is_digit, parted};
use vstd::prelude::*;

verus! {

/// The end of the run of digits that starts at `i`.
pub open spec fn digit_end(s: Seq<char>, i: int) -> int
    decreases s.len() - i,
{
    if 0 <= i < s.len() && is_digit(s[i]) {
        digit_end(s, i + 1)
    } else {
        i
    }
}

/// The character is a plus or a minus sign.
pub open spec fn is_sign(c: char) -> bool {
    c == '+' || c == '-'
}

/// What follows the sign, where there is one.
pub open spec fn after_sign(s: Seq<char>) -> Seq<char> {
    if s.len() > 0 && is_sign(s[0]) {
        s.subrange(1, s.len() as int)
    } else {
        s
    }
}

/// The text is digits behind an optional sign.
pub open spec fn is_exponent(s: Seq<char>) -> bool {
    after_sign(s).len() > 0 && all_digits(after_sign(s))
}

/// The text is an unsigned number: digits with an optional point among, before or behind them,
/// and then optionally the letter e with the power of ten by which the point moves.
pub open spec fn is_decimal(s: Seq<char>) -> bool {
    let n = digit_end(s, 0);
    let m = if n < s.len() && s[n] == '.' {
        digit_end(s, n + 1)
    } else {
        n
    };
    &&& n > 0 || m > n + 1
    &&& m == s.len() || ((s[m] == 'e' || s[m] == 'E') && is_exponent(
        s.subrange(m + 1, s.len() as int),
    ))
}

/// The lower case of a letter of the alphabet; any other character as it is.
pub open spec fn lower(c: char) -> char {
    if 'A' <= c <= 'Z' {
        (c as int + 32) as char
    } else {
        c
    }
}

/// The two texts are the same but for the case of the letters of the alphabet.
pub open spec fn same_letters(s: Seq<char>, t: Seq<char>) -> bool {
    s.len() == t.len() && forall|i: int| 0 <= i < s.len() ==> lower(#[trigger] s[i]) == lower(t[i])
}

/// The text is that of a number with an optional sign and point, or says in words that it is
/// infinite or none.
pub open spec fn is_number(s: Seq<char>) -> bool {
    let t = after_sign(s);
    same_letters(t, "inf"@) || same_letters(t, "infinity"@) || same_letters(t, "nan"@)
        || is_decimal(t)
}

/// The whole number made of the first `p` digits, with zeros after the last digit.
pub open spec fn leading(d: Seq<char>, p: int) -> nat
    decreases p,
{
    if p <= 0 {
        0
    } else {
        leading(d, p - 1) * 10 + if p - 1 < d.len() {
            digit_value(d[p - 1])
        } else {
            0
        }
    }
}

/// The digits of a number, and how many of them stand before the point. A number is digits, and
/// optionally a point with digits behind it; there is no sign and no exponent.
pub open spec fn plain_number(s: Seq<char>) -> Option<(Seq<char>, int)> {
    match parted(s, '.') {
        Some((whole, fraction)) => if whole.len() > 0 && all_digits(whole) && fraction.len() > 0
            && all_digits(fraction) {
            Some((whole + fraction, whole.len() as int))
        } else {
            None
        },
        None => if s.len() > 0 && all_digits(s) {
            Some((s, s.len() as int))
        } else {
            None
        },
    }
}

/// A number of seconds in whole milliseconds, at most what 32 bits hold; a text that is no plain
/// number gives none.
pub open spec fn millis(s: Seq<char>) -> Option<nat> {
    match plain_number(s) {
        Some((d, p)) => Some(
            if leading(d, p + 3) > u32::MAX {
                u32::MAX as nat
            } else {
                leading(d, p + 3)
            },
        ),
        None => None,
    }
}

/// The end of a run of digits, counted from `base` on.
fn find_digit_end(v: &Vec<char>, base: usize, i: usize) -> (r: usize)
    requires
        base <= i <= v@.len(),
    ensures
        i <= r <= v@.len(),
        r - base == digit_end(v@.subrange(base as int, v@.len() as int), i - base),
{
    let ghost s = v@.subrange(base as int, v@.len() as int);
    let mut j: usize = i;
    while j < v.len() && '0' <= v[j] && v[j] <= '9'
        invariant
            base <= i <= j <= v@.len(),
            s == v@.subrange(base as int, v@.len() as int),
            digit_end(s, i - base) == digit_end(s, j - base),
        decreases v@.len() - j,
    {
        assert(s[j - base] == v@[j as int]);
        j += 1;
    }
    assert(j < v@.len() ==> s[j - base] == v@[j as int]);
    j
}

/// Whether the characters from `base` on are this word in lower case, the case aside.
fn is_word(v: &Vec<char>, base: usize, word: &str) -> (r: bool)
    requires
        base <= v@.len(),
    ensures
        r == same_letters(v@.subrange(base as int, v@.len() as int), word@),
{
    let w = chars_of(word);
    let ghost s = v@.subrange(base as int, v@.len() as int);
    if w.len() != v.len() - base {
        return false;
    }
    let mut i: usize = 0;
    while i < w.len()
        invariant
            i <= w@.len(),
            base <= v@.len(),
            w@.len() == v@.len() - base,
            w@ == word@,
            s == v@.subrange(base as int, v@.len() as int),
            forall|j: int| 0 <= j < i ==> lower(#[trigger] s[j]) == lower(w@[j]),
        decreases w@.len() - i,
    {
        assert(s[i as int] == v@[base + i]);
        let end: usize = v.len();
        assert(base + i < end);
        if lower_char(v[base + i]) != lower_char(w[i]) {
            return false;
        }
        i += 1;
    }
    true
}

/// The lower case of a letter of the alphabet.
pub fn lower_char(c: char) -> (r: char)
    ensures
        r == lower(c),
{
    if 'A' <= c && c <= 'Z' {
        ((c as u8) + 32) as char
    } else {
        c
    }
}

/// Whether the characters from `from` on are digits.
fn are_digits(v: &Vec<char>, from: usize) -> (r: bool)
    requires
        from <= v@.len(),
    ensures
        r == all_digits(v@.subrange(from as int, v@.len() as int)),
{
    let ghost d = v@.subrange(from as int, v@.len() as int);
    let mut i: usize = from;
    while i < v.len()
        invariant
            from <= i <= v@.len(),
            d == v@.subrange(from as int, v@.len() as int),
            forall|j: int| 0 <= j < i - from ==> is_digit(#[trigger] d[j]),
        decreases v@.len() - i,
    {
        assert(d[i - from] == v@[i as int]);
        if !('0' <= v[i] && v[i] <= '9') {
            return false;
        }
        i += 1;
    }
    true
}

/// Whether the characters from `base` on are an unsigned number.
fn scan(v: &Vec<char>, base: usize) -> (r: bool)
    requires
        base <= v@.len(),
    ensures
        r == is_decimal(v@.subrange(base as int, v@.len() as int)),
{
    let ghost s = v@.subrange(base as int, v@.len() as int);
    let n: usize = find_digit_end(v, base, base);
    assert(n < v@.len() ==> s[n - base] == v@[n as int]);
    let m: usize = if n < v.len() && v[n] == '.' {
        find_digit_end(v, base, n + 1)
    } else {
        n
    };
    assert(m < v@.len() ==> s[m - base] == v@[m as int]);
    if !(n > base || m - n > 1) {
        return false;
    }
    if m == v.len() {
        return true;
    }
    if v[m] != 'e' && v[m] != 'E' {
        return false;
    }
    let ghost t = v@.subrange(m + 1, v@.len() as int);
    assert(s.subrange(m - base + 1, s.len() as int) =~= t);
    let from: usize = if m + 1 < v.len() && (v[m + 1] == '+' || v[m + 1] == '-') {
        m + 2
    } else {
        m + 1
    };
    proof {
        if m + 1 < v@.len() {
            assert(t[0] == v@[m + 1]);
        }
        assert(after_sign(t) =~= v@.subrange(from as int, v@.len() as int));
    }
    from < v.len() && are_digits(v, from)
}

/// Whether a text is that of a number with an optional sign and point.
pub fn check_number(s: &str) -> (r: bool)
    ensures
        r == is_number(s@),
{
    let v = chars_of(s);
    let base: usize = if v.len() > 0 && (v[0] == '+' || v[0] == '-') {
        1
    } else {
        0
    };
    assert(v@.subrange(base as int, v@.len() as int) =~= after_sign(s@));
    is_word(&v, base, "inf") || is_word(&v, base, "infinity") || is_word(&v, base, "nan") || scan(
        &v,
        base,
    )
}

proof fn lemma_leading_grows(d: Seq<char>, i: int, p: int)
    requires
        i <= p,
    ensures
        leading(d, i) <= leading(d, p),
        i >= d.len() && leading(d, i) == 0 ==> leading(d, p) == 0,
        i >= d.len() && leading(d, i) > 0 && p > i ==> leading(d, p) >= leading(d, i) * 10,
    decreases p - i,
{
    if i < p {
        lemma_leading_grows(d, i, p - 1);
        if p <= 0 {
        } else {
            assert(leading(d, p) >= leading(d, p - 1) * 10);
        }
    }
}

/// The whole number made of the first `p` digits, at most what 32 bits hold.
fn leading_digits(d: &Vec<char>, p: i128) -> (r: u32)
    requires
        forall|i: int| 0 <= i < d@.len() ==> is_digit(#[trigger] d@[i]),
    ensures
        r == (if leading(d@, p as int) > u32::MAX {
            u32::MAX as nat
        } else {
            leading(d@, p as int)
        }),
{
    if p <= 0 {
        return 0;
    }
    let mut acc: u64 = 0;
    let mut i: usize = 0;
    while i < d.len() && (i as i128) < p
        invariant
            i <= d@.len(),
            0 <= i <= p,
            acc == leading(d@, i as int),
            acc <= u32::MAX,
            forall|i: int| 0 <= i < d@.len() ==> is_digit(#[trigger] d@[i]),
        decreases d@.len() - i,
    {
        assert(is_digit(d@[i as int]));
        acc = acc * 10 + (d[i] as u64 - 48);
        i += 1;
        if acc > u32::MAX as u64 {
            proof {
                lemma_leading_grows(d@, i as int, p as int);
            }
            return u32::MAX;
        }
    }
    if acc == 0 {
        proof {
            lemma_leading_grows(d@, i as int, p as int);
        }
        return 0;
    }
    let mut j: i128 = i as i128;
    while j < p
        invariant
            0 <= i <= j <= p,
            j > i ==> i == d@.len(),
            i < p ==> i == d@.len(),
            acc == leading(d@, j as int),
            0 < acc <= u32::MAX,
        decreases p - j,
    {
        acc = acc * 10;
        j += 1;
        if acc > u32::MAX as u64 {
            proof {
                lemma_leading_grows(d@, j as int, p as int);
            }
            return u32::MAX;
        }
    }
    acc as u32
}

/// Reads a number of seconds as whole milliseconds, at most what 32 bits hold.
pub fn parse_millis(s: &str) -> (r: Option<u32>)
    ensures
        text::opt_nat32(r) == millis(s@),
{
    let (whole, fraction) = match text::split_once(s, '.') {
        Some(p) => p,
        None => {
            if !text::only_digits(s) {
                return None;
            }
            let v = chars_of(s);
            return Some(leading_digits(&v, v.len() as i128 + 3));
        },
    };
    if !text::only_digits(whole) || !text::only_digits(fraction) {
        return None;
    }
    let mut digits = chars_of(whole);
    let mut behind = chars_of(fraction);
    let point: i128 = digits.len() as i128;
    digits.append(&mut behind);
    Some(leading_digits(&digits, point + 3))
}

proof fn lemma_leading_is_value(d: Seq<char>, p: int)
    requires
        0 <= p <= d.len(),
    ensures
        leading(d, p) == digits_value(d.take(p)),
    decreases p,
{
    if p == 0 {
        assert(d.take(0) =~= Seq::empty());
    } else {
        lemma_leading_is_value(d, p - 1);
        assert(d.take(p).drop_last() =~= d.take(p - 1));
        assert(d.take(p).last() == d[p - 1]);
    }
}

/// The thousandths that the digits behind a point stand for: the first is a tenth, the second a
/// hundredth, the third a thousandth; those behind are cut off.
pub open spec fn thousandths(f: Seq<char>) -> int {
    (if f.len() > 0 {
        (f[0] as int - '0' as int) * 100
    } else {
        0
    }) + (if f.len() > 1 {
        (f[1] as int - '0' as int) * 10
    } else {
        0
    }) + (if f.len() > 2 {
        f[2] as int - '0' as int
    } else {
        0
    })
}

/// Seconds with digits behind a point are read as whole milliseconds, a thousand to the second,
/// up to what 32 bits hold.
#[verifier::rlimit(40)]
pub proof fn law_a_second_is_a_thousand_milliseconds(w: Seq<char>, f: Seq<char>)
    requires
        w.len() > 0,
        all_digits(w),
        all_digits(f),
        f.len() > 0,
    ensures
        ({
            let ms = digits_value(w) * 1000 + thousandths(f);
            &&& millis(w + seq!['.'] + f) == Some(
                if ms > u32::MAX {
                    u32::MAX as nat
                } else {
                    ms as nat
                },
            )
            &&& millis(w) == Some(
                if digits_value(w) * 1000 > u32::MAX {
                    u32::MAX as nat
                } else {
                    (digits_value(w) * 1000) as nat
                },
            )
        }),
{
    assert(!w.contains('.')) by {
        if w.contains('.') {
            let i = choose|i: int| 0 <= i < w.len() && w[i] == '.';
            assert(is_digit(w[i]));
        }
    }
    text::law_parted_at_the_first(w, '.', f);
    let d = w + f;
    let n = w.len() as int;
    lemma_leading_is_value(d, n);
    assert(d.take(n) =~= w);
    lemma_leading_is_value(w, n);
    assert(w.take(n) =~= w);
    reveal_with_fuel(leading, 4);
    assert(d[n] == f[0]);
    assert(is_digit(f[0]));
    if f.len() > 1 {
        assert(d[n + 1] == f[1]);
        assert(is_digit(f[1]));
    }
    if f.len() > 2 {
        assert(d[n + 2] == f[2]);
        assert(is_digit(f[2]));
    }
    assert(leading(d, n + 3) == digits_value(w) * 1000 + thousandths(f));
    assert(leading(w, n + 3) == digits_value(w) * 1000);
}

/// The capital letters from A to Z give way to the small ones, and no other character changes.
pub proof fn law_only_capitals_change(c: char)
    ensures
        'A' <= c <= 'Z' ==> lower(c) as int == c as int + 32 && 'a' <= lower(c) <= 'z',
        !('A' <= c <= 'Z') ==> lower(c) == c,
{
}

/// Digits are a number: alone, behind a sign, with a point among, before or behind them, and with a
/// power of ten behind them.
#[verifier::rlimit(40)]
pub proof fn law_what_is_a_number(d: Seq<char>, f: Seq<char>, x: Seq<char>)
    requires
        d.len() > 0,
        all_digits(d),
        f.len() > 0,
        all_digits(f),
        x.len() > 0,
        all_digits(x),
    ensures
        is_number(d),
        is_number(seq!['-'] + d),
        is_number(seq!['+'] + d),
        is_number(d + seq!['.']),
        is_number(d + seq!['.'] + f),
        is_number(seq!['.'] + f),
        is_number(d + seq!['e'] + x),
        is_number(d + seq!['E'] + x),
        is_number(d + seq!['e', '-'] + x),
        is_number(d + seq!['.'] + f + seq!['e', '+'] + x),
        !is_number(Seq::empty()),
        !is_number(seq!['.']),
        !is_number(d + seq!['e']),
        !is_number(seq!['-', '-'] + d),
{
    let none = Seq::<char>::empty();
    lemma_words();
    assert(is_digit(d[0]) && is_digit(f[0]) && is_digit(x[0]));
    // Digits alone, and behind a sign.
    lemma_run(d, none);
    assert(d + none =~= d);
    let minus = seq!['-'] + d;
    let plus = seq!['+'] + d;
    assert(after_sign(minus) =~= d);
    assert(after_sign(plus) =~= d);
    assert(after_sign(d) == d);
    // With a point.
    let a = d + seq!['.'];
    lemma_run(d, seq!['.']);
    assert(after_sign(a) == a);
    assert(digit_end(a, d.len() as int + 1) == d.len() + 1);
    let b = d + seq!['.'] + f;
    lemma_run(d, seq!['.'] + f);
    assert(b =~= d + (seq!['.'] + f));
    lemma_run_behind(d + seq!['.'], f, none);
    assert(d + seq!['.'] + f + none =~= b);
    assert(after_sign(b) == b);
    let c = seq!['.'] + f;
    lemma_run_behind(seq!['.'], f, none);
    assert(seq!['.'] + f + none =~= c);
    assert(after_sign(c) == c);
    assert(c[0] == '.');
    // With a power of ten.
    let e = d + seq!['e'] + x;
    lemma_run(d, seq!['e'] + x);
    assert(e =~= d + (seq!['e'] + x));
    assert(e.subrange(d.len() as int + 1, e.len() as int) =~= x);
    assert(after_sign(x) == x);
    assert(after_sign(e) == e);
    let g = d + seq!['E'] + x;
    lemma_run(d, seq!['E'] + x);
    assert(g =~= d + (seq!['E'] + x));
    assert(g.subrange(d.len() as int + 1, g.len() as int) =~= x);
    assert(after_sign(g) == g);
    let h = d + seq!['e', '-'] + x;
    lemma_run(d, seq!['e', '-'] + x);
    assert(h =~= d + (seq!['e', '-'] + x));
    assert(h.subrange(d.len() as int + 1, h.len() as int) =~= seq!['-'] + x);
    assert(after_sign(seq!['-'] + x) =~= x);
    assert(after_sign(h) == h);
    let k = d + seq!['.'] + f + seq!['e', '+'] + x;
    lemma_run(d, seq!['.'] + f + seq!['e', '+'] + x);
    assert(k =~= d + (seq!['.'] + f + seq!['e', '+'] + x));
    lemma_run_behind(d + seq!['.'], f, seq!['e', '+'] + x);
    assert(d + seq!['.'] + f + (seq!['e', '+'] + x) =~= k);
    let m = d.len() as int + 1 + f.len();
    assert(k[m] == 'e');
    assert(k.subrange(m + 1, k.len() as int) =~= seq!['+'] + x);
    assert(after_sign(seq!['+'] + x) =~= x);
    assert(after_sign(k) == k);
    // What is none.
    let p = seq!['.'];
    assert(after_sign(p) == p);
    assert(digit_end(p, 0) == 0);
    assert(digit_end(p, 1) == 1);
    assert(digit_end(none, 0) == 0);
    let q = d + seq!['e'];
    lemma_run(d, seq!['e']);
    assert(after_sign(q) == q);
    assert(q.subrange(d.len() as int + 1, q.len() as int) =~= none);
    let r = seq!['-', '-'] + d;
    assert(after_sign(r) =~= minus);
    assert(digit_end(minus, 0) == 0);
}

/// The words for what is infinite and for what is no number begin with letters, and are not empty.
proof fn lemma_words()
    ensures
        forall|t: Seq<char>|
            #![trigger same_letters(t, "inf"@)]
            t.len() == 0 || t[0] == '.' || t[0] == '-' || is_digit(t[0]) ==> !same_letters(t, "inf"@),
        forall|t: Seq<char>|
            #![trigger same_letters(t, "infinity"@)]
            t.len() == 0 || t[0] == '.' || t[0] == '-' || is_digit(t[0]) ==> !same_letters(
                t,
                "infinity"@,
            ),
        forall|t: Seq<char>|
            #![trigger same_letters(t, "nan"@)]
            t.len() == 0 || t[0] == '.' || t[0] == '-' || is_digit(t[0]) ==> !same_letters(t, "nan"@),
{
    reveal_strlit("inf");
    reveal_strlit("infinity");
    reveal_strlit("nan");
    assert("inf"@.len() == 3 && "inf"@[0] == 'i');
    assert("infinity"@.len() == 8 && "infinity"@[0] == 'i');
    assert("nan"@.len() == 3 && "nan"@[0] == 'n');
    assert forall|t: Seq<char>| #[trigger]
        same_letters(t, "inf"@) implies t.len() > 0 && t[0] != '.' && t[0] != '-' && !is_digit(
        t[0],
    ) by {
        assert(lower(t[0]) == lower("inf"@[0]));
    }
    assert forall|t: Seq<char>| #[trigger]
        same_letters(t, "infinity"@) implies t.len() > 0 && t[0] != '.' && t[0] != '-' && !is_digit(
        t[0],
    ) by {
        assert(lower(t[0]) == lower("infinity"@[0]));
    }
    assert forall|t: Seq<char>| #[trigger]
        same_letters(t, "nan"@) implies t.len() > 0 && t[0] != '.' && t[0] != '-' && !is_digit(
        t[0],
    ) by {
        assert(lower(t[0]) == lower("nan"@[0]));
    }
}

/// A run of digits ends where something else follows.
proof fn lemma_run(d: Seq<char>, rest: Seq<char>)
    requires
        all_digits(d),
        rest.len() == 0 || !is_digit(rest[0]),
    ensures
        digit_end(d + rest, 0) == d.len(),
{
    lemma_run_behind(Seq::empty(), d, rest);
    assert(Seq::<char>::empty() + d + rest =~= d + rest);
}

/// The same behind something.
proof fn lemma_run_behind(before: Seq<char>, d: Seq<char>, rest: Seq<char>)
    requires
        all_digits(d),
        rest.len() == 0 || !is_digit(rest[0]),
    ensures
        digit_end(before + d + rest, before.len() as int) == before.len() + d.len(),
    decreases d.len(),
{
    let s = before + d + rest;
    if d.len() == 0 {
        if rest.len() > 0 {
            assert(s[before.len() as int] == rest[0]);
        }
    } else {
        assert(s[before.len() as int] == d[0]);
        assert(is_digit(d[0]));
        let b = before.push(d[0]);
        let e = d.drop_first();
        assert forall|i: int| 0 <= i < e.len() implies is_digit(#[trigger] e[i]) by {
            assert(e[i] == d[i + 1]);
        }
        lemma_run_behind(b, e, rest);
        assert(b + e + rest =~= s);
    }
}

/// Nothing is read as seconds but digits, with at most a point among them.
pub proof fn law_only_plain_numbers_are_seconds(s: Seq<char>)
    requires
        millis(s) is Some,
    ensures
        s.len() > 0,
        is_digit(s[0]),
        is_digit(s.last()),
        forall|i: int| 0 <= i < s.len() ==> is_digit(#[trigger] s[i]) || s[i] == '.',
        forall|i: int, j: int| 0 <= i < j < s.len() && #[trigger] s[i] == '.' ==> is_digit(#[trigger] s[j]),
{
    text::lemma_next_char(s, '.', 0);
    match parted(s, '.') {
        Some((whole, fraction)) => {
            let p = whole.len() as int;
            assert(is_digit(whole[0]) && is_digit(fraction[fraction.len() - 1]));
            assert forall|i: int| 0 <= i < s.len() implies (if i == p {
                s[i] == '.'
            } else {
                is_digit(#[trigger] s[i])
            }) by {
                if i < p {
                    assert(is_digit(whole[i]));
                } else if i > p {
                    assert(is_digit(fraction[i - p - 1]));
                }
            }
        },
        None => {},
    }
}

} // verus!
