//! Strings as sequences of characters: building, comparing, cutting and reading numbers.

use vstd::prelude::*;

verus! {

/// `String::push` appends one character to the end of the string.
pub assume_specification[ String::push ](s: &mut String, c: char)
    ensures
        final(s)@ == old(s)@.push(c),
;

/// The characters of a string.
pub fn chars_of(s: &str) -> (r: Vec<char>)
    ensures
        r@ == s@,
{
    let mut out: Vec<char> = Vec::new();
    for c in it: s.chars()
        invariant
            it.seq() == s@,
            out@ == s@.take(it.index() as int),
    {
        assert(s@.take(it.index() + 1) =~= s@.take(it.index() as int).push(c));
        out.push(c);
    }
    assert(s@.take(s@.len() as int) =~= s@);
    out
}

/// The string made of the characters from `from` up to `to`.
pub fn text_of(v: &Vec<char>, from: usize, to: usize) -> (r: String)
    requires
        from <= to <= v@.len(),
    ensures
        r@ == v@.subrange(from as int, to as int),
{
    let mut out = String::new();
    let mut i: usize = from;
    assert(v@.subrange(from as int, from as int) =~= Seq::empty());
    while i < to
        invariant
            from <= i <= to <= v@.len(),
            out@ == v@.subrange(from as int, i as int),
        decreases to - i,
    {
        assert(v@.subrange(from as int, i + 1) =~= v@.subrange(from as int, i as int).push(
            v@[i as int],
        ));
        out.push(v[i]);
        i += 1;
    }
    out
}

/// Whether two strings hold the same characters.
pub fn same(a: &str, b: &str) -> (r: bool)
    ensures
        r == (a@ == b@),
{
    let x = a.as_bytes();
    let y = b.as_bytes();
    proof {
        vstd::utf8::encode_utf8_decode_utf8(a@);
        vstd::utf8::encode_utf8_decode_utf8(b@);
    }
    if x.len() != y.len() {
        return false;
    }
    let mut i: usize = 0;
    while i < x.len()
        invariant
            i <= x@.len(),
            x@.len() == y@.len(),
            x@ == vstd::utf8::encode_utf8(a@),
            y@ == vstd::utf8::encode_utf8(b@),
            forall|j: int| 0 <= j < i ==> x@[j] == y@[j],
        decreases x@.len() - i,
    {
        if x[i] != y[i] {
            return false;
        }
        i += 1;
    }
    assert(x@ =~= y@);
    true
}

/// `std::str::from_utf8` takes bytes as text: it gives the characters that the bytes encode, and
/// nothing where the bytes are not valid UTF-8.
#[verifier::external_body]
pub(crate) fn utf8_text(bytes: &[u8]) -> (r: Option<&str>)
    ensures
        r is Some <==> vstd::utf8::valid_utf8(bytes@),
        r is Some ==> r->0@ == vstd::utf8::decode_utf8(bytes@),
{
    std::str::from_utf8(bytes).ok()
}

/// Two strings, one after the other.
pub fn join2(a: &str, b: &str) -> (r: String)
    ensures
        r@ == a@ + b@,
{
    let mut out = a.to_owned();
    out.append(b);
    out
}

/// Three strings, one after the other.
pub fn join3(a: &str, b: &str, c: &str) -> (r: String)
    ensures
        r@ == a@ + b@ + c@,
{
    let mut out = a.to_owned();
    out.append(b);
    out.append(c);
    out
}

/// A text in lower case.
pub uninterp spec fn lowercase(s: Seq<char>) -> Seq<char>;

/// `s` holds ASCII characters alone.
pub open spec fn is_ascii_text(s: Seq<char>) -> bool {
    forall|i: int| 0 <= i < s.len() ==> (#[trigger] s[i]) as int <= 0x7f
}

/// `str::to_lowercase` gives a text in lower case as Unicode has it. What it does to a text is
/// left to the name, but for one thing: in a text of ASCII characters the capital letters give
/// way to the small ones, and every other character stays.
#[verifier::external_body]
pub(crate) fn to_lowercase(s: &str) -> (r: String)
    ensures
        r@ == lowercase(s@),
        is_ascii_text(s@) ==> r@ == s@.map_values(|c: char| crate::number::lower(c)),
{
    s.to_lowercase()
}

/// `s` begins with `p`.
pub open spec fn begins(s: Seq<char>, p: Seq<char>) -> bool {
    p.len() <= s.len() && s.subrange(0, p.len() as int) == p
}

/// `s` ends with `p`.
pub open spec fn finishes(s: Seq<char>, p: Seq<char>) -> bool {
    p.len() <= s.len() && s.subrange(s.len() - p.len(), s.len() as int) == p
}

/// What follows the prefix `p`, where `s` has it.
pub open spec fn after_prefix(s: Seq<char>, p: Seq<char>) -> Option<Seq<char>> {
    if begins(s, p) {
        Some(s.subrange(p.len() as int, s.len() as int))
    } else {
        None
    }
}

/// What precedes the suffix `p`, where `s` has it.
pub open spec fn before_suffix(s: Seq<char>, p: Seq<char>) -> Option<Seq<char>> {
    if finishes(s, p) {
        Some(s.subrange(0, s.len() - p.len()))
    } else {
        None
    }
}

/// The view of an optional string.
pub open spec fn opt_view(o: Option<&str>) -> Option<Seq<char>> {
    match o {
        Some(s) => Some(s@),
        None => None,
    }
}

/// The view of an optional owned string.
pub open spec fn opt_text(o: Option<String>) -> Option<Seq<char>> {
    match o {
        Some(s) => Some(s@),
        None => None,
    }
}

/// The views of the strings of a list.
pub open spec fn texts(v: Seq<String>) -> Seq<Seq<char>> {
    v.map_values(|s: String| s@)
}

/// Cuts the prefix `p` off `s`.
pub fn strip_prefix<'a>(s: &'a str, p: &str) -> (r: Option<&'a str>)
    ensures
        opt_view(r) == after_prefix(s@, p@),
{
    let n: usize = p.unicode_len();
    let len: usize = s.unicode_len();
    if n <= len && same(s.substring_char(0, n), p) {
        Some(s.substring_char(n, len))
    } else {
        None
    }
}

/// Cuts the suffix `p` off `s`.
pub fn strip_suffix<'a>(s: &'a str, p: &str) -> (r: Option<&'a str>)
    ensures
        opt_view(r) == before_suffix(s@, p@),
{
    let n: usize = p.unicode_len();
    let len: usize = s.unicode_len();
    if n <= len && same(s.substring_char(len - n, len), p) {
        Some(s.substring_char(0, len - n))
    } else {
        None
    }
}

/// Whether `s` begins with `p`.
pub fn starts_with(s: &str, p: &str) -> (r: bool)
    ensures
        r == begins(s@, p@),
{
    strip_prefix(s, p).is_some()
}

/// The place of the first `c` at or after `from`; the length where there is none.
pub open spec fn next_char(s: Seq<char>, c: char, from: int) -> int
    decreases s.len() - from,
{
    if from >= s.len() {
        s.len() as int
    } else if s[from] == c {
        from
    } else {
        next_char(s, c, from + 1)
    }
}

pub proof fn lemma_next_char(s: Seq<char>, c: char, from: int)
    requires
        0 <= from <= s.len(),
    ensures
        from <= next_char(s, c, from) <= s.len(),
        next_char(s, c, from) < s.len() ==> s[next_char(s, c, from)] == c,
        forall|j: int| from <= j < next_char(s, c, from) ==> s[j] != c,
    decreases s.len() - from,
{
    if from < s.len() && s[from] != c {
        lemma_next_char(s, c, from + 1);
    }
}

/// A place that holds `c`, with no `c` between `from` and it, is the next one.
pub proof fn lemma_next_char_is(s: Seq<char>, c: char, from: int, at: int)
    requires
        0 <= from <= at <= s.len(),
        at < s.len() ==> s[at] == c,
        forall|j: int| from <= j < at ==> s[j] != c,
    ensures
        next_char(s, c, from) == at,
    decreases at - from,
{
    if from < at {
        lemma_next_char_is(s, c, from + 1, at);
    }
}

/// `s` holds `p` at the place `i`.
pub open spec fn occurs(s: Seq<char>, p: Seq<char>, i: int) -> bool {
    0 <= i && i + p.len() <= s.len() && s.subrange(i, i + p.len()) == p
}

/// The place of the first `p` at or after `from`.
pub open spec fn next_text(s: Seq<char>, p: Seq<char>, from: int) -> Option<int>
    decreases s.len() + 1 - from,
{
    if from < 0 || from + p.len() > s.len() {
        None
    } else if occurs(s, p, from) {
        Some(from)
    } else {
        next_text(s, p, from + 1)
    }
}

/// A place that holds `p`, with no such place between `from` and it, is the next one.
pub proof fn lemma_next_text_is(s: Seq<char>, p: Seq<char>, from: int, at: int)
    requires
        0 <= from <= at,
        occurs(s, p, at),
        forall|j: int| from <= j < at ==> !#[trigger] occurs(s, p, j),
    ensures
        next_text(s, p, from) == Some(at),
    decreases at - from,
{
    if from < at {
        assert(!occurs(s, p, from));
        lemma_next_text_is(s, p, from + 1, at);
    }
}

/// The place of the next `p` behind a text `a` is that in what follows `a`.
pub proof fn lemma_next_text_shift(a: Seq<char>, b: Seq<char>, p: Seq<char>, i: int)
    requires
        0 <= i <= b.len(),
    ensures
        next_text(a + b, p, a.len() + i) == (match next_text(b, p, i) {
            Some(j) => Some(a.len() + j),
            None => None,
        }),
        match next_text(b, p, i) {
            Some(j) => i <= j && j + p.len() <= b.len(),
            None => true,
        },
    decreases b.len() - i,
{
    let s = a + b;
    if i + p.len() <= b.len() {
        assert(s.subrange(a.len() + i, a.len() + i + p.len()) =~= b.subrange(i, i + p.len()));
        if !occurs(b, p, i) {
            if i < b.len() {
                lemma_next_text_shift(a, b, p, i + 1);
            } else {
                assert(b.subrange(i, i + p.len()) =~= p);
            }
        }
    }
}

/// The place of the next `c` behind a text `a` is that in what follows `a`.
pub proof fn lemma_next_char_behind(a: Seq<char>, b: Seq<char>, c: char, i: int)
    requires
        0 <= i <= b.len(),
    ensures
        next_char(a + b, c, a.len() + i) == a.len() + next_char(b, c, i),
    decreases b.len() - i,
{
    if i < b.len() {
        assert((a + b)[a.len() + i] == b[i]);
        if b[i] != c {
            lemma_next_char_behind(a, b, c, i + 1);
        }
    }
}

/// Whether `v` holds `p` at the place `i`.
fn occurs_at(v: &Vec<char>, p: &Vec<char>, i: usize) -> (r: bool)
    requires
        i + p@.len() <= v@.len(),
    ensures
        r == occurs(v@, p@, i as int),
{
    let n: usize = v.len();
    assert(i + p@.len() <= n);
    let mut j: usize = 0;
    while j < p.len()
        invariant
            j <= p@.len(),
            i + p@.len() <= v@.len(),
            v@.len() == n,
            forall|k: int| 0 <= k < j ==> v@[i + k] == p@[k],
        decreases p@.len() - j,
    {
        if v[i + j] != p[j] {
            assert(v@.subrange(i as int, i + p@.len())[j as int] == v@[i + j]);
            return false;
        }
        j += 1;
    }
    assert(v@.subrange(i as int, i + p@.len()) =~= p@);
    true
}

/// The place of the next `p`.
pub fn find_text(v: &Vec<char>, p: &Vec<char>, from: usize) -> (r: Option<usize>)
    requires
        from <= v@.len(),
    ensures
        match r {
            Some(i) => next_text(v@, p@, from as int) == Some(i as int) && from <= i && i + p@.len()
                <= v@.len(),
            None => next_text(v@, p@, from as int) is None,
        },
{
    let n: usize = v.len();
    let m: usize = p.len();
    if m > n {
        return None;
    }
    let mut i: usize = from;
    while i <= n - m
        invariant
            from <= i <= n,
            n == v@.len(),
            m == p@.len(),
            m <= n,
            next_text(v@, p@, from as int) == next_text(v@, p@, i as int),
        decreases n - i,
    {
        if occurs_at(v, p, i) {
            return Some(i);
        }
        assert(next_text(v@, p@, i as int) == next_text(v@, p@, i + 1));
        if i == n {
            assert(next_text(v@, p@, i + 1) is None);
            return None;
        }
        i += 1;
    }
    None
}

/// The two parts of `s` around its first `c`.
pub open spec fn parted(s: Seq<char>, c: char) -> Option<(Seq<char>, Seq<char>)> {
    let i = next_char(s, c, 0);
    if i < s.len() {
        Some((s.subrange(0, i), s.subrange(i + 1, s.len() as int)))
    } else {
        None
    }
}

/// The place of the next `c`.
pub fn find_char(v: &Vec<char>, c: char, from: usize) -> (r: usize)
    requires
        from <= v@.len(),
    ensures
        r == next_char(v@, c, from as int),
        from <= r <= v@.len(),
        r < v@.len() ==> v@[r as int] == c,
{
    let mut i: usize = from;
    while i < v.len()
        invariant
            from <= i <= v@.len(),
            next_char(v@, c, from as int) == next_char(v@, c, i as int),
        decreases v@.len() - i,
    {
        if v[i] == c {
            return i;
        }
        i += 1;
    }
    i
}

/// Whether `s` holds the character `c`.
pub fn has_char(s: &str, c: char) -> (r: bool)
    ensures
        r == s@.contains(c),
{
    let v = chars_of(s);
    let i: usize = find_char(&v, c, 0);
    proof {
        lemma_next_char(s@, c, 0);
        if i < s@.len() {
            assert(s@[i as int] == c);
        }
    }
    i < v.len()
}

/// Cuts `s` in two at its first `c`.
pub fn split_once<'a>(s: &'a str, c: char) -> (r: Option<(&'a str, &'a str)>)
    ensures
        match r {
            Some((a, b)) => parted(s@, c) == Some((a@, b@)),
            None => parted(s@, c) is None,
        },
{
    let v = chars_of(s);
    let i: usize = find_char(&v, c, 0);
    if i < v.len() {
        Some((s.substring_char(0, i), s.substring_char(i + 1, v.len())))
    } else {
        None
    }
}

/// The pieces of `s` between the occurrences of `c`.
pub open spec fn pieces(s: Seq<char>, c: char) -> Seq<Seq<char>>
    decreases s.len(),
{
    let i = next_char(s, c, 0);
    if 0 <= i < s.len() {
        seq![s.subrange(0, i)] + pieces(s.subrange(i + 1, s.len() as int), c)
    } else {
        seq![s]
    }
}

proof fn lemma_next_char_shift(s: Seq<char>, c: char, from: int, by: int)
    requires
        0 <= from,
        0 <= by,
        from + by <= s.len(),
    ensures
        next_char(s.subrange(from, s.len() as int), c, by) == next_char(s, c, from + by) - from,
    decreases s.len() - from - by,
{
    let t = s.subrange(from, s.len() as int);
    if by < t.len() {
        assert(t[by] == s[from + by]);
        if t[by] != c {
            lemma_next_char_shift(s, c, from, by + 1);
        }
    }
}

/// Cuts `s` at every `c`.
pub fn split(s: &str, c: char) -> (r: Vec<String>)
    ensures
        texts(r@) == pieces(s@, c),
{
    let v = chars_of(s);
    let mut out: Vec<String> = Vec::new();
    let mut start: usize = 0;
    assert(v@.subrange(0, v@.len() as int) =~= v@);
    assert(texts(out@) =~= Seq::<Seq<char>>::empty());
    assert(texts(out@) + pieces(v@, c) =~= pieces(v@, c));
    loop
        invariant
            start <= v@.len(),
            v@ == s@,
            pieces(s@, c) == texts(out@) + pieces(v@.subrange(start as int, v@.len() as int), c),
        decreases v@.len() - start,
    {
        let i: usize = find_char(&v, c, start);
        let piece = text_of(&v, start, i);
        let ghost t = v@.subrange(start as int, v@.len() as int);
        proof {
            lemma_next_char_shift(v@, c, start as int, 0);
            assert(t.subrange(0, i - start) =~= v@.subrange(start as int, i as int));
        }
        let ghost before = out@;
        out.push(piece);
        assert(texts(out@) =~= texts(before).push(piece@));
        if i < v.len() {
            assert(t.subrange(i - start + 1, t.len() as int) =~= v@.subrange(
                i + 1,
                v@.len() as int,
            ));
            assert(texts(before) + pieces(t, c) =~= texts(out@) + pieces(
                v@.subrange(i + 1, v@.len() as int),
                c,
            ));
            start = i + 1;
        } else {
            assert(t.subrange(0, i - start) =~= t);
            assert(texts(before) + pieces(t, c) =~= texts(out@));
            return out;
        }
    }
}

/// Texts in a row with a separator between them.
pub open spec fn joined(parts: Seq<Seq<char>>, sep: Seq<char>) -> Seq<char>
    decreases parts.len(),
{
    if parts.len() == 0 {
        Seq::empty()
    } else if parts.len() == 1 {
        parts[0]
    } else {
        joined(parts.drop_last(), sep) + sep + parts.last()
    }
}

/// Puts texts in a row with a separator between them.
pub fn join(parts: &Vec<String>, sep: &str) -> (r: String)
    ensures
        r@ == joined(texts(parts@), sep@),
{
    let mut out = String::new();
    let mut i: usize = 0;
    let ghost all = texts(parts@);
    assert(out@ =~= joined(all.take(0), sep@));
    while i < parts.len()
        invariant
            i <= parts@.len(),
            all == texts(parts@),
            out@ == joined(all.take(i as int), sep@),
        decreases parts@.len() - i,
    {
        proof {
            let t = all.take(i + 1);
            assert(t.drop_last() =~= all.take(i as int));
            assert(t.last() == parts@[i as int]@);
            if i == 0 {
                assert(joined(all.take(0), sep@) =~= Seq::empty());
                assert(out@ + parts@[0]@ =~= t[0]);
            }
        }
        if i > 0 {
            out.append(sep);
        }
        out.append(parts[i].as_str());
        i += 1;
    }
    assert(all.take(all.len() as int) =~= all);
    out
}

pub proof fn lemma_joined_front(first: Seq<char>, rest: Seq<Seq<char>>, sep: Seq<char>)
    requires
        rest.len() > 0,
    ensures
        joined(seq![first] + rest, sep) == first + sep + joined(rest, sep),
    decreases rest.len(),
{
    let all = seq![first] + rest;
    assert(all.drop_last() =~= seq![first] + rest.drop_last());
    assert(all.last() == rest.last());
    if rest.len() == 1 {
        assert(all.drop_last() =~= seq![first]);
        assert(joined(seq![first], sep) == first);
        assert(joined(rest, sep) == rest[0]);
    } else {
        lemma_joined_front(first, rest.drop_last(), sep);
        assert(joined(all, sep) =~= first + sep + joined(rest, sep));
    }
}

/// A text cut at each `c` and put together again with `c` between the pieces is the text.
pub proof fn law_pieces_join_up(s: Seq<char>, c: char)
    ensures
        pieces(s, c).len() > 0,
        joined(pieces(s, c), seq![c]) == s,
    decreases s.len(),
{
    lemma_next_char(s, c, 0);
    let i = next_char(s, c, 0);
    if i < s.len() {
        let rest = s.subrange(i + 1, s.len() as int);
        law_pieces_join_up(rest, c);
        lemma_joined_front(s.subrange(0, i), pieces(rest, c), seq![c]);
        assert(s.subrange(0, i) + seq![c] + rest =~= s);
    }
}

/// White space as Unicode has it.
pub open spec fn is_space(c: char) -> bool {
    ||| 0x9 <= c as int <= 0xd
    ||| c as int == 0x20
    ||| c as int == 0x85
    ||| c as int == 0xa0
    ||| c as int == 0x1680
    ||| 0x2000 <= c as int <= 0x200a
    ||| c as int == 0x2028
    ||| c as int == 0x2029
    ||| c as int == 0x202f
    ||| c as int == 0x205f
    ||| c as int == 0x3000
}

/// Whether `c` is white space.
pub fn space(c: char) -> (r: bool)
    ensures
        r == is_space(c),
        c == ' ' || c == '\t' || c == '\n' || c == '\r' ==> r,
        c == '\u{b}' || c == '\u{c}' || c == '\u{85}' || c == '\u{a0}' ==> r,
        c == '\u{1680}' || c == '\u{2028}' || c == '\u{2029}' || c == '\u{202f}' ==> r,
        c == '\u{205f}' || c == '\u{3000}' || '\u{2000}' <= c <= '\u{200a}' ==> r,
        '!' <= c <= '~' ==> !r,
        r && c as int >= 0x80 ==> c == '\u{85}' || c == '\u{a0}' || c == '\u{1680}' || '\u{2000}' <= c
            <= '\u{200a}' || c == '\u{2028}' || c == '\u{2029}' || c == '\u{202f}' || c == '\u{205f}'
            || c == '\u{3000}',
        r && (c as int) < 0x80 ==> c == ' ' || '\t' <= c <= '\r',
{
    let n: u32 = c as u32;
    (0x9 <= n && n <= 0xd) || n == 0x20 || n == 0x85 || n == 0xa0 || n == 0x1680 || (0x2000 <= n
        && n <= 0x200a) || n == 0x2028 || n == 0x2029 || n == 0x202f || n == 0x205f || n == 0x3000
}

/// `s` without the white space at its start.
pub open spec fn trimmed_start(s: Seq<char>) -> Seq<char>
    decreases s.len(),
{
    if s.len() > 0 && is_space(s[0]) {
        trimmed_start(s.subrange(1, s.len() as int))
    } else {
        s
    }
}

/// `s` without the white space at its end.
pub open spec fn trimmed_end(s: Seq<char>) -> Seq<char>
    decreases s.len(),
{
    if s.len() > 0 && is_space(s.last()) {
        trimmed_end(s.drop_last())
    } else {
        s
    }
}

/// `s` without white space at either end.
pub open spec fn trimmed(s: Seq<char>) -> Seq<char> {
    trimmed_end(trimmed_start(s))
}

/// Cuts the white space off the start.
pub fn trim_start(s: &str) -> (r: &str)
    ensures
        r@ == trimmed_start(s@),
{
    let v = chars_of(s);
    let mut i: usize = 0;
    assert(v@.subrange(0, v@.len() as int) =~= v@);
    while i < v.len() && space(v[i])
        invariant
            i <= v@.len(),
            v@ == s@,
            trimmed_start(s@) == trimmed_start(v@.subrange(i as int, v@.len() as int)),
        decreases v@.len() - i,
    {
        let ghost t = v@.subrange(i as int, v@.len() as int);
        assert(t[0] == v@[i as int]);
        assert(t.subrange(1, t.len() as int) =~= v@.subrange(i + 1, v@.len() as int));
        i += 1;
    }
    proof {
        let t = v@.subrange(i as int, v@.len() as int);
        if i < v@.len() {
            assert(t[0] == v@[i as int]);
        }
        assert(trimmed_start(t) == t);
    }
    s.substring_char(i, v.len())
}

/// Cuts the white space off the end.
pub fn trim_end(s: &str) -> (r: &str)
    ensures
        r@ == trimmed_end(s@),
{
    let v = chars_of(s);
    let mut n: usize = v.len();
    assert(v@.subrange(0, v@.len() as int) =~= v@);
    while n > 0 && space(v[n - 1])
        invariant
            n <= v@.len(),
            v@ == s@,
            trimmed_end(s@) == trimmed_end(v@.subrange(0, n as int)),
        decreases n,
    {
        let ghost t = v@.subrange(0, n as int);
        assert(t.last() == v@[n - 1]);
        assert(t.drop_last() =~= v@.subrange(0, n - 1));
        n -= 1;
    }
    proof {
        let t = v@.subrange(0, n as int);
        if n > 0 {
            assert(t.last() == v@[n - 1]);
        }
        assert(trimmed_end(t) == t);
    }
    s.substring_char(0, n)
}

/// Cuts the white space off both ends.
pub fn trim(s: &str) -> (r: &str)
    ensures
        r@ == trimmed(s@),
{
    trim_end(trim_start(s))
}

/// `c` is one of the ten decimal digits.
pub open spec fn is_digit(c: char) -> bool {
    '0' <= c <= '9'
}

/// The number a decimal digit stands for.
pub open spec fn digit_value(c: char) -> nat {
    (c as int - '0' as int) as nat
}

/// The digit for a number below ten.
pub open spec fn digit_char(d: nat) -> char {
    ('0' as int + d) as char
}

/// `s` holds decimal digits alone.
pub open spec fn all_digits(s: Seq<char>) -> bool {
    forall|i: int| 0 <= i < s.len() ==> is_digit(#[trigger] s[i])
}

/// The number a row of decimal digits stands for.
pub open spec fn digits_value(s: Seq<char>) -> nat
    decreases s.len(),
{
    if s.len() == 0 {
        0
    } else {
        digits_value(s.drop_last()) * 10 + digit_value(s.last())
    }
}

/// A number written in decimal.
pub open spec fn decimal(n: nat) -> Seq<char>
    decreases n,
{
    if n < 10 {
        seq![digit_char(n)]
    } else {
        decimal(n / 10).push(digit_char(n % 10))
    }
}

/// The number that a text with an optional plus sign stands for, where it is one up to `max`.
pub open spec fn unsigned(s: Seq<char>, max: nat) -> Option<nat> {
    let d = if s.len() > 0 && s[0] == '+' {
        s.subrange(1, s.len() as int)
    } else {
        s
    };
    if d.len() > 0 && all_digits(d) && digits_value(d) <= max {
        Some(digits_value(d))
    } else {
        None
    }
}

/// The number that a text with an optional sign stands for, where 64 bits hold it.
pub open spec fn signed(s: Seq<char>) -> Option<int> {
    if s.len() > 0 && s[0] == '-' {
        let d = s.subrange(1, s.len() as int);
        if d.len() > 0 && all_digits(d) && digits_value(d) <= 0x8000_0000_0000_0000 {
            Some(-(digits_value(d) as int))
        } else {
            None
        }
    } else {
        match unsigned(s, 0x7fff_ffff_ffff_ffff) {
            Some(n) => Some(n as int),
            None => None,
        }
    }
}

/// An optional machine number as a mathematical one.
pub open spec fn opt_nat(o: Option<u64>) -> Option<nat> {
    match o {
        Some(n) => Some(n as nat),
        None => None,
    }
}

/// An optional machine number as a mathematical one.
pub open spec fn opt_nat32(o: Option<u32>) -> Option<nat> {
    match o {
        Some(n) => Some(n as nat),
        None => None,
    }
}

/// An optional signed machine number as a mathematical one.
pub open spec fn opt_int(o: Option<i64>) -> Option<int> {
    match o {
        Some(n) => Some(n as int),
        None => None,
    }
}

pub proof fn lemma_digits_prefix(s: Seq<char>, i: int)
    requires
        0 <= i <= s.len(),
    ensures
        digits_value(s.subrange(0, i)) <= digits_value(s),
    decreases s.len() - i,
{
    if i < s.len() {
        lemma_digits_prefix(s, i + 1);
        let t = s.subrange(0, i + 1);
        assert(t.drop_last() =~= s.subrange(0, i));
        assert(digits_value(t) == digits_value(t.drop_last()) * 10 + digit_value(t.last()));
    } else {
        assert(s.subrange(0, i) =~= s);
    }
}

/// The value of the digits from `from` on, where it is at most `max`.
pub fn digits_from(v: &Vec<char>, from: usize, max: u64) -> (r: Option<u64>)
    requires
        from <= v@.len(),
    ensures
        ({
            let d = v@.subrange(from as int, v@.len() as int);
            opt_nat(r) == (if d.len() > 0 && all_digits(d) && digits_value(d) <= max {
                Some(digits_value(d))
            } else {
                None
            })
        }),
{
    let ghost d = v@.subrange(from as int, v@.len() as int);
    if from == v.len() {
        return None;
    }
    let mut acc: u64 = 0;
    let mut i: usize = from;
    assert(d.subrange(0, 0) =~= Seq::empty());
    while i < v.len()
        invariant
            from <= i <= v@.len(),
            d == v@.subrange(from as int, v@.len() as int),
            acc == digits_value(d.subrange(0, i - from)),
            acc <= max,
            forall|j: int| 0 <= j < i - from ==> is_digit(#[trigger] d[j]),
        decreases v@.len() - i,
    {
        let c = v[i];
        assert(d[i - from] == c);
        if !('0' <= c && c <= '9') {
            assert(!all_digits(d));
            return None;
        }
        let n: u64 = c as u64 - 48;
        let ghost t = d.subrange(0, i - from + 1);
        proof {
            assert(t.drop_last() =~= d.subrange(0, i - from));
            assert(digits_value(t) == acc * 10 + n);
            lemma_digits_prefix(d, i - from + 1);
        }
        if n > max || acc > max / 10 || acc * 10 > max - n {
            assert(digits_value(t) > max) by (nonlinear_arith)
                requires
                    digits_value(t) == acc * 10 + n,
                    acc > max / 10 || acc * 10 > max - n || n > max,
                    acc >= 0,
                    n >= 0,
            ;
            return None;
        }
        acc = acc * 10 + n;
        i += 1;
    }
    assert(d.subrange(0, v@.len() - from) =~= d);
    assert(all_digits(d));
    Some(acc)
}

/// Whether a text is one digit or more, and nothing else.
pub fn only_digits(s: &str) -> (r: bool)
    ensures
        r == (s@.len() > 0 && all_digits(s@)),
{
    let v = chars_of(s);
    if v.len() == 0 {
        return false;
    }
    let mut i: usize = 0;
    while i < v.len()
        invariant
            i <= v@.len(),
            v@ == s@,
            forall|j: int| 0 <= j < i ==> is_digit(#[trigger] s@[j]),
        decreases v@.len() - i,
    {
        assert(s@[i as int] == v@[i as int]);
        if !('0' <= v[i] && v[i] <= '9') {
            return false;
        }
        i += 1;
    }
    true
}

/// Reads an unsigned number of at most `max`.
pub fn parse_up_to(s: &str, max: u64) -> (r: Option<u64>)
    ensures
        opt_nat(r) == unsigned(s@, max as nat),
{
    let v = chars_of(s);
    assert(v@.subrange(0, v@.len() as int) =~= v@);
    if v.len() > 0 && v[0] == '+' {
        digits_from(&v, 1, max)
    } else {
        digits_from(&v, 0, max)
    }
}

/// Reads an unsigned number of 64 bits.
pub fn parse_u64(s: &str) -> (r: Option<u64>)
    ensures
        opt_nat(r) == unsigned(s@, u64::MAX as nat),
{
    parse_up_to(s, u64::MAX)
}

/// Reads an unsigned number of 32 bits.
pub fn parse_u32(s: &str) -> (r: Option<u32>)
    ensures
        opt_nat32(r) == unsigned(s@, u32::MAX as nat),
{
    match parse_up_to(s, u32::MAX as u64) {
        Some(n) => Some(n as u32),
        None => None,
    }
}

/// Reads a signed number of 64 bits.
pub fn parse_i64(s: &str) -> (r: Option<i64>)
    ensures
        opt_int(r) == signed(s@),
{
    let v = chars_of(s);
    if v.len() > 0 && v[0] == '-' {
        match digits_from(&v, 1, 0x8000_0000_0000_0000) {
            Some(n) => if n == 0x8000_0000_0000_0000 {
                Some(i64::MIN)
            } else {
                Some(-(n as i64))
            },
            None => None,
        }
    } else {
        match parse_up_to(s, 0x7fff_ffff_ffff_ffff) {
            Some(n) => Some(n as i64),
            None => None,
        }
    }
}

/// Writes a number in decimal.
pub fn decimal_text(n: u64) -> (r: String)
    ensures
        r@ == decimal(n as nat),
    decreases n,
{
    if n < 10 {
        let mut out = String::new();
        out.push((48u8 + n as u8) as char);
        assert(out@ =~= decimal(n as nat));
        out
    } else {
        let mut out = decimal_text(n / 10);
        out.push((48u8 + (n % 10) as u8) as char);
        out
    }
}

/// A number with a minus sign where it is below zero, in decimal.
pub open spec fn signed_decimal(n: int) -> Seq<char> {
    if n < 0 {
        "-"@ + decimal((-n) as nat)
    } else {
        decimal(n as nat)
    }
}

/// Writes a signed number in decimal.
pub fn signed_text(n: i64) -> (r: String)
    ensures
        r@ == signed_decimal(n as int),
{
    if n < 0 {
        let m: u64 = (-(n as i128)) as u64;
        join2("-", decimal_text(m).as_str())
    } else {
        decimal_text(n as u64)
    }
}

/// What `decimal` writes is all digits, and stands for the number written.
pub proof fn lemma_decimal(n: nat)
    ensures
        decimal(n).len() > 0,
        all_digits(decimal(n)),
        digits_value(decimal(n)) == n,
    decreases n,
{
    if n < 10 {
        let s = decimal(n);
        assert(s.drop_last() =~= Seq::empty());
        assert(digits_value(s.drop_last()) == 0);
    } else {
        lemma_decimal(n / 10);
        let s = decimal(n);
        assert(s.drop_last() =~= decimal(n / 10));
        assert forall|i: int| 0 <= i < s.len() implies is_digit(#[trigger] s[i]) by {
            if i < s.len() - 1 {
                assert(s[i] == decimal(n / 10)[i]);
            }
        }
    }
}

/// A number read back from its decimal form is the number written.
pub proof fn law_decimal_reads_back(n: nat, max: nat)
    requires
        n <= max,
    ensures
        unsigned(decimal(n), max) == Some(n),
{
    lemma_decimal(n);
    assert(is_digit(decimal(n)[0]));
}

/// A number written in decimal has no zero before it, and ends with its last digit.
pub proof fn law_decimal_is_in_base_ten(n: nat)
    ensures
        decimal(n).last() as int == '0' as int + n % 10,
        n >= 10 ==> decimal(n).drop_last() == decimal(n / 10),
        n < 10 ==> decimal(n).len() == 1,
        n > 0 ==> decimal(n)[0] != '0',
    decreases n,
{
    if n >= 10 {
        law_decimal_is_in_base_ten(n / 10);
        assert(decimal(n).drop_last() =~= decimal(n / 10));
        assert(decimal(n)[0] == decimal(n / 10)[0]);
    }
}

/// A digit more makes a number ten times as large, and adds the digit.
pub proof fn law_digits_count_in_tens(s: Seq<char>, d: int)
    requires
        0 <= d <= 9,
    ensures
        digits_value(s.push(('0' as int + d) as char)) == digits_value(s) * 10 + d,
        digits_value(Seq::<char>::empty()) == 0,
{
    let t = s.push(('0' as int + d) as char);
    assert(t.drop_last() =~= s);
}

/// A signed number written in decimal is read back as that number.
pub proof fn law_signed_reads_back(n: int)
    requires
        i64::MIN <= n <= i64::MAX,
    ensures
        signed(signed_decimal(n)) == Some(n),
{
    reveal_strlit("-");
    if n < 0 {
        let d = decimal((-n) as nat);
        lemma_decimal((-n) as nat);
        let s = signed_decimal(n);
        assert(s[0] == '-');
        assert(s.subrange(1, s.len() as int) =~= d);
    } else {
        lemma_decimal(n as nat);
        assert(is_digit(decimal(n as nat)[0]));
    }
}

/// A text begins with another where it is that one and a rest, and what follows is the rest.
pub proof fn law_a_prefix_leaves_the_rest(p: Seq<char>, rest: Seq<char>, s: Seq<char>)
    ensures
        after_prefix(p + rest, p) == Some(rest),
        begins(p + rest, p),
        after_prefix(s, p) is Some ==> s == p + after_prefix(s, p)->0,
        begins(s, p) == (after_prefix(s, p) is Some),
{
    assert((p + rest).subrange(0, p.len() as int) =~= p);
    assert((p + rest).subrange(p.len() as int, (p + rest).len() as int) =~= rest);
    if begins(s, p) {
        assert(s =~= p + s.subrange(p.len() as int, s.len() as int));
    }
}

/// A text ends with another where it is something before and that one.
pub proof fn law_a_suffix_leaves_what_is_before(before: Seq<char>, p: Seq<char>, s: Seq<char>)
    ensures
        before_suffix(before + p, p) == Some(before),
        before_suffix(s, p) is Some ==> s == before_suffix(s, p)->0 + p,
{
    let t = before + p;
    assert(t.subrange(t.len() - p.len(), t.len() as int) =~= p);
    assert(t.subrange(0, t.len() - p.len()) =~= before);
    if finishes(s, p) {
        assert(s =~= s.subrange(0, s.len() - p.len()) + s.subrange(
            s.len() - p.len(),
            s.len() as int,
        ));
    }
}

/// A text is parted at its first such character, into what is before and what is behind it.
pub proof fn law_parted_at_the_first(a: Seq<char>, c: char, b: Seq<char>)
    requires
        !a.contains(c),
    ensures
        parted(a + seq![c] + b, c) == Some((a, b)),
        parted(a, c) is None,
{
    let s = a + seq![c] + b;
    assert forall|j: int| 0 <= j < a.len() implies s[j] != c by {
        assert(s[j] == a[j]);
        assert(a.contains(a[j]));
    }
    assert forall|j: int| 0 <= j < a.len() implies a[j] != c by {
        assert(a.contains(a[j]));
    }
    assert(s[a.len() as int] == c);
    lemma_next_char_is(s, c, 0, a.len() as int);
    lemma_next_char_is(a, c, 0, a.len() as int);
    assert(s.subrange(0, a.len() as int) =~= a);
    assert(s.subrange(a.len() as int + 1, s.len() as int) =~= b);
}

/// The pieces of a text are what is before its first such character, and the pieces behind it.
pub proof fn law_pieces_are_cut_at_each(a: Seq<char>, c: char, b: Seq<char>)
    requires
        !a.contains(c),
    ensures
        pieces(a + seq![c] + b, c) == seq![a] + pieces(b, c),
        pieces(a, c) == seq![a],
{
    law_parted_at_the_first(a, c, b);
    let s = a + seq![c] + b;
    assert forall|j: int| 0 <= j < a.len() implies s[j] != c && a[j] != c by {
        assert(s[j] == a[j]);
        assert(a.contains(a[j]));
    }
    assert(s[a.len() as int] == c);
    lemma_next_char_is(s, c, 0, a.len() as int);
    lemma_next_char_is(a, c, 0, a.len() as int);
    assert(s.subrange(0, a.len() as int) =~= a);
    assert(s.subrange(a.len() as int + 1, s.len() as int) =~= b);
}

/// `s` is white space alone.
pub open spec fn all_space(s: Seq<char>) -> bool {
    forall|i: int| 0 <= i < s.len() ==> is_space(#[trigger] s[i])
}

/// `s` is empty, or neither begins nor ends with white space.
pub open spec fn is_core(s: Seq<char>) -> bool {
    s.len() > 0 ==> !is_space(s[0]) && !is_space(s.last())
}

pub proof fn lemma_trimmed_start(x: Seq<char>, s: Seq<char>)
    requires
        all_space(x),
        s.len() == 0 || !is_space(s[0]),
    ensures
        trimmed_start(x + s) == s,
    decreases x.len(),
{
    let t = x + s;
    if x.len() == 0 {
        assert(t =~= s);
    } else {
        let y = x.subrange(1, x.len() as int);
        assert(t[0] == x[0]);
        assert(t.subrange(1, t.len() as int) =~= y + s);
        lemma_trimmed_start(y, s);
    }
}

proof fn lemma_trimmed_end(s: Seq<char>, y: Seq<char>)
    requires
        all_space(y),
        s.len() == 0 || !is_space(s.last()),
    ensures
        trimmed_end(s + y) == s,
    decreases y.len(),
{
    let t = s + y;
    if y.len() == 0 {
        assert(t =~= s);
    } else {
        assert(t.last() == y.last());
        assert(t.drop_last() =~= s + y.drop_last());
        lemma_trimmed_end(s, y.drop_last());
    }
}

/// Trimming takes the white space at both ends, and nothing else.
pub proof fn law_trimming_keeps_the_core(x: Seq<char>, core: Seq<char>, y: Seq<char>)
    requires
        all_space(x),
        all_space(y),
        is_core(core),
    ensures
        trimmed(x + core + y) == core,
        trimmed(core) == core,
{
    if core.len() == 0 {
        let z = x + y;
        assert(x + core + y =~= z + core);
        assert forall|i: int| 0 <= i < z.len() implies is_space(#[trigger] z[i]) by {
            if i < x.len() {
                assert(z[i] == x[i]);
            } else {
                assert(z[i] == y[i - x.len()]);
            }
        }
        lemma_trimmed_start(z, core);
        lemma_trimmed_start(Seq::empty(), core);
        assert(Seq::<char>::empty() + core =~= core);
        lemma_trimmed_end(core, Seq::empty());
        assert(core + Seq::<char>::empty() =~= core);
    } else {
        let t = core + y;
        assert(x + core + y =~= x + t);
        assert(t[0] == core[0]);
        lemma_trimmed_start(x, t);
        lemma_trimmed_end(core, y);
        lemma_trimmed_start(Seq::empty(), core);
        assert(Seq::<char>::empty() + core =~= core);
        lemma_trimmed_end(core, Seq::empty());
        assert(core + Seq::<char>::empty() =~= core);
    }
}

/// What is left of a text once the white space around it is cut off is nothing just where the text
/// holds nothing but white space.
pub proof fn law_only_blank_texts_trim_to_nothing(s: Seq<char>)
    ensures
        trimmed(s).len() == 0 <==> forall|i: int| 0 <= i < s.len() ==> is_space(#[trigger] s[i]),
{
    lemma_start_left(s);
    lemma_end_left(trimmed_start(s));
}

proof fn lemma_start_left(s: Seq<char>)
    ensures
        trimmed_start(s).len() == 0 <==> all_space(s),
        trimmed_start(s).len() > 0 ==> !is_space(trimmed_start(s)[0]),
    decreases s.len(),
{
    if s.len() > 0 && is_space(s[0]) {
        let r = s.subrange(1, s.len() as int);
        lemma_start_left(r);
        if all_space(r) {
            assert forall|i: int| 0 <= i < s.len() implies is_space(#[trigger] s[i]) by {
                if i > 0 {
                    assert(r[i - 1] == s[i]);
                }
            }
        }
        if all_space(s) {
            assert forall|i: int| 0 <= i < r.len() implies is_space(#[trigger] r[i]) by {
                assert(r[i] == s[i + 1]);
            }
        }
    }
}

proof fn lemma_end_left(s: Seq<char>)
    requires
        s.len() > 0 ==> !is_space(s[0]),
    ensures
        trimmed_end(s).len() == 0 <==> s.len() == 0,
    decreases s.len(),
{
    if s.len() > 1 && is_space(s.last()) {
        lemma_end_left(s.drop_last());
        assert(s.drop_last() =~= s.subrange(0, s.len() - 1));
    }
}

/// A text is found only where it has room.
pub proof fn lemma_next_text_fits(s: Seq<char>, p: Seq<char>, from: int)
    requires
        0 <= from,
    ensures
        next_text(s, p, from) is Some ==> next_text(s, p, from)->0 + p.len() <= s.len(),
    decreases s.len() + 1 - from,
{
    if from + p.len() <= s.len() && !occurs(s, p, from) {
        lemma_next_text_fits(s, p, from + 1);
    }
}

/// What stands before the first colon behind a number in decimal is the number.
pub proof fn law_parted_at_the_colon(n: u64, rest: Seq<char>)
    ensures
        parted(decimal(n as nat) + ":"@ + rest, ':') == Some((decimal(n as nat), rest)),
        forall|m: u64| decimal(n as nat) == #[trigger] decimal(m as nat) ==> m == n,
{
    reveal_strlit(":");
    assert(":"@ =~= seq![':']);
    let d = decimal(n as nat);
    lemma_decimal(n as nat);
    assert(!d.contains(':')) by {
        if d.contains(':') {
            let i = choose|i: int| 0 <= i < d.len() && d[i] == ':';
            assert(is_digit(d[i]));
        }
    }
    law_parted_at_the_first(d, ':', rest);
    assert forall|m: u64| decimal(n as nat) == #[trigger] decimal(m as nat) implies m == n by {
        law_decimal_reads_back(n as nat, u64::MAX as nat);
        law_decimal_reads_back(m as nat, u64::MAX as nat);
    }
}

/// A text has at least one piece.
pub proof fn lemma_pieces_are_some(s: Seq<char>, c: char)
    ensures
        pieces(s, c).len() > 0,
{
}

/// One text joined is the text.
pub proof fn lemma_joined_one(s: Seq<char>, sep: Seq<char>)
    ensures
        joined(seq![s], sep) == s,
{
    assert(seq![s].drop_last() =~= Seq::<Seq<char>>::empty());
    assert(joined(seq![s], sep) =~= s);
}

/// The views of strings and of numbers are what they hold, one for one.
pub proof fn law_views_are_what_is_held(v: Seq<String>, s: String, t: &str, n: u64, m: u32, k: i64)
    ensures
        texts(v).len() == v.len(),
        forall|i: int| 0 <= i < v.len() ==> #[trigger] texts(v)[i] == v[i]@,
        opt_text(Some(s)) == Some(s@),
        opt_text(None) is None,
        opt_view(Some(t)) == Some(t@),
        opt_view(None) is None,
        opt_nat(Some(n)) == Some(n as nat),
        opt_nat(None) is None,
        opt_nat32(Some(m)) == Some(m as nat),
        opt_nat32(None) is None,
        opt_int(Some(k)) == Some(k as int),
        opt_int(None) is None,
{
}

/// Digits are read as the number that they write, zeros before it or not, as far as the limit goes;
/// a plus sign before them changes nothing. Anything else is no number.
pub proof fn law_what_is_read_as_a_number(d: Seq<char>, max: nat)
    ensures
        d.len() > 0 && all_digits(d) && digits_value(d) <= max ==> unsigned(d, max) == Some(
            digits_value(d),
        ) && unsigned(seq!['+'] + d, max) == Some(digits_value(d)),
        d.len() == 0 || !all_digits(d) || digits_value(d) > max ==> unsigned(seq!['+'] + d, max) is None,
        d.len() > 0 && d[0] != '+' && !all_digits(d) ==> unsigned(d, max) is None,
        all_digits(d) && digits_value(d) > max ==> unsigned(d, max) is None,
        unsigned(Seq::empty(), max) is None,
        unsigned(seq!['-'] + d, max) is None,
        digits_value(seq!['0'] + d) == digits_value(d),
{
    let p = seq!['+'] + d;
    assert(p.subrange(1, p.len() as int) =~= d);
    let m = seq!['-'] + d;
    assert(m[0] == '-' && !is_digit(m[0]));
    if d.len() > 0 && all_digits(d) {
        assert(is_digit(d[0]));
    }
    lemma_zero_before(d);
}

proof fn lemma_zero_before(d: Seq<char>)
    ensures
        digits_value(seq!['0'] + d) == digits_value(d),
    decreases d.len(),
{
    let s = seq!['0'] + d;
    if d.len() == 0 {
        assert(s.drop_last() =~= Seq::<char>::empty());
        assert(s.last() == '0');
        assert(digits_value(s.drop_last()) == 0);
        assert(digit_value('0') == 0);
        assert(digits_value(s) == 0);
    } else {
        lemma_zero_before(d.drop_last());
        assert(s.drop_last() =~= seq!['0'] + d.drop_last());
        assert(s.last() == d.last());
    }
}

/// A number with a sign is what its digits say, and below zero behind a minus sign; it must be one
/// of 64 bits.
pub proof fn law_what_is_read_as_a_signed_number(d: Seq<char>)
    requires
        d.len() > 0,
        all_digits(d),
    ensures
        digits_value(d) <= i64::MAX ==> signed(d) == Some(digits_value(d) as int) && signed(
            seq!['+'] + d,
        ) == Some(digits_value(d) as int) && signed(seq!['-'] + d) == Some(-digits_value(d)),
        digits_value(d) > i64::MAX ==> signed(d) is None && signed(seq!['+'] + d) is None,
        digits_value(d) > i64::MAX + 1 ==> signed(seq!['-'] + d) is None,
{
    let p = seq!['+'] + d;
    let m = seq!['-'] + d;
    assert(p.subrange(1, p.len() as int) =~= d);
    assert(m.subrange(1, m.len() as int) =~= d);
    assert(is_digit(d[0]));
}

} // verus!
