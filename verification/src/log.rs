//! What the log shows of a request.

use crate::text;
use crate::text::{decimal, joined, opt_view, parted, pieces, texts};
use vstd::prelude::*;

verus! {

/// The name of a parameter, as it stands in a query.
pub open spec fn key_of(pair: Seq<char>) -> Seq<char> {
    match parted(pair, '=') {
        Some((key, _)) => key,
        None => pair,
    }
}

/// The number that a digit in base sixteen stands for.
pub open spec fn hex_value(c: char) -> Option<int> {
    if '0' <= c <= '9' {
        Some(c as int - '0' as int)
    } else if 'a' <= c <= 'f' {
        Some(c as int - 'a' as int + 10)
    } else if 'A' <= c <= 'F' {
        Some(c as int - 'A' as int + 10)
    } else {
        None
    }
}

/// A name with its escapes undone: a percent sign and two digits stand for the byte with that
/// number, and a plus sign for a space. A byte is shown as the character with its number, which
/// is what it means among the ASCII characters.
pub open spec fn unescaped(s: Seq<char>) -> Seq<char>
    decreases s.len(),
{
    if s.len() == 0 {
        Seq::empty()
    } else if s[0] == '%' && s.len() >= 3 && hex_value(s[1]) is Some && hex_value(s[2]) is Some {
        seq![(hex_value(s[1])->0 * 16 + hex_value(s[2])->0) as char] + unescaped(
            s.subrange(3, s.len() as int),
        )
    } else if s[0] == '+' {
        seq![' '] + unescaped(s.subrange(1, s.len() as int))
    } else {
        seq![s[0]] + unescaped(s.subrange(1, s.len() as int))
    }
}

/// Reads a digit in base sixteen.
fn read_hex(c: char) -> (r: Option<u8>)
    ensures
        match r {
            Some(n) => n < 16 && hex_value(c) == Some(n as int),
            None => hex_value(c) is None,
        },
{
    if '0' <= c && c <= '9' {
        Some(c as u8 - 48)
    } else if 'a' <= c && c <= 'f' {
        Some(c as u8 - 87)
    } else if 'A' <= c && c <= 'F' {
        Some(c as u8 - 55)
    } else {
        None
    }
}

/// The byte that the escape at `i` stands for, where there is one.
fn read_escape(v: &Vec<char>, i: usize) -> (r: Option<u8>)
    requires
        i < v@.len(),
    ensures
        ({
            let s = v@.subrange(i as int, v@.len() as int);
            if s[0] == '%' && s.len() >= 3 && hex_value(s[1]) is Some && hex_value(s[2]) is Some {
                r matches Some(n) && n == hex_value(s[1])->0 * 16 + hex_value(s[2])->0
            } else {
                r is None
            }
        }),
{
    let ghost s = v@.subrange(i as int, v@.len() as int);
    assert(s[0] == v@[i as int]);
    let len: usize = v.len();
    if v[i] != '%' || len - i < 3 {
        return None;
    }
    assert(s[1] == v@[i + 1] && s[2] == v@[i + 2]);
    match (read_hex(v[i + 1]), read_hex(v[i + 2])) {
        (Some(a), Some(b)) => Some(a * 16 + b),
        _ => None,
    }
}

/// Undoes the escapes of a name.
pub fn unescape(name: &str) -> (r: String)
    ensures
        r@ == unescaped(name@),
{
    let v = text::chars_of(name);
    let mut out = String::new();
    let mut i: usize = 0;
    assert(v@.subrange(0, v@.len() as int) =~= v@);
    assert(out@ + unescaped(v@) =~= unescaped(v@));
    while i < v.len()
        invariant
            i <= v@.len(),
            out@ + unescaped(v@.subrange(i as int, v@.len() as int)) == unescaped(v@),
        decreases v@.len() - i,
    {
        let ghost s = v@.subrange(i as int, v@.len() as int);
        let ghost before = out@;
        assert(s[0] == v@[i as int]);
        match read_escape(&v, i) {
            Some(n) => {
                out.push(n as char);
                assert(s.subrange(3, s.len() as int) =~= v@.subrange(i + 3, v@.len() as int));
                i += 3;
            },
            None => {
                if v[i] == '+' {
                    out.push(' ');
                } else {
                    out.push(v[i]);
                }
                assert(s.subrange(1, s.len() as int) =~= v@.subrange(i + 1, v@.len() as int));
                i += 1;
            },
        }
        assert(out@ + unescaped(v@.subrange(i as int, v@.len() as int)) =~= before + unescaped(s));
    }
    assert(out@ + unescaped(v@.subrange(i as int, v@.len() as int)) =~= out@);
    out
}

/// The parameter holds a secret: a token or a password. The name counts as the server reads it,
/// with its escapes undone.
pub open spec fn is_secret(key: Seq<char>) -> bool {
    let k = unescaped(key);
    k == "t"@ || k == "p"@ || k == "token"@ || k == "password"@
}

/// A parameter with its value masked, where it holds a secret.
pub open spec fn masked(pair: Seq<char>) -> Seq<char> {
    if is_secret(key_of(pair)) {
        key_of(pair) + "=***"@
    } else {
        pair
    }
}

/// The parameters of a query with the secrets masked.
pub open spec fn masked_query(query: Seq<char>) -> Seq<char> {
    joined(pieces(query, '&').map_values(|p: Seq<char>| masked(p)), "&"@)
}

/// A query as the log shows it: behind a question mark, and without secrets.
pub open spec fn redacted(query: Seq<char>) -> Seq<char> {
    if masked_query(query).len() == 0 {
        Seq::empty()
    } else {
        "?"@ + masked_query(query)
    }
}

/// Masks the secrets of a query.
pub fn redact_query(query: &str) -> (r: String)
    ensures
        r@ == redacted(query@),
        masked_query(query@).len() > 0 ==> r@ == "?"@ + masked_query(query@),
        masked_query(query@).len() == 0 ==> r@.len() == 0,
{
    let pairs = text::split(query, '&');
    let mut shown: Vec<String> = Vec::new();
    let mut i: usize = 0;
    let ghost all = texts(pairs@);
    while i < pairs.len()
        invariant
            i <= pairs@.len(),
            all == texts(pairs@),
            texts(shown@) =~= all.take(i as int).map_values(|p: Seq<char>| masked(p)),
        decreases pairs@.len() - i,
    {
        let pair = pairs[i].as_str();
        let key = match text::split_once(pair, '=') {
            Some((k, _)) => k,
            None => pair,
        };
        let name = unescape(key);
        let secret = text::same(name.as_str(), "t") || text::same(name.as_str(), "p") || text::same(
            name.as_str(),
            "token",
        ) || text::same(name.as_str(), "password");
        let ghost before = texts(shown@);
        let text = if secret {
            text::join2(key, "=***")
        } else {
            pair.to_owned()
        };
        shown.push(text);
        assert(texts(shown@) =~= before.push(masked(all[i as int])));
        assert(all.take(i + 1) =~= all.take(i as int).push(all[i as int]));
        i += 1;
    }
    assert(all.take(all.len() as int) =~= all);
    let out = text::join(&shown, "&");
    if out.as_str().unicode_len() == 0 {
        assert(out@ =~= Seq::empty());
        out
    } else {
        text::join2("?", out.as_str())
    }
}

/// How much a line of the log matters.
#[derive(Debug, Clone, Copy, PartialEq, Eq, Structural)]
pub enum Level {
    Error,
    Warn,
    Debug,
}

/// How much a reply with this status matters: a fault of the server most, then one of the
/// client.
pub open spec fn level_of(status: u16) -> Level {
    if 500 <= status <= 599 {
        Level::Error
    } else if 400 <= status <= 499 {
        Level::Warn
    } else {
        Level::Debug
    }
}

/// The line that the log shows of a request: where it came from, the endpoint, the request, the
/// status and the time taken. What is not known is a dash.
pub fn log_request(
    remote: Option<&str>,
    endpoint: Option<&str>,
    method: &str,
    path: &str,
    query: &str,
    status: u16,
    elapsed: &str,
) -> (r: (Level, String))
    ensures
        r.0 == level_of(status),
        r.1@ == (match opt_view(remote) {
            Some(a) => a,
            None => "-"@,
        }) + " "@ + (match opt_view(endpoint) {
            Some(e) => e,
            None => "-"@,
        }) + " \""@ + method@ + " "@ + path@ + query@ + "\" "@ + decimal(status as nat) + " in "@
            + elapsed@,
        500 <= status <= 599 ==> r.0 == Level::Error,
        400 <= status <= 499 ==> r.0 == Level::Warn,
        status < 400 || status > 599 ==> r.0 == Level::Debug,
{
    let level = if 500 <= status && status <= 599 {
        Level::Error
    } else if 400 <= status && status <= 499 {
        Level::Warn
    } else {
        Level::Debug
    };
    let mut line = (match remote {
        Some(a) => a,
        None => "-",
    }).to_owned();
    line.append(" ");
    line.append(
        match endpoint {
            Some(e) => e,
            None => "-",
        },
    );
    line.append(" \"");
    line.append(method);
    line.append(" ");
    line.append(path);
    line.append(query);
    line.append("\" ");
    line.append(text::decimal_text(status as u64).as_str());
    line.append(" in ");
    line.append(elapsed);
    (level, line)
}

/// The log tells nothing of the secrets: two queries that differ only in the values of secret
/// parameters look the same in it.
pub proof fn law_secrets_never_show(a: Seq<char>, b: Seq<char>)
    requires
        pieces(a, '&').len() == pieces(b, '&').len(),
        forall|i: int|
            0 <= i < pieces(a, '&').len() ==> {
                let p = #[trigger] pieces(a, '&')[i];
                let q = pieces(b, '&')[i];
                p == q || (is_secret(key_of(p)) && key_of(p) == key_of(q))
            },
    ensures
        redacted(a) == redacted(b),
{
    assert(pieces(a, '&').map_values(|p: Seq<char>| masked(p)) =~= pieces(b, '&').map_values(
        |p: Seq<char>| masked(p),
    ));
}

/// A name without escapes stands for itself.
pub proof fn law_plain_names_stand_for_themselves(name: Seq<char>)
    requires
        !name.contains('%'),
        !name.contains('+'),
    ensures
        unescaped(name) == name,
    decreases name.len(),
{
    if name.len() > 0 {
        let rest = name.subrange(1, name.len() as int);
        assert(name.contains(name[0]));
        assert forall|c: char| rest.contains(c) implies name.contains(c) by {
            let i = choose|i: int| 0 <= i < rest.len() && rest[i] == c;
            assert(name[i + 1] == c);
        }
        law_plain_names_stand_for_themselves(rest);
        assert(seq![name[0]] + rest =~= name);
    }
}

/// A query without secrets is shown as it is.
pub proof fn law_the_rest_is_shown(query: Seq<char>)
    requires
        query.len() > 0,
        forall|i: int|
            0 <= i < pieces(query, '&').len() ==> !is_secret(
                key_of(#[trigger] pieces(query, '&')[i]),
            ),
    ensures
        redacted(query) == "?"@ + query,
{
    reveal_strlit("&");
    assert("&"@ =~= seq!['&']);
    text::law_pieces_join_up(query, '&');
    assert(pieces(query, '&').map_values(|p: Seq<char>| masked(p)) =~= pieces(query, '&'));
}

/// The value of a parameter is masked where its name, with the escapes undone, is that of a secret,
/// and shown otherwise. A secret without a value is masked too.
pub proof fn law_the_values_of_secrets_are_masked(name: Seq<char>, value: Seq<char>)
    requires
        !name.contains('='),
    ensures
        ({
            let n = unescaped(name);
            if n == "t"@ || n == "p"@ || n == "token"@ || n == "password"@ {
                masked(name + seq!['='] + value) == name + "=***"@ && masked(name) == name + "=***"@
            } else {
                masked(name + seq!['='] + value) == name + seq!['='] + value && masked(name) == name
            }
        }),
{
    text::law_parted_at_the_first(name, '=', value);
}

/// A query is masked parameter by parameter.
pub proof fn law_parameters_are_masked_one_by_one(first: Seq<char>, rest: Seq<char>)
    requires
        !first.contains('&'),
    ensures
        masked_query(first + seq!['&'] + rest) == masked(first) + "&"@ + masked_query(rest),
        masked_query(first) == masked(first),
{
    text::law_pieces_are_cut_at_each(first, '&', rest);
    let m = |p: Seq<char>| masked(p);
    let q = first + seq!['&'] + rest;
    assert(pieces(q, '&').map_values(m) =~= seq![masked(first)] + pieces(rest, '&').map_values(m));
    text::lemma_pieces_are_some(rest, '&');
    text::lemma_joined_front(masked(first), pieces(rest, '&').map_values(m), "&"@);
    assert(pieces(first, '&').map_values(m) =~= seq![masked(first)]);
    text::lemma_joined_one(masked(first), "&"@);
}

/// A percent sign and two digits in base sixteen stand for the character with that number, a plus
/// sign for a space, and any other character for itself.
pub proof fn law_escapes_are_undone_one_by_one(a: char, b: char, c: char, rest: Seq<char>)
    ensures
        hex_value(a) is Some && hex_value(b) is Some ==> unescaped(seq!['%', a, b] + rest) == seq![
            (hex_value(a)->0 * 16 + hex_value(b)->0) as char,
        ] + unescaped(rest),
        unescaped(seq!['+'] + rest) == seq![' '] + unescaped(rest),
        c != '%' && c != '+' ==> unescaped(seq![c] + rest) == seq![c] + unescaped(rest),
        unescaped(Seq::empty()).len() == 0,
{
    let s = seq!['%', a, b] + rest;
    assert(s.subrange(3, s.len() as int) =~= rest);
    let p = seq!['+'] + rest;
    assert(p.subrange(1, p.len() as int) =~= rest);
    let q = seq![c] + rest;
    assert(q.subrange(1, q.len() as int) =~= rest);
}

/// The digits in base sixteen, in either case.
pub proof fn law_digits_in_base_sixteen(c: char)
    ensures
        '0' <= c <= '9' ==> hex_value(c) == Some(c as int - 48),
        'a' <= c <= 'f' ==> hex_value(c) == Some(c as int - 87),
        'A' <= c <= 'F' ==> hex_value(c) == Some(c as int - 55),
        hex_value(c) is Some ==> '0' <= c <= '9' || 'a' <= c <= 'f' || 'A' <= c <= 'F',
{
}

} // verus!
