//! How names are sorted: a leading article does not count.

use crate::number::same_letters;
use crate::text;
use crate::text::{lowercase, trimmed_start};
use vstd::prelude::*;

verus! {

/// The articles that do not count, as clients are told of them.
pub const IGNORED_ARTICLES: &'static str = "The El La Los Las Le Les";

/// The articles that do not count, one by one.
pub open spec fn articles() -> Seq<Seq<char>> {
    text::pieces("The El La Los Las Le Les"@, ' ')
}

/// The name is this article, or begins with it and a space. The case of the letters does not
/// matter.
pub open spec fn has_article(name: Seq<char>, article: Seq<char>) -> bool {
    let n = article.len() as int;
    &&& n <= name.len()
    &&& same_letters(name.subrange(0, n), article)
    &&& n < name.len() ==> name[n] == ' '
}

/// The length of the first of these articles that the name has; zero where it has none.
pub open spec fn article_len(name: Seq<char>, list: Seq<Seq<char>>) -> nat
    decreases list.len(),
{
    if list.len() == 0 {
        0
    } else if has_article(name, list[0]) {
        list[0].len()
    } else {
        article_len(name, list.drop_first())
    }
}

/// The leading article of a name, as it is spelled there.
pub open spec fn leading_article(name: Seq<char>) -> Option<Seq<char>> {
    let n = article_len(name, articles());
    if n > 0 {
        Some(name.subrange(0, n as int))
    } else {
        None
    }
}

/// A name without its leading article.
pub open spec fn without_article(name: Seq<char>) -> Seq<char> {
    let n = article_len(name, articles());
    if n > 0 {
        trimmed_start(name.subrange(n as int, name.len() as int))
    } else {
        name
    }
}

/// Whether the name has this article.
fn check_article(name: &Vec<char>, article: &Vec<char>) -> (r: bool)
    ensures
        r == has_article(name@, article@),
{
    let n: usize = article.len();
    if n > name.len() {
        return false;
    }
    let mut i: usize = 0;
    while i < n
        invariant
            i <= n,
            n == article@.len(),
            n <= name@.len(),
            forall|j: int|
                0 <= j < i ==> crate::number::lower(#[trigger] name@[j]) == crate::number::lower(
                    article@[j],
                ),
        decreases n - i,
    {
        if crate::number::lower_char(name[i]) != crate::number::lower_char(article[i]) {
            assert(name@.subrange(0, n as int)[i as int] == name@[i as int]);
            return false;
        }
        i += 1;
    }
    assert forall|j: int| 0 <= j < n implies crate::number::lower(
        #[trigger] name@.subrange(0, n as int)[j],
    ) == crate::number::lower(article@[j]) by {
        assert(name@.subrange(0, n as int)[j] == name@[j]);
    }
    n == name.len() || name[n] == ' '
}

proof fn lemma_article_len(name: Seq<char>, list: Seq<Seq<char>>)
    ensures
        article_len(name, list) <= name.len(),
    decreases list.len(),
{
    if list.len() > 0 {
        lemma_article_len(name, list.drop_first());
    }
}

/// A name split at its leading article: the rest, then the article. A bare article leaves
/// nothing; a name without an article stays whole.
pub fn split_article<'a>(name: &'a str) -> (r: (&'a str, Option<&'a str>))
    ensures
        r.0@ == without_article(name@),
        text::opt_view(r.1) == leading_article(name@),
{
    let list = text::split(IGNORED_ARTICLES, ' ');
    let chars = text::chars_of(name);
    let ghost all = articles();
    assert(all.subrange(0, all.len() as int) =~= all);
    let mut i: usize = 0;
    while i < list.len()
        invariant
            i <= list@.len(),
            chars@ == name@,
            all == articles(),
            text::texts(list@) == all,
            article_len(name@, all) == article_len(
                name@,
                all.subrange(i as int, all.len() as int),
            ),
        decreases list@.len() - i,
    {
        let ghost rest = all.subrange(i as int, all.len() as int);
        assert(rest[0] == list@[i as int]@);
        assert(rest.drop_first() =~= all.subrange(i + 1, all.len() as int));
        let article = text::chars_of(list[i].as_str());
        if check_article(&chars, &article) {
            let n: usize = article.len();
            if n > 0 {
                return (
                    text::trim_start(name.substring_char(n, chars.len())),
                    Some(name.substring_char(0, n)),
                );
            }
            return (name, None);
        }
        i += 1;
    }
    (name, None)
}

/// What a name is sorted by: the name without its leading article, in lower case.
pub fn sort_key(name: &str) -> (r: String)
    ensures
        r@ == lowercase(without_article(name@)),
        text::is_ascii_text(name@) ==> r@ == without_article(name@).map_values(
            |c: char| crate::number::lower(c),
        ),
{
    proof {
        lemma_ascii_rest(name@);
    }
    text::to_lowercase(split_article(name).0)
}

/// A name with its leading article moved to the end.
pub open spec fn sorted_name(name: Seq<char>) -> Seq<char> {
    match leading_article(name) {
        Some(article) if without_article(name).len() > 0 => without_article(name) + ", "@
            + article,
        _ => name,
    }
}

/// The name that clients show and sort by: the leading article moves to the end.
pub fn sort_name(name: &str) -> (r: String)
    ensures
        r@ == sorted_name(name@),
{
    let (rest, article) = split_article(name);
    match article {
        Some(a) => if rest.unicode_len() > 0 {
            text::join3(rest, ", ", a)
        } else {
            name.to_owned()
        },
        None => name.to_owned(),
    }
}

proof fn lemma_trimmed_start(s: Seq<char>) -> (n: int)
    ensures
        0 <= n <= s.len(),
        trimmed_start(s) == s.subrange(n, s.len() as int),
        forall|i: int| 0 <= i < n ==> text::is_space(#[trigger] s[i]),
    decreases s.len(),
{
    if s.len() > 0 && text::is_space(s[0]) {
        let t = s.subrange(1, s.len() as int);
        let m = lemma_trimmed_start(t);
        assert(t.subrange(m, t.len() as int) =~= s.subrange(m + 1, s.len() as int));
        assert forall|i: int| 0 <= i < m + 1 implies text::is_space(#[trigger] s[i]) by {
            if i > 0 {
                assert(s[i] == t[i - 1]);
            }
        }
        m + 1
    } else {
        assert(s.subrange(0, s.len() as int) =~= s);
        0
    }
}

proof fn lemma_ascii_rest(name: Seq<char>)
    ensures
        text::is_ascii_text(name) ==> text::is_ascii_text(without_article(name)),
{
    lemma_article_len(name, articles());
    let n = article_len(name, articles()) as int;
    let tail = name.subrange(n, name.len() as int);
    let m = lemma_trimmed_start(tail);
    if text::is_ascii_text(name) && n > 0 {
        let rest = without_article(name);
        assert forall|i: int| 0 <= i < rest.len() implies (#[trigger] rest[i]) as int <= 0x7f by {
            assert(rest[i] == tail[m + i]);
            assert(tail[m + i] == name[n + m + i]);
        }
    }
}

/// Moving the article to the end loses nothing but the white space behind it: the name is the
/// article, white space, and the rest. A name without an article is its own rest.
pub proof fn law_article_and_rest_make_the_name(name: Seq<char>)
    ensures
        match leading_article(name) {
            Some(article) => {
                let rest = without_article(name);
                &&& article.len() + rest.len() <= name.len()
                &&& text::begins(name, article)
                &&& text::finishes(name, rest)
                &&& forall|i: int|
                    article.len() <= i < name.len() - rest.len() ==> text::is_space(
                        #[trigger] name[i],
                    )
            },
            None => without_article(name) == name && sorted_name(name) == name,
        },
{
    lemma_article_len(name, articles());
    let n = article_len(name, articles()) as int;
    if n > 0 {
        let tail = name.subrange(n, name.len() as int);
        let m = lemma_trimmed_start(tail);
        let rest = without_article(name);
        assert(name.subrange(name.len() - rest.len(), name.len() as int) =~= rest);
        assert forall|i: int| n <= i < name.len() - rest.len() implies text::is_space(
            #[trigger] name[i],
        ) by {
            assert(name[i] == tail[i - n]);
        }
    }
}

/// The articles that do not count are these seven.
pub proof fn law_the_articles()
    ensures
        articles() == seq!["The"@, "El"@, "La"@, "Los"@, "Las"@, "Le"@, "Les"@],
{
    reveal_strlit("The El La Los Las Le Les");
    reveal_strlit("The");
    reveal_strlit("El");
    reveal_strlit("La");
    reveal_strlit("Los");
    reveal_strlit("Las");
    reveal_strlit("Le");
    reveal_strlit("Les");
    let s0 = "The El La Los Las Le Les"@;
    let s1 = s0.subrange(4, 24);
    let s2 = s0.subrange(7, 24);
    let s3 = s0.subrange(10, 24);
    let s4 = s0.subrange(14, 24);
    let s5 = s0.subrange(18, 24);
    let s6 = s0.subrange(21, 24);
    assert(s0 =~= "The"@ + seq![' '] + s1);
    assert(s1 =~= "El"@ + seq![' '] + s2);
    assert(s2 =~= "La"@ + seq![' '] + s3);
    assert(s3 =~= "Los"@ + seq![' '] + s4);
    assert(s4 =~= "Las"@ + seq![' '] + s5);
    assert(s5 =~= "Le"@ + seq![' '] + s6);
    assert(s6 =~= "Les"@);
    text::law_pieces_are_cut_at_each("The"@, ' ', s1);
    text::law_pieces_are_cut_at_each("El"@, ' ', s2);
    text::law_pieces_are_cut_at_each("La"@, ' ', s3);
    text::law_pieces_are_cut_at_each("Los"@, ' ', s4);
    text::law_pieces_are_cut_at_each("Las"@, ' ', s5);
    text::law_pieces_are_cut_at_each("Le"@, ' ', s6);
    text::law_pieces_are_cut_at_each("Les"@, ' ', s6);
    assert(articles() =~= seq!["The"@, "El"@, "La"@, "Los"@, "Las"@, "Le"@, "Les"@]);
}

proof fn lemma_article_at(name: Seq<char>, list: Seq<Seq<char>>, k: int)
    requires
        0 <= k < list.len(),
        has_article(name, list[k]),
        forall|i: int| 0 <= i < k ==> !has_article(name, #[trigger] list[i]),
    ensures
        article_len(name, list) == list[k].len(),
    decreases k,
{
    if k > 0 {
        let rest = list.drop_first();
        assert(!has_article(name, list[0]));
        assert forall|i: int| 0 <= i < k - 1 implies !has_article(name, #[trigger] rest[i]) by {
            assert(rest[i] == list[i + 1]);
        }
        assert(rest[k - 1] == list[k]);
        lemma_article_at(name, rest, k - 1);
    }
}

/// A name that begins with an article and a space, in whatever letters, is sorted by what
/// follows, and shown with the article behind a comma. A name without an article stays.
pub proof fn law_an_article_moves_to_the_end(
    article: Seq<char>,
    gap: Seq<char>,
    rest: Seq<char>,
    k: int,
)
    requires
        0 <= k < articles().len(),
        article.len() == articles()[k].len(),
        article.len() > 0,
        same_letters(article, articles()[k]),
        text::all_space(gap),
        gap.len() > 0,
        gap[0] == ' ',
        rest.len() > 0,
        !text::is_space(rest[0]),
        forall|i: int|
            0 <= i < k ==> !has_article(article + gap + rest, #[trigger] articles()[i]),
    ensures
        leading_article(article + gap + rest) == Some(article),
        without_article(article + gap + rest) == rest,
        sorted_name(article + gap + rest) == rest + ", "@ + article,
{
    let name = article + gap + rest;
    let n = article.len() as int;
    assert(name.subrange(0, n) =~= article);
    assert(name[n] == gap[0]);
    assert(has_article(name, articles()[k]));
    lemma_article_at(name, articles(), k);
    assert(name.subrange(n, name.len() as int) =~= gap + rest);
    text::lemma_trimmed_start(gap, rest);
}

} // verus!
