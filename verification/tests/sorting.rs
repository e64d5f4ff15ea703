use subtidal::sorting::{sort_key, sort_name, split_article, IGNORED_ARTICLES};

#[test]
fn sort_key_strips_leading_article() {
    assert_eq!(sort_key("The Beatles"), "beatles");
    assert_eq!(sort_key("Los Lobos"), "lobos");
    assert_eq!(sort_key("Theory of a Deadman"), "theory of a deadman");
    assert_eq!(sort_key("The"), "");
}

#[test]
fn sort_name_moves_article_to_the_end() {
    assert_eq!(sort_name("The Beatles"), "Beatles, The");
    assert_eq!(sort_name("the strokes"), "strokes, the");
    assert_eq!(sort_name("Four Year Strong"), "Four Year Strong");
    assert_eq!(sort_name("The"), "The");
}

#[test]
fn white_space_behind_an_article_goes_with_it() {
    assert_eq!(sort_name("The   Beatles"), "Beatles, The");
    assert_eq!(sort_key("LES  Négresses"), "négresses");
    assert_eq!(sort_name("El "), "El ");
    assert_eq!(split_article("Las Ketchup"), ("Ketchup", Some("Las")));
    assert_eq!(split_article("Lassie"), ("Lassie", None));
    assert_eq!(IGNORED_ARTICLES, "The El La Los Las Le Les");
}
