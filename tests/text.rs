use pachydurable::connect;
use pachydurable::fulltext::{_ts_expression_old, sanitize_tsquery, ts_expression};

fn is_operator(c: char) -> bool {
    c == '&' || c == '|' || c == '!'
}

fn assert_well_formed(r: &str) {
    let cs: Vec<char> = r.chars().collect();
    for c in &cs {
        assert!(c.is_ascii_alphanumeric() || is_operator(*c), "unexpected {:?} in {:?}", c, r);
    }
    for w in cs.windows(2) {
        assert!(!(is_operator(w[0]) && w[0] == w[1]), "doubled operator in {:?}", r);
    }
    if let (Some(first), Some(last)) = (cs.first(), cs.last()) {
        assert!(!is_operator(*first) && !is_operator(*last), "operator at an end of {:?}", r);
    }
}

#[test]
fn sanitize_joins_words_and_marks_prefix() {
    assert_eq!(sanitize_tsquery("crimson thread", true), "crimson&thread:*");
}

#[test]
fn sanitize_without_prefix_marker() {
    assert_eq!(sanitize_tsquery("crimson thread", false), "crimson&thread");
}

#[test]
fn sanitize_collapses_and_trims_operators() {
    let r = sanitize_tsquery("  hello!! && world || ", false);
    assert_eq!(r, "hello!&world");
    assert_well_formed(&r);
}

#[test]
fn sanitize_strips_other_characters() {
    assert_eq!(sanitize_tsquery("O'Brien's café", false), "OBriens&caf");
    assert_eq!(sanitize_tsquery("a\tb\n\nc", false), "a&b&c");
}

#[test]
fn sanitize_leading_operators_removed() {
    assert_eq!(sanitize_tsquery("& | !fox", false), "fox");
    assert_eq!(sanitize_tsquery("!!!", false), "");
}

#[test]
fn sanitize_empty_phrase() {
    assert_eq!(sanitize_tsquery("", false), "");
    assert_eq!(sanitize_tsquery("", true), ":*");
    assert_eq!(sanitize_tsquery("   ", true), ":*");
}

#[test]
fn sanitize_output_is_always_well_formed() {
    let phrases = [
        "a && b", "||x||", "!a !b", "&|&|&", "x & & y", "--drop table;", "  ", "ünïcödé wörds",
        "a|b|c", "!!a!!", "tab\there", "50% off!",
    ];
    for p in phrases.iter() {
        assert_well_formed(&sanitize_tsquery(p, false));
    }
}

#[test]
fn ts_expression_marks_prefix() {
    assert_eq!(ts_expression("crimson thread"), "crimson&thread:*");
    assert_eq!(ts_expression("Fox"), "Fox:*");
}

#[test]
fn connect_ts_expression_prefix_terms() {
    assert_eq!(connect::ts_expression("Crimson  Thread"), "crimson:* & thread:*");
    assert_eq!(connect::ts_expression("fox"), "fox:*");
    assert_eq!(connect::ts_expression("   "), "");
    assert_eq!(connect::ts_expression(""), "");
}

#[test]
fn old_ts_expression_matches_connect_form() {
    assert_eq!(_ts_expression_old(" Red\tFox "), "red:* & fox:*");
}
