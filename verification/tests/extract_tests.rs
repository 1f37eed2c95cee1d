use variant::ast::{Lit, Pat};
use variant::extract::{extract_variant_assign, Assign};

fn bind(n: &str) -> Pat {
    Pat::Bind(n.to_string())
}

#[test]
fn single_identifier_is_unwrapped() {
    // Some((i, _)) has exactly one binding identifier.
    let p = Pat::Ctor(
        "Some".to_string(),
        vec![Pat::Tuple(vec![bind("i"), Pat::Wild])],
    );
    let a = extract_variant_assign(&p).expect("translates");
    assert_eq!(a, Assign::Single("i".to_string()));
}

#[test]
fn no_identifiers_give_empty_tuple() {
    let p = Pat::Ctor("Some".to_string(), vec![Pat::Wild]);
    let a = extract_variant_assign(&p).expect("translates");
    assert_eq!(a, Assign::Tuple(vec![]));
}

#[test]
fn identifiers_come_out_sorted() {
    // (c, a, b) in source order comes out as (a, b, c).
    let p = Pat::Tuple(vec![bind("c"), bind("a"), bind("b")]);
    let a = extract_variant_assign(&p).expect("translates");
    assert_eq!(
        a,
        Assign::Tuple(vec!["a".to_string(), "b".to_string(), "c".to_string()])
    );
}

#[test]
fn sorting_is_by_name_not_position() {
    let p = Pat::Tuple(vec![
        Pat::Ctor("Some".to_string(), vec![bind("b")]),
        Pat::Ctor("Some".to_string(), vec![bind("a")]),
    ]);
    let a = extract_variant_assign(&p).expect("translates");
    assert_eq!(a, Assign::Tuple(vec!["a".to_string(), "b".to_string()]));
}

#[test]
fn longer_names_sort_lexicographically() {
    let p = Pat::Tuple(vec![bind("ab"), bind("b"), bind("a"), bind("aa")]);
    let a = extract_variant_assign(&p).expect("translates");
    assert_eq!(
        a,
        Assign::Tuple(vec![
            "a".to_string(),
            "aa".to_string(),
            "ab".to_string(),
            "b".to_string()
        ])
    );
}

#[test]
fn none_marker_is_not_an_identifier() {
    // A bare `None` cannot be told apart from the marker, so it binds
    // nothing.
    let p = Pat::Tuple(vec![bind("None"), bind("x")]);
    let a = extract_variant_assign(&p).expect("translates");
    assert_eq!(a, Assign::Single("x".to_string()));
}

#[test]
fn alternation_at_top_fails_translation() {
    let p = Pat::Or(vec![bind("a"), bind("b")]);
    let e = extract_variant_assign(&p).expect_err("alternation");
    assert_eq!(e.message(), "alternation patterns are not supported");
}

#[test]
fn alternation_nested_fails_translation() {
    // The alternation sits two levels down; translation must still fail.
    let p = Pat::Ctor(
        "Some".to_string(),
        vec![Pat::Tuple(vec![
            bind("x"),
            Pat::Ref(Box::new(Pat::Or(vec![Pat::Wild, bind("y")]))),
        ])],
    );
    assert!(extract_variant_assign(&p).is_err());
}

#[test]
fn reference_patterns_are_seen_through() {
    let p = Pat::Ref(Box::new(bind("z")));
    let a = extract_variant_assign(&p).expect("translates");
    assert_eq!(a, Assign::Single("z".to_string()));
}

#[test]
fn none_marker_alone_binds_nothing() {
    let a = extract_variant_assign(&bind("None")).expect("translates");
    assert_eq!(a, Assign::Tuple(vec![]));
}

#[test]
fn wildcards_and_literals_bind_nothing() {
    let p = Pat::Tuple(vec![Pat::Wild, Pat::Lit(Lit::Bool(true)), Pat::Range(0, 9)]);
    let a = extract_variant_assign(&p).expect("translates");
    assert_eq!(a, Assign::Tuple(vec![]));
}
