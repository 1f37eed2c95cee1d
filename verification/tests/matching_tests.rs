use std::cell::Cell;
use variant::ast::{FieldPat, FieldValue, Guard, Lit, MatchOutput, Pat, Value};
use variant::matching::{clone_value, get_variant, try_variant, try_variant_or,
    try_variant_or_else};

fn bind(n: &str) -> Pat {
    Pat::Bind(n.to_string())
}

fn some_v(inner: Value) -> Value {
    Value::Ctor("Some".to_string(), vec![inner])
}

fn some_p(inner: Pat) -> Pat {
    Pat::Ctor("Some".to_string(), vec![inner])
}

fn int_v(k: i64) -> Value {
    Value::Lit(Lit::Int(k))
}

fn boolean(b: bool) -> Value {
    Value::Lit(Lit::Bool(b))
}

#[test]
fn single_binding_returns_bare_value() {
    // val = Some((0, 1)); pattern Some((i, _)) binds i to 0.
    let val = some_v(Value::Tuple(vec![int_v(0), int_v(1)]));
    let pat = some_p(Pat::Tuple(vec![bind("i"), Pat::Wild]));
    let res = try_variant(val, &pat, None).expect("i");
    assert_eq!(res, MatchOutput::Single(int_v(0)));
}

#[test]
fn literal_mismatch_is_an_error() {
    // val = Some((0, 1)); pattern Some((10, j)) does not match.
    let val = some_v(Value::Tuple(vec![int_v(0), int_v(1)]));
    let pat = some_p(Pat::Tuple(vec![Pat::Lit(Lit::Int(10)), bind("j")]));
    let res = try_variant(val, &pat, None);
    assert!(res.is_err());
    assert_eq!(
        res.unwrap_err().message(),
        "pattern does not match, or guard not satisfied"
    );
}

#[test]
fn no_bindings_return_unit() {
    let val = some_v(int_v(3));
    let pat = some_p(Pat::Wild);
    let res = try_variant(val, &pat, None).expect("unit");
    assert_eq!(res, MatchOutput::Unit);
}

#[test]
fn two_bindings_come_out_in_name_order() {
    // val = (Some(10), Some(true)); pattern (Some(b), Some(a)):
    // a is bound to true, b to 10, and the output orders them (a, b).
    let val = Value::Tuple(vec![some_v(int_v(10)), some_v(boolean(true))]);
    let pat = Pat::Tuple(vec![some_p(bind("b")), some_p(bind("a"))]);
    let res = try_variant(val, &pat, None).expect("tuple");
    assert_eq!(res, MatchOutput::Tuple(vec![boolean(true), int_v(10)]));
}

#[test]
fn two_fields_in_declaration_order_when_names_sorted() {
    // A tagged union holding (false, -5) across two fields; i is bound to
    // the boolean field's inner value and j to the integer field's.
    let val = Value::Ctor(
        "Two".to_string(),
        vec![
            Value::Ctor("B".to_string(), vec![boolean(false)]),
            Value::Ctor("I".to_string(), vec![int_v(-5)]),
        ],
    );
    let pat = Pat::Ctor(
        "Two".to_string(),
        vec![
            Pat::Ctor("B".to_string(), vec![bind("i")]),
            Pat::Ctor("I".to_string(), vec![bind("j")]),
        ],
    );
    let res = try_variant(clone_value(&val), &pat, None).expect("pair");
    assert_eq!(res, MatchOutput::Tuple(vec![boolean(false), int_v(-5)]));

    // Swapping the bound names to b/a against the same physical positions
    // reorders the tuple to (a-bound-value, b-bound-value).
    let pat2 = Pat::Ctor(
        "Two".to_string(),
        vec![
            Pat::Ctor("B".to_string(), vec![bind("b")]),
            Pat::Ctor("I".to_string(), vec![bind("a")]),
        ],
    );
    let res2 = try_variant(val, &pat2, None).expect("pair");
    assert_eq!(res2, MatchOutput::Tuple(vec![int_v(-5), boolean(false)]));
}

#[test]
fn guard_false_fails_a_matching_shape() {
    // val = Foo { a: 20 }; pattern Foo(a) if a == 21 fails, if a == 20
    // succeeds.
    let val = Value::Ctor("Foo".to_string(), vec![int_v(20)]);
    let pat = Pat::Ctor("Foo".to_string(), vec![bind("a")]);
    let g_false = Guard::Eq("a".to_string(), Lit::Int(21));
    let g_true = Guard::Eq("a".to_string(), Lit::Int(20));
    assert!(try_variant(clone_value(&val), &pat, Some(&g_false)).is_err());
    let res = try_variant(val, &pat, Some(&g_true)).expect("a");
    assert_eq!(res, MatchOutput::Single(int_v(20)));
}

#[test]
fn guard_less_than_and_negation() {
    let val = some_v(int_v(4));
    let pat = some_p(bind("n"));
    let lt = Guard::Lt("n".to_string(), 5);
    let not_lt = Guard::Not(Box::new(Guard::Lt("n".to_string(), 5)));
    assert!(get_variant(clone_value(&val), &pat, Some(&lt)).is_some());
    assert!(get_variant(val, &pat, Some(&not_lt)).is_none());
}

#[test]
fn literal_error_is_carried_verbatim() {
    #[derive(Debug, PartialEq)]
    enum MyError {
        Bad,
        Worse,
    }
    let val = some_v(int_v(1));
    let ok_pat = some_p(bind("i"));
    let bad_pat = some_p(Pat::Lit(Lit::Int(50)));
    let res = try_variant_or(clone_value(&val), &ok_pat, None, MyError::Bad).expect("i");
    assert_eq!(res, MatchOutput::Single(int_v(1)));
    let res = try_variant_or(val, &bad_pat, None, MyError::Worse);
    assert_eq!(res.unwrap_err(), MyError::Worse);
}

#[test]
fn callable_error_is_invoked_exactly_once_on_failure() {
    let calls = Cell::new(0u32);
    let val = some_v(int_v(1));
    let bad_pat = some_p(Pat::Lit(Lit::Int(50)));
    let res = try_variant_or_else(val, &bad_pat, None, || {
        calls.set(calls.get() + 1);
        "expensive".to_string()
    });
    assert_eq!(res.unwrap_err(), "expensive");
    assert_eq!(calls.get(), 1);
}

#[test]
fn callable_error_is_not_invoked_on_success() {
    let calls = Cell::new(0u32);
    let val = some_v(int_v(1));
    let ok_pat = some_p(bind("i"));
    let res = try_variant_or_else(val, &ok_pat, None, || {
        calls.set(calls.get() + 1);
        "expensive".to_string()
    });
    assert_eq!(res.expect("i"), MatchOutput::Single(int_v(1)));
    assert_eq!(calls.get(), 0);
}

#[test]
fn optional_form_agrees_with_must_match_form() {
    let triples = vec![
        (
            some_v(Value::Tuple(vec![int_v(0), int_v(1)])),
            some_p(Pat::Tuple(vec![bind("i"), Pat::Wild])),
            None,
        ),
        (
            some_v(Value::Tuple(vec![int_v(0), int_v(1)])),
            some_p(Pat::Tuple(vec![Pat::Lit(Lit::Int(10)), bind("j")])),
            None,
        ),
        (
            some_v(int_v(7)),
            some_p(bind("n")),
            Some(Guard::Lt("n".to_string(), 5)),
        ),
        (
            some_v(int_v(3)),
            some_p(bind("n")),
            Some(Guard::Lt("n".to_string(), 5)),
        ),
    ];
    for (val, pat, guard) in triples {
        let opt = get_variant(clone_value(&val), &pat, guard.as_ref());
        let res = try_variant(val, &pat, guard.as_ref());
        match (opt, res) {
            (Some(o), Ok(r)) => assert_eq!(o, r),
            (None, Err(_)) => {}
            other => panic!("forms disagree: {:?}", other),
        }
    }
}

#[test]
fn none_marker_matches_only_the_marker_value() {
    let none_val = Value::Ctor("None".to_string(), vec![]);
    let pat = bind("None");
    assert_eq!(
        get_variant(none_val, &pat, None),
        Some(MatchOutput::Unit)
    );
    assert_eq!(get_variant(some_v(int_v(1)), &pat, None), None);
}

#[test]
fn range_pattern_matches_inclusively() {
    let pat = some_p(Pat::Range(1, 5));
    assert!(get_variant(some_v(int_v(1)), &pat, None).is_some());
    assert!(get_variant(some_v(int_v(5)), &pat, None).is_some());
    assert!(get_variant(some_v(int_v(7)), &pat, None).is_none());
    assert!(get_variant(some_v(boolean(true)), &pat, None).is_none());
}

#[test]
fn reference_pattern_sees_through() {
    let pat = Pat::Ref(Box::new(bind("x")));
    let res = get_variant(int_v(9), &pat, None).expect("x");
    assert_eq!(res, MatchOutput::Single(int_v(9)));
}

#[test]
fn arity_and_name_mismatches_fail() {
    let val = Value::Ctor("Pair".to_string(), vec![int_v(1), int_v(2)]);
    let wrong_name = Pat::Ctor("Trio".to_string(), vec![bind("a"), bind("b")]);
    let wrong_arity = Pat::Ctor("Pair".to_string(), vec![bind("a")]);
    assert!(get_variant(clone_value(&val), &wrong_name, None).is_none());
    assert!(get_variant(val, &wrong_arity, None).is_none());
}

fn foo_record(a: i64) -> Value {
    Value::Record(
        "Foo".to_string(),
        vec![
            FieldValue {
                name: "a".to_string(),
                value: int_v(a),
            },
            FieldValue {
                name: "b".to_string(),
                value: boolean(true),
            },
        ],
    )
}

#[test]
fn record_pattern_with_rest_matches_by_name() {
    // Foo { a, .. } binds a whatever other fields the value holds.
    let pat = Pat::Record(
        "Foo".to_string(),
        vec![FieldPat {
            name: "a".to_string(),
            pat: bind("a"),
        }],
        true,
    );
    let g = Guard::Eq("a".to_string(), Lit::Int(20));
    let res = try_variant(foo_record(20), &pat, Some(&g)).expect("a");
    assert_eq!(res, MatchOutput::Single(int_v(20)));
    assert!(try_variant(foo_record(7), &pat, Some(&g)).is_err());
}

#[test]
fn record_pattern_without_rest_must_list_every_field() {
    let partial = Pat::Record(
        "Foo".to_string(),
        vec![FieldPat {
            name: "a".to_string(),
            pat: bind("a"),
        }],
        false,
    );
    assert!(get_variant(foo_record(1), &partial, None).is_none());

    let full = Pat::Record(
        "Foo".to_string(),
        vec![
            FieldPat {
                name: "a".to_string(),
                pat: bind("a"),
            },
            FieldPat {
                name: "b".to_string(),
                pat: Pat::Wild,
            },
        ],
        false,
    );
    let res = get_variant(foo_record(1), &full, None).expect("a");
    assert_eq!(res, MatchOutput::Single(int_v(1)));
}

#[test]
fn record_field_names_must_exist() {
    let pat = Pat::Record(
        "Foo".to_string(),
        vec![FieldPat {
            name: "missing".to_string(),
            pat: bind("x"),
        }],
        true,
    );
    assert!(get_variant(foo_record(1), &pat, None).is_none());
}

#[test]
fn constant_guards_gate_a_matching_shape() {
    let pat = some_p(Pat::Wild);
    let g_false = Guard::Lit(false);
    let g_true = Guard::And(
        Box::new(Guard::Lit(true)),
        Box::new(Guard::Not(Box::new(Guard::Lit(false)))),
    );
    assert!(get_variant(some_v(int_v(1)), &pat, Some(&g_false)).is_none());
    assert_eq!(
        get_variant(some_v(int_v(1)), &pat, Some(&g_true)),
        Some(MatchOutput::Unit)
    );
}

#[test]
fn guard_on_unbound_name_fails() {
    let pat = some_p(Pat::Wild);
    let g = Guard::Eq("missing".to_string(), Lit::Int(1));
    assert!(get_variant(some_v(int_v(1)), &pat, Some(&g)).is_none());
}

#[test]
fn at_binding_takes_whole_value_and_recurses() {
    // x @ Some(y) binds x to the whole value and y to the payload.
    let pat = Pat::At("x".to_string(), Box::new(some_p(bind("y"))));
    let res = try_variant(some_v(int_v(3)), &pat, None).expect("pair");
    assert_eq!(
        res,
        MatchOutput::Tuple(vec![some_v(int_v(3)), int_v(3)])
    );
    assert!(try_variant(int_v(3), &pat, None).is_err());
}
