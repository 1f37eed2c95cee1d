//! The laws the matching semantics obeys, stated over the ghost models and
//! proved once and for all: output shapes for one or no binding, the
//! lexicographic order of a tuple output, the gating of guards, and the
//! agreement of the optional form with the must-match form.

use vstd::prelude::*;
use crate::ast::{GuardModel, MatchOutput, OutModel, PatModel, ValModel};
use crate::matching::MatchError;
use crate::order::{lemma_lex_total_ordering, lex_leq, lex_order};
use crate::semantics::{binds, guard_eval, has_name, idents, lemma_binds_names, lookup, outcome,
    shape_matches, sorted_idents};

verus! {

broadcast use vstd::seq_lib::group_to_multiset_ensures, vstd::multiset::group_multiset_axioms;

/// A pattern with exactly one binding identifier yields, on success, that
/// lone bound value — no tuple around it — and the value is genuinely
/// bound.
pub proof fn lemma_single_binding_output(v: ValModel, p: PatModel, g: Option<GuardModel>)
    requires
        idents(p).len() == 1,
        outcome(v, p, g) is Some,
    ensures
        outcome(v, p, g) == Option::Some(
            OutModel::Single(lookup(binds(v, p), idents(p)[0])),
        ),
        has_name(binds(v, p), idents(p)[0]),
{
    lemma_lex_total_ordering();
    idents(p).lemma_sort_by_ensures(lex_order());
    vstd::seq_lib::lemma_sorted_unique(idents(p), idents(p).sort_by(lex_order()), lex_order());
    assert(sorted_idents(p) == idents(p));
    let fst = |b: (Seq<char>, ValModel)| b.0;
    lemma_binds_names(v, p);
    assert(binds(v, p).map_values(fst).len() == 1);
    assert(binds(v, p)[0].0 == idents(p)[0]);
}

/// A pattern with no binding identifiers yields, on success, the unit
/// output.
pub proof fn lemma_no_binding_output(v: ValModel, p: PatModel, g: Option<GuardModel>)
    requires
        idents(p).len() == 0,
        outcome(v, p, g) is Some,
    ensures
        outcome(v, p, g) == Option::Some(OutModel::Unit),
{
    lemma_lex_total_ordering();
    idents(p).lemma_sort_by_ensures(lex_order());
    assert(sorted_idents(p).to_multiset().len() == sorted_idents(p).len());
    assert(idents(p).to_multiset().len() == 0);
}

/// A pattern binding two identifiers yields them in lexicographic order,
/// whichever source position bound which name, and both names are
/// genuinely bound.
pub proof fn lemma_two_bindings_order(
    v: ValModel,
    p: PatModel,
    g: Option<GuardModel>,
    a: Seq<char>,
    b: Seq<char>,
)
    requires
        lex_leq(a, b),
        idents(p) == seq![a, b] || idents(p) == seq![b, a],
        outcome(v, p, g) is Some,
    ensures
        outcome(v, p, g) == Option::Some(
            OutModel::Tuple(seq![lookup(binds(v, p), a), lookup(binds(v, p), b)]),
        ),
        has_name(binds(v, p), a),
        has_name(binds(v, p), b),
{
    let fst = |x: (Seq<char>, ValModel)| x.0;
    lemma_binds_names(v, p);
    assert(binds(v, p).map_values(fst).len() == 2);
    assert(binds(v, p)[0].0 == idents(p)[0]);
    assert(binds(v, p)[1].0 == idents(p)[1]);
    lemma_lex_total_ordering();
    idents(p).lemma_sort_by_ensures(lex_order());
    let cand = seq![a, b];
    assert(lex_order()(cand[0], cand[1]));
    assert(vstd::relations::sorted_by(cand, lex_order()));
    assert(seq![b, a].to_multiset() =~= seq![a, b].to_multiset()) by {
        assert(seq![a, b] =~= Seq::<Seq<char>>::empty().push(a).push(b));
        assert(seq![b, a] =~= Seq::<Seq<char>>::empty().push(b).push(a));
    }
    assert(cand.to_multiset() == idents(p).to_multiset());
    vstd::seq_lib::lemma_sorted_unique(cand, idents(p).sort_by(lex_order()), lex_order());
    assert(sorted_idents(p) == cand);
    let env = binds(v, p);
    let f = |n: Seq<char>| lookup(env, n);
    assert(cand.map_values(f) =~= seq![lookup(env, a), lookup(env, b)]);
}

/// The guard is consulted only after the shape matches, over the bindings
/// of the matched shape; a false guard on a matching shape fails the
/// attempt, and a failed shape fails it whatever the guard says.
pub proof fn lemma_guard_gate(v: ValModel, p: PatModel, g: GuardModel)
    ensures
        (outcome(v, p, Option::Some(g)) is Some) == (shape_matches(v, p) && guard_eval(
            g,
            binds(v, p),
        )),
        !shape_matches(v, p) ==> outcome(v, p, Option::Some(g)) is None,
{
}

/// The optional form agrees with the must-match form everywhere: any pair
/// of results meeting the two contracts for the same value, pattern and
/// guard is present exactly when the other is successful, with the same
/// output.
pub proof fn lemma_optional_form_agrees(
    v: ValModel,
    p: PatModel,
    g: Option<GuardModel>,
    opt: Option<MatchOutput>,
    res: Result<MatchOutput, MatchError>,
)
    requires
        match outcome(v, p, g) {
            Option::Some(out) => opt matches Option::Some(o) && o@ == out,
            Option::None => opt is None,
        },
        match outcome(v, p, g) {
            Option::Some(out) => res matches Result::Ok(o) && o@ == out,
            Option::None => res matches Result::Err(e) && e == (MatchError {  }),
        },
    ensures
        (opt is Some) == (res is Ok),
        opt is Some ==> opt->Some_0@ == res->Ok_0@,
{
}

} // verus!
