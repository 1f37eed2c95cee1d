//! The meaning of a match, stated over the ghost models: which values a
//! pattern accepts, which bindings it produces, what a guard makes of them,
//! and the output a successful match hands back.

use vstd::prelude::*;
use crate::ast::{GuardModel, Lit, OutModel, PatModel, ValModel, none_marker, none_model};
use crate::order::lex_order;

verus! {

/// Whether an alternation stands anywhere in the pattern.
pub open spec fn has_or(p: PatModel) -> bool
    decreases p,
{
    match p {
        PatModel::Or(_) => true,
        PatModel::At(_, sub) => has_or(*sub),
        PatModel::Ref(sub) => has_or(*sub),
        PatModel::Tuple(ps) => has_or_seq(ps),
        PatModel::Ctor(_, ps) => has_or_seq(ps),
        PatModel::Record(_, fps, _) => has_or_fseq(fps),
        _ => false,
    }
}

pub open spec fn has_or_seq(ps: Seq<PatModel>) -> bool
    decreases ps,
{
    if ps.len() == 0 {
        false
    } else {
        has_or(ps[0]) || has_or_seq(ps.drop_first())
    }
}

pub open spec fn has_or_fseq(fps: Seq<(Seq<char>, PatModel)>) -> bool
    decreases fps,
{
    if fps.len() == 0 {
        false
    } else {
        has_or(fps[0].1) || has_or_fseq(fps.drop_first())
    }
}

/// The pattern's binding identifiers in source order, the no-value marker
/// excluded.  An alternation yields none: translation rejects it before any
/// identifier is used.
pub open spec fn idents(p: PatModel) -> Seq<Seq<char>>
    decreases p,
{
    match p {
        PatModel::Bind(n) => if n == none_marker() {
            Seq::empty()
        } else {
            seq![n]
        },
        PatModel::At(n, sub) => (if n == none_marker() {
            Seq::empty()
        } else {
            seq![n]
        }) + idents(*sub),
        PatModel::Ref(sub) => idents(*sub),
        PatModel::Tuple(ps) => idents_seq(ps),
        PatModel::Ctor(_, ps) => idents_seq(ps),
        PatModel::Record(_, fps, _) => idents_fseq(fps),
        _ => Seq::empty(),
    }
}

pub open spec fn idents_seq(ps: Seq<PatModel>) -> Seq<Seq<char>>
    decreases ps,
{
    if ps.len() == 0 {
        Seq::empty()
    } else {
        idents(ps[0]) + idents_seq(ps.drop_first())
    }
}

pub open spec fn idents_fseq(fps: Seq<(Seq<char>, PatModel)>) -> Seq<Seq<char>>
    decreases fps,
{
    if fps.len() == 0 {
        Seq::empty()
    } else {
        idents(fps[0].1) + idents_fseq(fps.drop_first())
    }
}

/// The index of the first field of that name, or -1 where none is.
pub open spec fn field_index(fs: Seq<(Seq<char>, ValModel)>, n: Seq<char>) -> int
    decreases fs.len(),
{
    if fs.len() == 0 {
        -1
    } else if fs[0].0 == n {
        0
    } else {
        let r = field_index(fs.drop_first(), n);
        if r < 0 {
            -1
        } else {
            r + 1
        }
    }
}

/// The identifiers in output order: lexicographic, whatever their source
/// positions.
pub open spec fn sorted_idents(p: PatModel) -> Seq<Seq<char>> {
    idents(p).sort_by(lex_order())
}

/// Does the value's shape conform to the pattern?
pub open spec fn shape_matches(v: ValModel, p: PatModel) -> bool
    decreases p,
{
    match p {
        PatModel::Wild => true,
        PatModel::Bind(n) => if n == none_marker() {
            v == none_model()
        } else {
            true
        },
        PatModel::Lit(l) => v == ValModel::Lit(l),
        PatModel::Range(lo, hi) => match v {
            ValModel::Lit(Lit::Int(k)) => lo <= k <= hi,
            _ => false,
        },
        PatModel::At(n, sub) => (if n == none_marker() {
            v == none_model()
        } else {
            true
        }) && shape_matches(v, *sub),
        PatModel::Ref(sub) => shape_matches(v, *sub),
        PatModel::Tuple(ps) => match v {
            ValModel::Tuple(vs) => shape_matches_seq(vs, ps),
            _ => false,
        },
        PatModel::Ctor(n, ps) => match v {
            ValModel::Ctor(vn, vs) => vn == n && shape_matches_seq(vs, ps),
            _ => false,
        },
        PatModel::Record(n, fps, rest) => match v {
            ValModel::Record(vn, fs) => vn == n && fields_match(fs, fps) && (!rest
                ==> fps.len() == fs.len()),
            _ => false,
        },
        PatModel::Or(_) => false,
    }
}

/// Every listed field pattern finds a field of its name whose value it
/// matches.
pub open spec fn fields_match(
    fs: Seq<(Seq<char>, ValModel)>,
    fps: Seq<(Seq<char>, PatModel)>,
) -> bool
    decreases fps,
{
    if fps.len() == 0 {
        true
    } else {
        let i = field_index(fs, fps[0].0);
        0 <= i && shape_matches(fs[i].1, fps[0].1) && fields_match(fs, fps.drop_first())
    }
}

pub open spec fn shape_matches_seq(vs: Seq<ValModel>, ps: Seq<PatModel>) -> bool
    decreases ps,
{
    if vs.len() != ps.len() {
        false
    } else if ps.len() == 0 {
        true
    } else {
        shape_matches(vs[0], ps[0]) && shape_matches_seq(vs.drop_first(), ps.drop_first())
    }
}

/// The bindings a match produces, in source order: each identifier paired
/// with the sub-value standing where the identifier stands.
pub open spec fn binds(v: ValModel, p: PatModel) -> Seq<(Seq<char>, ValModel)>
    decreases p,
{
    match p {
        PatModel::Bind(n) => if n == none_marker() {
            Seq::empty()
        } else {
            seq![(n, v)]
        },
        PatModel::At(n, sub) => (if n == none_marker() {
            Seq::empty()
        } else {
            seq![(n, v)]
        }) + binds(v, *sub),
        PatModel::Ref(sub) => binds(v, *sub),
        PatModel::Tuple(ps) => match v {
            ValModel::Tuple(vs) => binds_seq(vs, ps),
            _ => Seq::empty(),
        },
        PatModel::Ctor(_, ps) => match v {
            ValModel::Ctor(_, vs) => binds_seq(vs, ps),
            _ => Seq::empty(),
        },
        PatModel::Record(_, fps, _) => match v {
            ValModel::Record(_, fs) => binds_fields(fs, fps),
            _ => Seq::empty(),
        },
        _ => Seq::empty(),
    }
}

pub open spec fn binds_seq(vs: Seq<ValModel>, ps: Seq<PatModel>) -> Seq<(Seq<char>, ValModel)>
    decreases ps,
{
    if vs.len() == 0 || ps.len() == 0 {
        Seq::empty()
    } else {
        binds(vs[0], ps[0]) + binds_seq(vs.drop_first(), ps.drop_first())
    }
}

pub open spec fn binds_fields(
    fs: Seq<(Seq<char>, ValModel)>,
    fps: Seq<(Seq<char>, PatModel)>,
) -> Seq<(Seq<char>, ValModel)>
    decreases fps,
{
    if fps.len() == 0 {
        Seq::empty()
    } else {
        let i = field_index(fs, fps[0].0);
        (if 0 <= i {
            binds(fs[i].1, fps[0].1)
        } else {
            Seq::empty()
        }) + binds_fields(fs, fps.drop_first())
    }
}

/// The first value bound to the name, or the unit value where none is —
/// a case that never arises for the identifiers of a matched pattern.
pub open spec fn lookup(env: Seq<(Seq<char>, ValModel)>, n: Seq<char>) -> ValModel
    decreases env.len(),
{
    if env.len() == 0 {
        ValModel::Tuple(Seq::empty())
    } else if env[0].0 == n {
        env[0].1
    } else {
        lookup(env.drop_first(), n)
    }
}

pub open spec fn has_name(env: Seq<(Seq<char>, ValModel)>, n: Seq<char>) -> bool {
    exists|i: int| 0 <= i < env.len() && env[i].0 == n
}

/// Guard evaluation over a binding environment.
pub open spec fn guard_eval(g: GuardModel, env: Seq<(Seq<char>, ValModel)>) -> bool
    decreases g,
{
    match g {
        GuardModel::Lit(b) => b,
        GuardModel::Eq(n, l) => has_name(env, n) && lookup(env, n) == ValModel::Lit(l),
        GuardModel::Lt(n, k) => has_name(env, n) && match lookup(env, n) {
            ValModel::Lit(Lit::Int(m)) => m < k,
            _ => false,
        },
        GuardModel::Not(sub) => !guard_eval(*sub, env),
        GuardModel::And(x, y) => guard_eval(*x, env) && guard_eval(*y, env),
    }
}

/// An absent guard passes; a present one must evaluate to true.
pub open spec fn guard_passes(g: Option<GuardModel>, env: Seq<(Seq<char>, ValModel)>) -> bool {
    match g {
        Option::None => true,
        Option::Some(gm) => guard_eval(gm, env),
    }
}

/// The output for a given name order and environment: the lone value, the
/// unit output, or the tuple of values in the order of the names.
pub open spec fn out_of(names: Seq<Seq<char>>, env: Seq<(Seq<char>, ValModel)>) -> OutModel {
    if names.len() == 0 {
        OutModel::Unit
    } else if names.len() == 1 {
        OutModel::Single(lookup(env, names[0]))
    } else {
        OutModel::Tuple(names.map_values(|n: Seq<char>| lookup(env, n)))
    }
}

/// What one match attempt yields: the output on success, nothing otherwise.
/// The guard is consulted only over the bindings of an already matching
/// shape.
pub open spec fn outcome(v: ValModel, p: PatModel, g: Option<GuardModel>) -> Option<OutModel> {
    if shape_matches(v, p) && guard_passes(g, binds(v, p)) {
        Option::Some(out_of(sorted_idents(p), binds(v, p)))
    } else {
        Option::None
    }
}

/// Where no binding carries the name, `lookup` falls back to the unit
/// value.
pub proof fn lemma_lookup_default(e: Seq<(Seq<char>, ValModel)>, n: Seq<char>)
    requires
        !has_name(e, n),
    ensures
        lookup(e, n) == ValModel::Tuple(Seq::<ValModel>::empty()),
    decreases e.len(),
{
    if e.len() > 0 {
        assert(e[0].0 != n);
        assert forall|j: int| 0 <= j < e.drop_first().len() implies e.drop_first()[j].0 != n by {
            assert(e[j + 1].0 == e.drop_first()[j].0);
        }
        lemma_lookup_default(e.drop_first(), n);
    }
}

/// The names of the bindings of a matching pattern are exactly its
/// identifiers, in source order.
pub proof fn lemma_binds_names(v: ValModel, p: PatModel)
    requires
        shape_matches(v, p),
    ensures
        binds(v, p).map_values(|b: (Seq<char>, ValModel)| b.0) == idents(p),
    decreases p,
{
    let fst = |b: (Seq<char>, ValModel)| b.0;
    match p {
        PatModel::At(n, sub) => {
            lemma_binds_names(v, *sub);
            assert(binds(v, p).map_values(fst) =~= (if n == none_marker() {
                Seq::<Seq<char>>::empty()
            } else {
                seq![n]
            }) + binds(v, *sub).map_values(fst));
        },
        PatModel::Ref(sub) => {
            lemma_binds_names(v, *sub);
        },
        PatModel::Tuple(ps) => {
            if let ValModel::Tuple(vs) = v {
                lemma_binds_names_seq(vs, ps);
            }
        },
        PatModel::Ctor(_, ps) => {
            if let ValModel::Ctor(_, vs) = v {
                lemma_binds_names_seq(vs, ps);
            }
        },
        PatModel::Record(_, fps, _) => {
            if let ValModel::Record(_, fs) = v {
                lemma_binds_names_fields(fs, fps);
            }
        },
        _ => {
            assert(binds(v, p).map_values(fst) =~= idents(p));
        },
    }
}

pub proof fn lemma_binds_names_fields(
    fs: Seq<(Seq<char>, ValModel)>,
    fps: Seq<(Seq<char>, PatModel)>,
)
    requires
        fields_match(fs, fps),
    ensures
        binds_fields(fs, fps).map_values(|b: (Seq<char>, ValModel)| b.0) == idents_fseq(fps),
    decreases fps,
{
    let fst = |b: (Seq<char>, ValModel)| b.0;
    if fps.len() == 0 {
        assert(binds_fields(fs, fps).map_values(fst) =~= idents_fseq(fps));
    } else {
        let i = field_index(fs, fps[0].0);
        lemma_binds_names(fs[i].1, fps[0].1);
        lemma_binds_names_fields(fs, fps.drop_first());
        assert(binds_fields(fs, fps).map_values(fst) =~= binds(fs[i].1, fps[0].1).map_values(fst)
            + binds_fields(fs, fps.drop_first()).map_values(fst));
    }
}

pub proof fn lemma_binds_names_seq(vs: Seq<ValModel>, ps: Seq<PatModel>)
    requires
        shape_matches_seq(vs, ps),
    ensures
        binds_seq(vs, ps).map_values(|b: (Seq<char>, ValModel)| b.0) == idents_seq(ps),
    decreases ps,
{
    let fst = |b: (Seq<char>, ValModel)| b.0;
    if ps.len() == 0 {
        assert(binds_seq(vs, ps).map_values(fst) =~= idents_seq(ps));
    } else {
        lemma_binds_names(vs[0], ps[0]);
        lemma_binds_names_seq(vs.drop_first(), ps.drop_first());
        assert(binds_seq(vs, ps).map_values(fst) =~= binds(vs[0], ps[0]).map_values(fst)
            + binds_seq(vs.drop_first(), ps.drop_first()).map_values(fst));
    }
}

} // verus!
