//! One match attempt at runtime: conform the value's shape to the pattern,
//! bind the pattern's identifiers, consult the guard over the bindings, and
//! on success hand back the bound values in the translated order.

use vstd::prelude::*;
use crate::ast::{Binding, FieldPat, FieldValue, Guard, GuardModel, Lit, MatchOutput, Pat,
    ValModel, Value, env_view, fields_view, fpats_view, names_view, none_model, pats_view,
    val_view, vals_view};
use crate::extract::{collect_idents, sort_names};
use crate::order::{lemma_lex_total_ordering, lex_order, str_eq};
use crate::semantics::{binds, binds_fields, binds_seq, field_index, fields_match, guard_eval,
    has_name, has_or, idents, lookup, out_of, outcome, shape_matches, shape_matches_seq,
    sorted_idents};

verus! {

broadcast use vstd::seq::axiom_seq_index_decreases, crate::ast::lemma_vals_view,
    crate::ast::lemma_pats_view, crate::ast::lemma_fields_view, crate::ast::lemma_fpats_view;

/// The guard argument of a match attempt, viewed.
pub open spec fn guard_opt_view(g: Option<&Guard>) -> Option<GuardModel> {
    match g {
        Option::Some(gd) => Option::Some(gd@),
        Option::None => Option::None,
    }
}

/// A deep copy of a value: same model.
pub fn clone_value(v: &Value) -> (r: Value)
    ensures
        r@ == v@,
    decreases *v,
{
    match v {
        Value::Lit(l) => Value::Lit(*l),
        Value::Tuple(vs) => {
            proof {
                assert(decreases_to!(*v => v->Tuple_0));
                assert(decreases_to!(v->Tuple_0 => v->Tuple_0@));
                assert(decreases_to!(*v => vs@));
            }
            Value::Tuple(clone_values(vs))
        },
        Value::Ctor(n, vs) => {
            proof {
                assert(decreases_to!(*v => v->Ctor_1));
                assert(decreases_to!(v->Ctor_1 => v->Ctor_1@));
                assert(decreases_to!(*v => vs@));
            }
            Value::Ctor(n.clone(), clone_values(vs))
        },
        Value::Record(n, fs) => {
            proof {
                assert(decreases_to!(*v => v->Record_1));
                assert(decreases_to!(v->Record_1 => v->Record_1@));
                assert(decreases_to!(*v => fs@));
            }
            Value::Record(n.clone(), clone_fields(fs))
        },
    }
}

fn clone_fields(fs: &Vec<FieldValue>) -> (r: Vec<FieldValue>)
    ensures
        fields_view(r@) == fields_view(fs@),
    decreases fs@,
{
    let mut out: Vec<FieldValue> = Vec::new();
    let mut i: usize = 0;
    while i < fs.len()
        invariant
            i <= fs@.len(),
            out@.len() == i,
            forall|j: int| 0 <= j < i ==> fields_view(out@)[j] == fields_view(fs@)[j],
        decreases fs@.len() - i,
    {
        proof {
            assert(decreases_to!(fs@ => fs@[i as int]));
            assert(decreases_to!(fs@[i as int] => fs@[i as int].value));
        }
        let c = clone_value(&fs[i].value);
        out.push(FieldValue { name: fs[i].name.clone(), value: c });
        i = i + 1;
    }
    proof {
        assert(fields_view(out@) =~= fields_view(fs@));
    }
    out
}

fn clone_values(vs: &Vec<Value>) -> (r: Vec<Value>)
    ensures
        vals_view(r@) == vals_view(vs@),
    decreases vs@,
{
    let mut out: Vec<Value> = Vec::new();
    let mut i: usize = 0;
    while i < vs.len()
        invariant
            i <= vs@.len(),
            out@.len() == i,
            forall|j: int| 0 <= j < i ==> vals_view(out@)[j] == vals_view(vs@)[j],
        decreases vs@.len() - i,
    {
        let c = clone_value(&vs[i]);
        out.push(c);
        i = i + 1;
    }
    proof {
        assert(vals_view(out@) =~= vals_view(vs@));
    }
    out
}

/// Is the value the no-value marker?
fn is_none_value(v: &Value) -> (r: bool)
    ensures
        r == (v@ == none_model()),
{
    match v {
        Value::Ctor(vn, args) => {
            if args.len() == 0 {
                let e = str_eq(vn.as_str(), "None");
                proof {
                    assert(vals_view(args@) =~= Seq::<ValModel>::empty());
                }
                e
            } else {
                proof {
                    assert(vals_view(args@).len() > 0);
                }
                false
            }
        },
        _ => false,
    }
}

/// Match one value against one pattern, appending this pattern's bindings
/// to `env` on success.  On failure `env` is abandoned by the caller.
pub fn match_pat(v: Value, p: &Pat, env: &mut Vec<Binding>) -> (r: bool)
    ensures
        r == shape_matches(v@, p@),
        r ==> env_view(final(env)@) == env_view(old(env)@) + binds(v@, p@),
    decreases *p,
{
    match p {
        Pat::Wild => {
            proof {
                assert(env_view(env@) =~= env_view(old(env)@) + binds(v@, p@));
            }
            true
        },
        Pat::Bind(n) => {
            if str_eq(n.as_str(), "None") {
                let matched = is_none_value(&v);
                proof {
                    assert(env_view(env@) =~= env_view(old(env)@) + binds(v@, p@));
                }
                matched
            } else {
                let ghost vm = v@;
                env.push(Binding { name: n.clone(), value: v });
                proof {
                    assert(env_view(env@) =~= env_view(old(env)@) + binds(vm, p@));
                }
                true
            }
        },
        Pat::Lit(l) => {
            let r0 = match &v {
                Value::Lit(l2) => *l2 == *l,
                _ => false,
            };
            proof {
                assert(r0 == shape_matches(v@, p@));
            }
            r0
        },
        Pat::Range(lo, hi) => {
            let r0 = match &v {
                Value::Lit(Lit::Int(k)) => *lo <= *k && *k <= *hi,
                _ => false,
            };
            proof {
                assert(r0 == shape_matches(v@, p@));
            }
            r0
        },
        Pat::At(n, sub) => {
            if str_eq(n.as_str(), "None") {
                if !is_none_value(&v) {
                    proof {
                        assert(!shape_matches(v@, p@));
                    }
                    return false;
                }
                let ghost vm = v@;
                let r0 = match_pat(v, &**sub, env);
                proof {
                    if r0 {
                        assert(env_view(env@) =~= env_view(old(env)@) + binds(vm, p@));
                    }
                }
                r0
            } else {
                let ghost vm = v@;
                let c = clone_value(&v);
                env.push(Binding { name: n.clone(), value: c });
                let ghost mid = env_view(env@);
                let r0 = match_pat(v, &**sub, env);
                proof {
                    assert(r0 == shape_matches(vm, p@));
                    if r0 {
                        assert(mid =~= env_view(old(env)@).push((n@, vm)));
                        assert(env_view(env@) =~= env_view(old(env)@) + binds(vm, p@));
                    }
                }
                r0
            }
        },
        Pat::Ref(sub) => match_pat(v, &**sub, env),
        Pat::Tuple(ps) => {
            proof {
                assert(decreases_to!(*p => p->Tuple_0));
                assert(decreases_to!(p->Tuple_0 => p->Tuple_0@));
                assert(decreases_to!(*p => ps@));
            }
            match v {
                Value::Tuple(vs) => match_seq(vs, ps, env),
                _ => false,
            }
        },
        Pat::Ctor(n, ps) => {
            proof {
                assert(decreases_to!(*p => p->Ctor_1));
                assert(decreases_to!(p->Ctor_1 => p->Ctor_1@));
                assert(decreases_to!(*p => ps@));
            }
            match v {
                Value::Ctor(vn, vs) => {
                    if str_eq(vn.as_str(), n.as_str()) {
                        match_seq(vs, ps, env)
                    } else {
                        false
                    }
                },
                _ => false,
            }
        },
        Pat::Record(n, fps, rest) => {
            proof {
                assert(decreases_to!(*p => p->Record_1));
                assert(decreases_to!(p->Record_1 => p->Record_1@));
                assert(decreases_to!(*p => fps@));
            }
            match &v {
                Value::Record(vn, fs) => {
                    if !str_eq(vn.as_str(), n.as_str()) {
                        false
                    } else if !*rest && fps.len() != fs.len() {
                        false
                    } else {
                        match_fields(fs, fps, env)
                    }
                },
                _ => false,
            }
        },
        Pat::Or(_) => {
            proof {
                assert(!shape_matches(v@, p@));
            }
            false
        },
    }
}

/// Match each listed field pattern against the value's field of that
/// name, appending bindings in the order the fields are listed.
#[verifier::loop_isolation(false)]
fn match_fields(fs: &Vec<FieldValue>, fps: &Vec<FieldPat>, env: &mut Vec<Binding>) -> (r: bool)
    ensures
        r == fields_match(fields_view(fs@), fpats_view(fps@)),
        r ==> env_view(final(env)@) == env_view(old(env)@) + binds_fields(
            fields_view(fs@),
            fpats_view(fps@),
        ),
    decreases fps@,
{
    let ghost fs_m = fields_view(fs@);
    let ghost fp_m = fpats_view(fps@);
    let mut k: usize = 0;
    proof {
        assert(fp_m.skip(0) =~= fp_m);
    }
    while k < fps.len()
        invariant
            k <= fps@.len(),
            fields_match(fs_m, fp_m) == fields_match(fs_m, fp_m.skip(k as int)),
            env_view(env@) + binds_fields(fs_m, fp_m.skip(k as int)) == env_view(old(env)@)
                + binds_fields(fs_m, fp_m),
        decreases fps@.len() - k,
    {
        proof {
            assert(fp_m.skip(k as int)[0] == fp_m[k as int]);
            assert(fp_m.skip(k as int).drop_first() =~= fp_m.skip(k + 1));
        }
        match find_field(fs, fps[k].name.as_str()) {
            Option::Some(i) => {
                let sub = clone_value(&fs[i].value);
                proof {
                    assert(sub@ == fs_m[i as int].1);
                    assert(decreases_to!(fps@ => fps@[k as int]));
                    assert(decreases_to!(fps@[k as int] => fps@[k as int].pat));
                }
                let ghost env_before = env_view(env@);
                let ok = match_pat(sub, &fps[k].pat, env);
                if !ok {
                    proof {
                        assert(!fields_match(fs_m, fp_m.skip(k as int)));
                    }
                    return false;
                }
                proof {
                    assert(env_view(env@) + binds_fields(fs_m, fp_m.skip(k + 1)) =~= (env_before
                        + binds(fs_m[i as int].1, fp_m[k as int].1)) + binds_fields(
                        fs_m,
                        fp_m.skip(k + 1),
                    ));
                    assert((env_before + binds(fs_m[i as int].1, fp_m[k as int].1))
                        + binds_fields(fs_m, fp_m.skip(k + 1)) =~= env_before + binds_fields(
                        fs_m,
                        fp_m.skip(k as int),
                    ));
                }
                k = k + 1;
            },
            Option::None => {
                proof {
                    assert(!fields_match(fs_m, fp_m.skip(k as int)));
                }
                return false;
            },
        }
    }
    proof {
        assert(fp_m.skip(k as int).len() == 0);
        assert(env_view(env@) =~= env_view(env@) + binds_fields(fs_m, fp_m.skip(k as int)));
    }
    true
}

/// The index of the first field of that name, if any.
#[verifier::loop_isolation(false)]
fn find_field(fs: &Vec<FieldValue>, n: &str) -> (r: Option<usize>)
    ensures
        match r {
            Option::Some(i) => i < fs@.len() && field_index(fields_view(fs@), n@) == i as int,
            Option::None => field_index(fields_view(fs@), n@) == -1,
        },
{
    let ghost fs_m = fields_view(fs@);
    let mut j: usize = 0;
    proof {
        assert(fs_m.skip(0) =~= fs_m);
    }
    while j < fs.len()
        invariant
            j <= fs@.len(),
            field_index(fs_m, n@) == (if field_index(fs_m.skip(j as int), n@) < 0 {
                -1int
            } else {
                field_index(fs_m.skip(j as int), n@) + j
            }),
        decreases fs@.len() - j,
    {
        proof {
            assert(fs_m.skip(j as int)[0] == fs_m[j as int]);
            assert(fs_m.skip(j as int).drop_first() =~= fs_m.skip(j + 1));
        }
        if str_eq(fs[j].name.as_str(), n) {
            proof {
                assert(field_index(fs_m.skip(j as int), n@) == 0);
            }
            return Option::Some(j);
        }
        j = j + 1;
    }
    proof {
        assert(fs_m.skip(j as int).len() == 0);
    }
    Option::None
}

/// Match children pairwise, in order, appending bindings left to right.
#[verifier::loop_isolation(false)]
fn match_seq(vs: Vec<Value>, ps: &Vec<Pat>, env: &mut Vec<Binding>) -> (r: bool)
    ensures
        r == shape_matches_seq(vals_view(vs@), pats_view(ps@)),
        r ==> env_view(final(env)@) == env_view(old(env)@) + binds_seq(
            vals_view(vs@),
            pats_view(ps@),
        ),
    decreases ps@,
{
    let ghost vs_m = vals_view(vs@);
    let ghost ps_m = pats_view(ps@);
    if vs.len() != ps.len() {
        return false;
    }
    let mut rem = vs;
    let mut i: usize = 0;
    proof {
        assert(vs_m.skip(0) =~= vs_m);
        assert(ps_m.skip(0) =~= ps_m);
    }
    while i < ps.len()
        invariant
            i <= ps@.len(),
            ps@.len() == vs_m.len(),
            rem@.len() == ps@.len() - i,
            ps_m == pats_view(ps@),
            vals_view(rem@) == vs_m.skip(i as int),
            shape_matches_seq(vs_m, ps_m) == shape_matches_seq(
                vs_m.skip(i as int),
                ps_m.skip(i as int),
            ),
            env_view(env@) + binds_seq(vs_m.skip(i as int), ps_m.skip(i as int)) == env_view(
                old(env)@,
            ) + binds_seq(vs_m, ps_m),
        decreases ps@.len() - i,
    {
        proof {
            assert(vs_m.skip(i as int)[0] == vs_m[i as int]);
            assert(ps_m.skip(i as int)[0] == ps_m[i as int]);
            assert(vs_m.skip(i as int).drop_first() =~= vs_m.skip(i + 1));
            assert(ps_m.skip(i as int).drop_first() =~= ps_m.skip(i + 1));
        }
        let ghost old_rem = rem@;
        let x = rem.remove(0);
        proof {
            assert(x@ == vals_view(old_rem)[0]);
            assert(vals_view(rem@) =~= vals_view(old_rem).drop_first());
        }
        let ghost env_before = env_view(env@);
        let ok = match_pat(x, &ps[i], env);
        if !ok {
            proof {
                assert(!shape_matches_seq(vs_m.skip(i as int), ps_m.skip(i as int)));
            }
            return false;
        }
        proof {
            assert(env_view(env@) + binds_seq(vs_m.skip(i + 1), ps_m.skip(i + 1)) =~= (
            env_before + binds(vs_m[i as int], ps_m[i as int])) + binds_seq(
                vs_m.skip(i + 1),
                ps_m.skip(i + 1),
            ));
            assert((env_before + binds(vs_m[i as int], ps_m[i as int])) + binds_seq(
                vs_m.skip(i + 1),
                ps_m.skip(i + 1),
            ) =~= env_before + binds_seq(vs_m.skip(i as int), ps_m.skip(i as int)));
        }
        i = i + 1;
    }
    proof {
        assert(vs_m.skip(i as int).len() == 0);
        assert(ps_m.skip(i as int).len() == 0);
        assert(env_view(env@) =~= env_view(env@) + binds_seq(
            vs_m.skip(i as int),
            ps_m.skip(i as int),
        ));
    }
    true
}

/// The first binding for the name, if any.
fn find_binding<'a>(env: &'a Vec<Binding>, n: &str) -> (r: Option<&'a Value>)
    ensures
        match r {
            Option::Some(v) => has_name(env_view(env@), n@) && v@ == lookup(env_view(env@), n@),
            Option::None => !has_name(env_view(env@), n@),
        },
{
    let ghost e = env_view(env@);
    let mut i: usize = 0;
    proof {
        assert(e.skip(0) =~= e);
    }
    while i < env.len()
        invariant
            i <= env@.len(),
            e == env_view(env@),
            forall|j: int| 0 <= j < i ==> e[j].0 != n@,
            lookup(e, n@) == lookup(e.skip(i as int), n@),
        decreases env@.len() - i,
    {
        proof {
            assert(e.skip(i as int)[0] == e[i as int]);
            assert(e.skip(i as int).drop_first() =~= e.skip(i + 1));
        }
        if str_eq(env[i].name.as_str(), n) {
            proof {
                assert(e[i as int].0 == n@);
            }
            return Option::Some(&env[i].value);
        }
        i = i + 1;
    }
    proof {
        assert(e.skip(i as int).len() == 0);
        assert(forall|j: int| 0 <= j < e.len() ==> e[j].0 != n@);
    }
    Option::None
}

/// The value bound to the name, or the unit value where none is bound.
fn lookup_value(env: &Vec<Binding>, n: &str) -> (r: Value)
    ensures
        r@ == lookup(env_view(env@), n@),
{
    match find_binding(env, n) {
        Option::Some(v) => clone_value(v),
        Option::None => {
            let r = Value::Tuple(Vec::new());
            proof {
                assert(vals_view(Seq::<Value>::empty()) =~= Seq::<ValModel>::empty());
                crate::semantics::lemma_lookup_default(env_view(env@), n@);
            }
            r
        },
    }
}

/// Evaluate a guard over the bindings of a matched pattern.
pub fn eval_guard(g: &Guard, env: &Vec<Binding>) -> (r: bool)
    ensures
        r == guard_eval(g@, env_view(env@)),
    decreases *g,
{
    match g {
        Guard::Lit(b) => *b,
        Guard::Eq(n, l) => {
            match find_binding(env, n.as_str()) {
                Option::Some(v) => match v {
                    Value::Lit(l2) => *l2 == *l,
                    _ => false,
                },
                Option::None => false,
            }
        },
        Guard::Lt(n, k) => {
            match find_binding(env, n.as_str()) {
                Option::Some(v) => match v {
                    Value::Lit(Lit::Int(m)) => *m < *k,
                    _ => false,
                },
                Option::None => false,
            }
        },
        Guard::Not(sub) => !eval_guard(&**sub, env),
        Guard::And(a, b) => {
            let ra = eval_guard(&**a, env);
            let rb = eval_guard(&**b, env);
            ra && rb
        },
    }
}

/// Build the output for sorted names over the environment.
#[verifier::loop_isolation(false)]
fn build_output(names: &Vec<String>, env: &Vec<Binding>) -> (r: MatchOutput)
    ensures
        r@ == out_of(names_view(names@), env_view(env@)),
{
    if names.len() == 0 {
        MatchOutput::Unit
    } else if names.len() == 1 {
        MatchOutput::Single(lookup_value(env, names[0].as_str()))
    } else {
        let mut out: Vec<Value> = Vec::new();
        let mut i: usize = 0;
        while i < names.len()
            invariant
                i <= names@.len(),
                out@.len() == i,
                forall|j: int| 0 <= j < i ==> vals_view(out@)[j] == lookup(
                    env_view(env@),
                    names_view(names@)[j],
                ),
            decreases names@.len() - i,
        {
            let x = lookup_value(env, names[i].as_str());
            let ghost old_out = out@;
            out.push(x);
            proof {
                assert forall|j: int| 0 <= j < i + 1 implies vals_view(out@)[j] == lookup(
                    env_view(env@),
                    names_view(names@)[j],
                ) by {
                    assert(vals_view(out@)[j] == val_view(out@[j]));
                    if j < i {
                        assert(out@[j] == old_out[j]);
                        assert(vals_view(old_out)[j] == val_view(old_out[j]));
                    } else {
                        assert(out@[j] == x);
                    }
                }
            }
            i = i + 1;
        }
        proof {
            assert(vals_view(out@) =~= names_view(names@).map_values(
                |n: Seq<char>| lookup(env_view(env@), n),
            ));
        }
        MatchOutput::Tuple(out)
    }
}

/// One whole match attempt: the output of `outcome` on success, nothing
/// otherwise.
fn run_match(v: Value, p: &Pat, g: Option<&Guard>) -> (r: Option<MatchOutput>)
    ensures
        match outcome(v@, p@, guard_opt_view(g)) {
            Option::Some(out) => r matches Option::Some(o) && o@ == out,
            Option::None => r is None,
        },
{
    let ghost vm = v@;
    let mut env: Vec<Binding> = Vec::new();
    let ok = match_pat(v, p, &mut env);
    if !ok {
        return Option::None;
    }
    proof {
        assert(env_view(env@) =~= Seq::<(Seq<char>, ValModel)>::empty() + binds(
            vm,
            p@,
        ));
        assert(env_view(env@) =~= binds(vm, p@));
    }
    match g {
        Option::Some(gd) => {
            if !eval_guard(gd, &env) {
                return Option::None;
            }
        },
        Option::None => {},
    }
    let mut names: Vec<String> = Vec::new();
    collect_idents(p, &mut names);
    proof {
        assert(names_view(names@) =~= Seq::<Seq<char>>::empty() + idents(p@));
        assert(names_view(names@) =~= idents(p@));
    }
    let sorted = sort_names(names);
    proof {
        lemma_lex_total_ordering();
        idents(p@).lemma_sort_by_ensures(lex_order());
        vstd::seq_lib::lemma_sorted_unique(
            names_view(sorted@),
            idents(p@).sort_by(lex_order()),
            lex_order(),
        );
        assert(names_view(sorted@) == sorted_idents(p@));
    }
    Option::Some(build_output(&sorted, &env))
}

/// The failure of a match attempt when no error value was supplied.
#[derive(Debug, PartialEq, Eq, Structural)]
pub struct MatchError {}

/// The fixed text carried by a default match failure.
pub open spec fn no_match_message() -> Seq<char> {
    "pattern does not match, or guard not satisfied"@
}

impl MatchError {
    pub fn message(&self) -> (m: String)
        ensures
            m@ == no_match_message(),
    {
        "pattern does not match, or guard not satisfied".to_owned()
    }
}

/// Match `v` against `p` under the optional guard; on success return the
/// bound values in translated order, otherwise the default error.
///
/// A pattern holding an alternation fails translation and never reaches a
/// match attempt; callers establish that with `pat_has_or` or by a
/// successful `extract_variant_assign`.
pub fn try_variant(v: Value, p: &Pat, g: Option<&Guard>) -> (r: Result<MatchOutput, MatchError>)
    requires
        !has_or(p@),
    ensures
        match outcome(v@, p@, guard_opt_view(g)) {
            Option::Some(out) => r matches Result::Ok(o) && o@ == out,
            Option::None => r matches Result::Err(e) && e == (MatchError {  }),
        },
{
    match run_match(v, p, g) {
        Option::Some(o) => Result::Ok(o),
        Option::None => Result::Err(MatchError {}),
    }
}

/// As `try_variant`, but an unmatched value carries the supplied error.
pub fn try_variant_or<E>(v: Value, p: &Pat, g: Option<&Guard>, err: E) -> (r: Result<
    MatchOutput,
    E,
>)
    requires
        !has_or(p@),
    ensures
        match outcome(v@, p@, guard_opt_view(g)) {
            Option::Some(out) => r matches Result::Ok(o) && o@ == out,
            Option::None => r matches Result::Err(e) && e == err,
        },
{
    match run_match(v, p, g) {
        Option::Some(o) => Result::Ok(o),
        Option::None => Result::Err(err),
    }
}

/// As `try_variant`, but an unmatched value carries the result of calling
/// the supplied error producer, which is invoked only then.
pub fn try_variant_or_else<E, F: FnOnce() -> E>(
    v: Value,
    p: &Pat,
    g: Option<&Guard>,
    err: F,
) -> (r: Result<MatchOutput, E>)
    requires
        !has_or(p@),
        call_requires(err, ()),
    ensures
        match outcome(v@, p@, guard_opt_view(g)) {
            Option::Some(out) => r matches Result::Ok(o) && o@ == out,
            Option::None => r matches Result::Err(e) && call_ensures(err, (), e),
        },
{
    match run_match(v, p, g) {
        Option::Some(o) => Result::Ok(o),
        Option::None => Result::Err(err()),
    }
}

/// The optional form: the same output on success, nothing on failure.
pub fn get_variant(v: Value, p: &Pat, g: Option<&Guard>) -> (r: Option<MatchOutput>)
    requires
        !has_or(p@),
    ensures
        match outcome(v@, p@, guard_opt_view(g)) {
            Option::Some(out) => r matches Option::Some(o) && o@ == out,
            Option::None => r is None,
        },
{
    run_match(v, p, g)
}

} // verus!
