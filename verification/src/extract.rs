//! Translation of a pattern into its assignment expression: walk the
//! pattern, collect every binding identifier, reject alternations, and hand
//! back the lone identifier, or the identifiers as a tuple in lexicographic
//! order.

use vstd::prelude::*;
use vstd::multiset::Multiset;
use vstd::relations::sorted_by;
use crate::ast::{FieldPat, Pat, PatModel, fpats_view, names_view, pats_view};
use crate::order::{lemma_lex_connected, lemma_lex_refl, lemma_lex_total_ordering,
    lemma_lex_trans, lex_leq, lex_order, str_eq, str_leq};
use crate::semantics::{has_or, has_or_fseq, has_or_seq, idents, idents_fseq,
    idents_seq, sorted_idents};

verus! {

broadcast use vstd::seq::axiom_seq_index_decreases, vstd::seq_lib::group_to_multiset_ensures,
    vstd::multiset::group_multiset_axioms, crate::ast::lemma_pats_view,
    crate::ast::lemma_fpats_view;

/// The assignment expression a pattern translates to: its lone binding
/// identifier, or a tuple of its identifiers (possibly empty, read as the
/// unit output) in lexicographic order.
#[derive(Debug, PartialEq, Eq)]
pub enum Assign {
    Single(String),
    Tuple(Vec<String>),
}

/// Ghost model of an `Assign`.
pub enum AssignModel {
    Single(Seq<char>),
    Tuple(Seq<Seq<char>>),
}

impl View for Assign {
    type V = AssignModel;

    open spec fn view(&self) -> AssignModel {
        match self {
            Assign::Single(n) => AssignModel::Single(n@),
            Assign::Tuple(ns) => AssignModel::Tuple(names_view(ns@)),
        }
    }
}

/// The assignment expression that translation owes for a pattern without
/// alternations.
pub open spec fn assign_of(p: PatModel) -> AssignModel {
    if idents(p).len() == 1 {
        AssignModel::Single(sorted_idents(p)[0])
    } else {
        AssignModel::Tuple(sorted_idents(p))
    }
}

/// The failure of translation: an alternation stood in the pattern.
#[derive(Debug, PartialEq, Eq, Structural)]
pub struct ExtractError {}

/// The diagnostic text carried by a translation failure.
pub open spec fn alternation_message() -> Seq<char> {
    "alternation patterns are not supported"@
}

impl ExtractError {
    pub fn message(&self) -> (m: String)
        ensures
            m@ == alternation_message(),
    {
        "alternation patterns are not supported".to_owned()
    }
}

/// Does an alternation stand anywhere in the pattern?
pub fn pat_has_or(p: &Pat) -> (r: bool)
    ensures
        r == has_or(p@),
    decreases *p,
{
    match p {
        Pat::At(_, sub) => pat_has_or(&**sub),
        Pat::Ref(sub) => pat_has_or(&**sub),
        Pat::Tuple(ps) => {
            proof {
                assert(decreases_to!(*p => p->Tuple_0));
                assert(decreases_to!(p->Tuple_0 => p->Tuple_0@));
                assert(decreases_to!(*p => ps@));
            }
            pats_have_or(ps)
        },
        Pat::Ctor(_, ps) => {
            proof {
                assert(decreases_to!(*p => p->Ctor_1));
                assert(decreases_to!(p->Ctor_1 => p->Ctor_1@));
                assert(decreases_to!(*p => ps@));
            }
            pats_have_or(ps)
        },
        Pat::Record(_, fps, _) => {
            proof {
                assert(decreases_to!(*p => p->Record_1));
                assert(decreases_to!(p->Record_1 => p->Record_1@));
                assert(decreases_to!(*p => fps@));
            }
            fpats_have_or(fps)
        },
        Pat::Or(_) => true,
        _ => false,
    }
}

/// Scan a record pattern's field patterns for an alternation.
fn fpats_have_or(fps: &Vec<FieldPat>) -> (r: bool)
    ensures
        r == has_or_fseq(fpats_view(fps@)),
    decreases fps@,
{
    let ghost s = fpats_view(fps@);
    let mut i: usize = 0;
    proof {
        assert(s.skip(0) =~= s);
    }
    while i < fps.len()
        invariant
            i <= fps@.len(),
            s == fpats_view(fps@),
            has_or_fseq(s) == has_or_fseq(s.skip(i as int)),
        decreases fps@.len() - i,
    {
        proof {
            assert(s.skip(i as int)[0] == s[i as int]);
            assert(s.skip(i as int).drop_first() =~= s.skip(i + 1));
            assert(decreases_to!(fps@ => fps@[i as int]));
            assert(decreases_to!(fps@[i as int] => fps@[i as int].pat));
        }
        if pat_has_or(&fps[i].pat) {
            proof {
                assert(has_or_fseq(s.skip(i as int)));
            }
            return true;
        }
        i = i + 1;
    }
    proof {
        assert(s.skip(fps@.len() as int).len() == 0);
    }
    false
}

/// Scan a pattern's children for an alternation.
fn pats_have_or(ps: &Vec<Pat>) -> (r: bool)
    ensures
        r == has_or_seq(pats_view(ps@)),
    decreases ps@,
{
    let ghost s = pats_view(ps@);
    let mut i: usize = 0;
    proof {
        assert(s.skip(0) =~= s);
    }
    while i < ps.len()
        invariant
            i <= ps@.len(),
            s == pats_view(ps@),
            has_or_seq(s) == has_or_seq(s.skip(i as int)),
        decreases ps@.len() - i,
    {
        proof {
            assert(s.skip(i as int)[0] == s[i as int]);
            assert(s.skip(i as int).drop_first() =~= s.skip(i + 1));
        }
        if pat_has_or(&ps[i]) {
            proof {
                assert(has_or_seq(s.skip(i as int)));
            }
            return true;
        }
        i = i + 1;
    }
    proof {
        assert(s.skip(ps@.len() as int).len() == 0);
    }
    false
}

/// Append the pattern's binding identifiers, in source order, to `out`.
pub fn collect_idents(p: &Pat, out: &mut Vec<String>)
    ensures
        names_view(final(out)@) == names_view(old(out)@) + idents(p@),
    decreases *p,
{
    match p {
        Pat::Bind(n) => {
            if !str_eq(n.as_str(), "None") {
                out.push(n.clone());
                proof {
                    assert(names_view(out@) =~= names_view(old(out)@) + idents(p@));
                }
            } else {
                proof {
                    assert(names_view(out@) =~= names_view(old(out)@) + idents(p@));
                }
            }
        },
        Pat::At(n, sub) => {
            let ghost entry = names_view(out@);
            let is_marker = str_eq(n.as_str(), "None");
            if !is_marker {
                out.push(n.clone());
            }
            let ghost mid = names_view(out@);
            collect_idents(&**sub, out);
            proof {
                if is_marker {
                    assert(mid =~= entry);
                } else {
                    assert(mid =~= entry.push(n@));
                }
                assert(names_view(out@) =~= entry + idents(p@));
            }
        },
        Pat::Ref(sub) => {
            collect_idents(&**sub, out);
        },
        Pat::Tuple(ps) => {
            proof {
                assert(decreases_to!(*p => p->Tuple_0));
                assert(decreases_to!(p->Tuple_0 => p->Tuple_0@));
                assert(decreases_to!(*p => ps@));
            }
            collect_idents_seq(ps, out);
        },
        Pat::Ctor(_, ps) => {
            proof {
                assert(decreases_to!(*p => p->Ctor_1));
                assert(decreases_to!(p->Ctor_1 => p->Ctor_1@));
                assert(decreases_to!(*p => ps@));
            }
            collect_idents_seq(ps, out);
        },
        Pat::Record(_, fps, _) => {
            proof {
                assert(decreases_to!(*p => p->Record_1));
                assert(decreases_to!(p->Record_1 => p->Record_1@));
                assert(decreases_to!(*p => fps@));
            }
            collect_idents_fseq(fps, out);
        },
        _ => {
            proof {
                assert(names_view(out@) =~= names_view(old(out)@) + idents(p@));
            }
        },
    }
}

/// Append the identifiers of each field pattern in order.
fn collect_idents_fseq(fps: &Vec<FieldPat>, out: &mut Vec<String>)
    ensures
        names_view(final(out)@) == names_view(old(out)@) + idents_fseq(fpats_view(fps@)),
    decreases fps@,
{
    let ghost fp_m = fpats_view(fps@);
    let mut i: usize = 0;
    proof {
        assert(fp_m.skip(0) =~= fp_m);
    }
    while i < fps.len()
        invariant
            i <= fps@.len(),
            fp_m == fpats_view(fps@),
            names_view(out@) + idents_fseq(fp_m.skip(i as int)) == names_view(old(out)@)
                + idents_fseq(fp_m),
        decreases fps@.len() - i,
    {
        proof {
            assert(fp_m.skip(i as int)[0] == fp_m[i as int]);
            assert(fp_m.skip(i as int).drop_first() =~= fp_m.skip(i + 1));
            assert(decreases_to!(fps@ => fps@[i as int]));
            assert(decreases_to!(fps@[i as int] => fps@[i as int].pat));
        }
        let ghost before = names_view(out@);
        collect_idents(&fps[i].pat, out);
        proof {
            assert(names_view(out@) + idents_fseq(fp_m.skip(i + 1)) =~= (before + idents(
                fp_m[i as int].1)) + idents_fseq(fp_m.skip(i + 1)));
            assert((before + idents(fp_m[i as int].1)) + idents_fseq(fp_m.skip(i + 1)) =~= before
                + idents_fseq(fp_m.skip(i as int)));
        }
        i = i + 1;
    }
    proof {
        assert(fp_m.skip(fps@.len() as int).len() == 0);
        assert(names_view(out@) =~= names_view(out@) + idents_fseq(
            fp_m.skip(fps@.len() as int),
        ));
    }
}

/// Append the identifiers of each child pattern in order.
fn collect_idents_seq(ps: &Vec<Pat>, out: &mut Vec<String>)
    ensures
        names_view(final(out)@) == names_view(old(out)@) + idents_seq(pats_view(ps@)),
    decreases ps@,
{
    let ghost ps_m = pats_view(ps@);
    let mut i: usize = 0;
    proof {
        assert(ps_m.skip(0) =~= ps_m);
    }
    while i < ps.len()
        invariant
            i <= ps@.len(),
            ps_m == pats_view(ps@),
            names_view(out@) + idents_seq(ps_m.skip(i as int)) == names_view(old(out)@)
                + idents_seq(ps_m),
        decreases ps@.len() - i,
    {
        proof {
            assert(ps_m.skip(i as int)[0] == ps_m[i as int]);
            assert(ps_m.skip(i as int).drop_first() =~= ps_m.skip(i + 1));
        }
        let ghost before = names_view(out@);
        collect_idents(&ps[i], out);
        proof {
            assert(names_view(out@) + idents_seq(ps_m.skip(i + 1)) =~= (before + idents(
                ps_m[i as int])) + idents_seq(ps_m.skip(i + 1)));
            assert((before + idents(ps_m[i as int])) + idents_seq(ps_m.skip(i + 1)) =~= before
                + idents_seq(ps_m.skip(i as int)));
        }
        i = i + 1;
    }
    proof {
        assert(ps_m.skip(ps@.len() as int).len() == 0);
        assert(names_view(out@) =~= names_view(out@) + idents_seq(ps_m.skip(ps@.len() as int)));
    }
}

/// Sort names lexicographically: the result is ordered and holds exactly
/// the given names.
pub fn sort_names(src: Vec<String>) -> (r: Vec<String>)
    ensures
        sorted_by(names_view(r@), lex_order()),
        names_view(r@).to_multiset() == names_view(src@).to_multiset(),
{
    let ghost orig = names_view(src@);
    let mut rest = src;
    let mut dst: Vec<String> = Vec::new();
    proof {
        assert(names_view(dst@) =~= Seq::<Seq<char>>::empty());
        assert(names_view(dst@).to_multiset().add(names_view(rest@).to_multiset())
            =~= orig.to_multiset());
    }
    while rest.len() > 0
        invariant
            names_view(dst@).to_multiset().add(names_view(rest@).to_multiset())
                == orig.to_multiset(),
            sorted_by(names_view(dst@), lex_order()),
            forall|i: int, j: int|
                0 <= i < dst@.len() && 0 <= j < rest@.len() ==> lex_leq(
                    #[trigger] names_view(dst@)[i],
                    #[trigger] names_view(rest@)[j],
                ),
        decreases rest@.len(),
    {
        let m = min_index(&rest);
        let ghost old_dst = names_view(dst@);
        let ghost old_rest = names_view(rest@);
        let x = rest.remove(m);
        dst.push(x);
        proof {
            let xm = old_rest[m as int];
            let nd = names_view(dst@);
            let nr = names_view(rest@);
            assert(nd =~= old_dst.push(xm));
            assert(nr =~= old_rest.remove(m as int));
            assert(old_rest.contains(xm));
            assert(old_rest.to_multiset().count(xm) > 0);
            assert(old_rest.remove(m as int).to_multiset() == old_rest.to_multiset().remove(xm));
            assert(nd.to_multiset() == old_dst.to_multiset().insert(xm));
            assert(nd.to_multiset().add(nr.to_multiset()) =~= old_dst.to_multiset().add(
                old_rest.to_multiset()));
            assert forall|i: int, j: int| 0 <= i < j < nd.len() implies lex_leq(
                nd[i],
                nd[j],
            ) by {
                if j < old_dst.len() {
                    assert(lex_order()(old_dst[i], old_dst[j]));
                } else {
                    assert(nd[j] == xm);
                    assert(lex_leq(old_dst[i], old_rest[m as int]));
                }
            }
            assert(sorted_by(nd, lex_order()));
            assert forall|i: int, j: int|
                0 <= i < nd.len() && 0 <= j < nr.len() implies lex_leq(nd[i], nr[j]) by {
                let jj: int = if j < m as int {
                    j
                } else {
                    j + 1
                };
                assert(nr[j] == old_rest[jj]);
                if i < old_dst.len() {
                    assert(lex_leq(old_dst[i], old_rest[jj]));
                } else {
                    assert(nd[i] == xm);
                    assert(lex_leq(old_rest[m as int], old_rest[jj]));
                }
            }
        }
    }
    proof {
        assert(names_view(rest@).to_multiset() =~= Multiset::<Seq<char>>::empty());
        assert(names_view(dst@).to_multiset() =~= orig.to_multiset());
    }
    dst
}

/// The index of a lexicographically least name.
fn min_index(v: &Vec<String>) -> (m: usize)
    requires
        v@.len() > 0,
    ensures
        m < v@.len(),
        forall|j: int| 0 <= j < v@.len() ==> lex_leq(names_view(v@)[m as int], #[trigger]
        names_view(v@)[j]),
{
    let mut m: usize = 0;
    let mut k: usize = 1;
    proof {
        lemma_lex_refl(names_view(v@)[0]);
    }
    while k < v.len()
        invariant
            v@.len() > 0,
            m < k,
            k <= v@.len(),
            forall|j: int| 0 <= j < k ==> lex_leq(names_view(v@)[m as int], #[trigger]
            names_view(v@)[j]),
        decreases v@.len() - k,
    {
        if str_leq(v[k].as_str(), v[m].as_str()) {
            proof {
                let nv = names_view(v@);
                assert forall|j: int| 0 <= j < k + 1 implies lex_leq(nv[k as int], nv[j]) by {
                    if j == k as int {
                        lemma_lex_refl(nv[k as int]);
                    } else {
                        lemma_lex_trans(nv[k as int], nv[m as int], nv[j]);
                    }
                }
            }
            m = k;
        } else {
            proof {
                lemma_lex_connected(names_view(v@)[k as int], names_view(v@)[m as int]);
            }
        }
        k = k + 1;
    }
    m
}

/// Translate a pattern into its assignment expression: the lone binding
/// identifier, or the identifiers as a lexicographically ordered tuple.
/// A pattern holding an alternation anywhere fails, since its branches
/// could bind different identifier sets.
pub fn extract_variant_assign(p: &Pat) -> (r: Result<Assign, ExtractError>)
    ensures
        r is Err <==> has_or(p@),
        r matches Ok(a) ==> a@ == assign_of(p@),
{
    if pat_has_or(p) {
        return Result::Err(ExtractError {});
    }
    let mut names: Vec<String> = Vec::new();
    collect_idents(p, &mut names);
    proof {
        assert(names_view(names@) =~= Seq::<Seq<char>>::empty() + idents(p@));
        assert(names_view(names@) =~= idents(p@));
    }
    let sorted = sort_names(names);
    proof {
        lemma_lex_total_ordering();
        idents(p@).lemma_sort_by_ensures(lex_order());
        vstd::seq_lib::lemma_sorted_unique(
            names_view(sorted@),
            idents(p@).sort_by(lex_order()),
            lex_order(),
        );
        assert(names_view(sorted@) == sorted_idents(p@));
        assert(names_view(sorted@).to_multiset() == idents(p@).to_multiset());
        assert(names_view(sorted@).to_multiset().len() == names_view(sorted@).len());
        assert(idents(p@).to_multiset().len() == idents(p@).len());
        assert(names_view(sorted@).len() == idents(p@).len());
    }
    if sorted.len() == 1 {
        let mut s = sorted;
        let n = s.remove(0);
        proof {
            assert(n@ == sorted_idents(p@)[0]);
        }
        Result::Ok(Assign::Single(n))
    } else {
        Result::Ok(Assign::Tuple(sorted))
    }
}

} // verus!
