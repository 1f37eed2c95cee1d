//! The syntactic material that the crate works on: runtime values, patterns,
//! guards, and the ghost models that the contracts speak about.
//!
//! A `Pat` describes an expected shape for a `Value` and may introduce named
//! bindings for sub-values.  A `Guard` is a boolean test over those bindings,
//! consulted only after the shape has matched.  Each executable tree has a
//! ghost model (`ValModel`, `PatModel`, `GuardModel`, `OutModel`) built from
//! `Seq` and `Seq<char>`, reached through `View`.

use vstd::prelude::*;

verus! {

broadcast use vstd::seq::axiom_seq_index_decreases;

/// A literal atom, shared between values and patterns.
#[derive(Clone, Copy, PartialEq, Eq, Structural, Debug)]
pub enum Lit {
    Bool(bool),
    Int(i64),
}

/// A runtime value: the tree that a pattern is matched against.
#[derive(Debug, PartialEq, Eq)]
pub enum Value {
    /// A bare literal.
    Lit(Lit),
    /// A tuple of values; the empty tuple is the unit value.
    Tuple(Vec<Value>),
    /// A constructor application: an enum variant or tuple struct,
    /// named, with positional payloads.
    Ctor(String, Vec<Value>),
    /// A struct (or struct variant) with named fields.
    Record(String, Vec<FieldValue>),
}

/// One named field of a record value.
#[derive(Debug, PartialEq, Eq)]
pub struct FieldValue {
    pub name: String,
    pub value: Value,
}

/// A pattern: a template for a value's shape, introducing bindings.
#[derive(Debug)]
pub enum Pat {
    /// Matches anything, binds nothing.
    Wild,
    /// A binding identifier: matches anything and binds the value to the
    /// name.  The one exception is the name of the no-value marker, which
    /// cannot be told apart from the marker itself and so matches only the
    /// marker value and binds nothing.
    Bind(String),
    /// Matches exactly this literal.
    Lit(Lit),
    /// Matches an integer literal in the inclusive range.
    Range(i64, i64),
    /// A binding with a sub-pattern: binds the whole value to the name
    /// and also requires the sub-pattern to match it.
    At(String, Box<Pat>),
    /// A reference pattern; matches whatever its sub-pattern matches.
    Ref(Box<Pat>),
    /// Matches a tuple of the same arity, element by element.
    Tuple(Vec<Pat>),
    /// Matches a constructor of the same name and arity, element by element.
    Ctor(String, Vec<Pat>),
    /// Matches a record of the same name whose named fields match the
    /// listed field patterns; with the rest marker, further fields may
    /// stay unnamed, without it every field must be listed.
    Record(String, Vec<FieldPat>, bool),
    /// An alternation: one branch or another.  Translation rejects it.
    Or(Vec<Pat>),
}

/// One named field of a record pattern.
#[derive(Debug)]
pub struct FieldPat {
    pub name: String,
    pub pat: Pat,
}

/// A guard expression over the names a pattern binds.
#[derive(Debug)]
pub enum Guard {
    /// A constant.
    Lit(bool),
    /// True when the named binding holds exactly this literal.
    Eq(String, Lit),
    /// True when the named binding holds an integer literal below the bound.
    Lt(String, i64),
    Not(Box<Guard>),
    And(Box<Guard>, Box<Guard>),
}

/// One name bound by a successful match, with the sub-value it took.
#[derive(Debug)]
pub struct Binding {
    pub name: String,
    pub value: Value,
}

/// What a successful match hands back: the lone bound value, the unit
/// output when nothing is bound, or a tuple of the bound values in
/// lexicographic order of their names.
#[derive(Debug, PartialEq, Eq)]
pub enum MatchOutput {
    Unit,
    Single(Value),
    Tuple(Vec<Value>),
}

/// Ghost model of a `Value`.
pub enum ValModel {
    Lit(Lit),
    Tuple(Seq<ValModel>),
    Ctor(Seq<char>, Seq<ValModel>),
    Record(Seq<char>, Seq<(Seq<char>, ValModel)>),
}

/// Ghost model of a `Pat`.
pub enum PatModel {
    Wild,
    Bind(Seq<char>),
    Lit(Lit),
    Range(i64, i64),
    At(Seq<char>, Box<PatModel>),
    Ref(Box<PatModel>),
    Tuple(Seq<PatModel>),
    Ctor(Seq<char>, Seq<PatModel>),
    Record(Seq<char>, Seq<(Seq<char>, PatModel)>, bool),
    Or(Seq<PatModel>),
}

/// Ghost model of a `Guard`.
pub enum GuardModel {
    Lit(bool),
    Eq(Seq<char>, Lit),
    Lt(Seq<char>, i64),
    Not(Box<GuardModel>),
    And(Box<GuardModel>, Box<GuardModel>),
}

/// Ghost model of a `MatchOutput`.
pub enum OutModel {
    Unit,
    Single(ValModel),
    Tuple(Seq<ValModel>),
}

/// The name of the no-value marker, which a pattern cannot bind.
pub open spec fn none_marker() -> Seq<char> {
    "None"@
}

/// The no-value marker as a value: the nullary constructor of that name.
pub open spec fn none_model() -> ValModel {
    ValModel::Ctor(none_marker(), Seq::empty())
}

pub open spec fn val_view(v: Value) -> ValModel
    decreases v,
{
    match v {
        Value::Lit(l) => ValModel::Lit(l),
        Value::Tuple(vs) => ValModel::Tuple(vals_view(vs@)),
        Value::Ctor(n, vs) => ValModel::Ctor(n@, vals_view(vs@)),
        Value::Record(n, fs) => ValModel::Record(n@, fields_view(fs@)),
    }
}

pub open spec fn fields_view(s: Seq<FieldValue>) -> Seq<(Seq<char>, ValModel)>
    decreases s,
{
    if s.len() == 0 {
        Seq::empty()
    } else {
        seq![(s[0].name@, val_view(s[0].value))] + fields_view(s.drop_first())
    }
}

pub open spec fn vals_view(s: Seq<Value>) -> Seq<ValModel>
    decreases s,
{
    if s.len() == 0 {
        Seq::empty()
    } else {
        seq![val_view(s[0])] + vals_view(s.drop_first())
    }
}

pub open spec fn pat_view(p: Pat) -> PatModel
    decreases p,
{
    match p {
        Pat::Wild => PatModel::Wild,
        Pat::Bind(n) => PatModel::Bind(n@),
        Pat::Lit(l) => PatModel::Lit(l),
        Pat::Range(lo, hi) => PatModel::Range(lo, hi),
        Pat::At(n, sub) => PatModel::At(n@, Box::new(pat_view(*sub))),
        Pat::Ref(sub) => PatModel::Ref(Box::new(pat_view(*sub))),
        Pat::Tuple(ps) => PatModel::Tuple(pats_view(ps@)),
        Pat::Ctor(n, ps) => PatModel::Ctor(n@, pats_view(ps@)),
        Pat::Record(n, fps, rest) => PatModel::Record(n@, fpats_view(fps@), rest),
        Pat::Or(ps) => PatModel::Or(pats_view(ps@)),
    }
}

pub open spec fn fpats_view(s: Seq<FieldPat>) -> Seq<(Seq<char>, PatModel)>
    decreases s,
{
    if s.len() == 0 {
        Seq::empty()
    } else {
        seq![(s[0].name@, pat_view(s[0].pat))] + fpats_view(s.drop_first())
    }
}

pub open spec fn pats_view(s: Seq<Pat>) -> Seq<PatModel>
    decreases s,
{
    if s.len() == 0 {
        Seq::empty()
    } else {
        seq![pat_view(s[0])] + pats_view(s.drop_first())
    }
}

pub open spec fn guard_view(g: Guard) -> GuardModel
    decreases g,
{
    match g {
        Guard::Lit(b) => GuardModel::Lit(b),
        Guard::Eq(n, l) => GuardModel::Eq(n@, l),
        Guard::Lt(n, k) => GuardModel::Lt(n@, k),
        Guard::Not(sub) => GuardModel::Not(Box::new(guard_view(*sub))),
        Guard::And(a, b) => GuardModel::And(Box::new(guard_view(*a)), Box::new(guard_view(*b))),
    }
}

/// The view of one binding: the name and the value it took.
pub open spec fn binding_view(b: Binding) -> (Seq<char>, ValModel) {
    (b.name@, val_view(b.value))
}

/// The view of a whole binding environment, in the order it was built.
pub open spec fn env_view(s: Seq<Binding>) -> Seq<(Seq<char>, ValModel)> {
    s.map_values(|b: Binding| binding_view(b))
}

/// The view of a list of names.
pub open spec fn names_view(s: Seq<String>) -> Seq<Seq<char>> {
    s.map_values(|n: String| n@)
}

impl View for Value {
    type V = ValModel;

    open spec fn view(&self) -> ValModel {
        val_view(*self)
    }
}

impl View for Pat {
    type V = PatModel;

    open spec fn view(&self) -> PatModel {
        pat_view(*self)
    }
}

impl View for Guard {
    type V = GuardModel;

    open spec fn view(&self) -> GuardModel {
        guard_view(*self)
    }
}

impl View for MatchOutput {
    type V = OutModel;

    open spec fn view(&self) -> OutModel {
        match self {
            MatchOutput::Unit => OutModel::Unit,
            MatchOutput::Single(v) => OutModel::Single(val_view(*v)),
            MatchOutput::Tuple(vs) => OutModel::Tuple(vals_view(vs@)),
        }
    }
}

impl View for Binding {
    type V = (Seq<char>, ValModel);

    open spec fn view(&self) -> (Seq<char>, ValModel) {
        binding_view(*self)
    }
}

/// `vals_view` maps `val_view` over the sequence, index by index.
pub broadcast proof fn lemma_vals_view(s: Seq<Value>)
    ensures
        (#[trigger] vals_view(s)).len() == s.len(),
        forall|i: int| 0 <= i < s.len() ==> vals_view(s)[i] == val_view(s[i]),
    decreases s.len(),
{
    if s.len() > 0 {
        lemma_vals_view(s.drop_first());
    }
}

/// `pats_view` maps `pat_view` over the sequence, index by index.
pub broadcast proof fn lemma_pats_view(s: Seq<Pat>)
    ensures
        (#[trigger] pats_view(s)).len() == s.len(),
        forall|i: int| 0 <= i < s.len() ==> pats_view(s)[i] == pat_view(s[i]),
    decreases s.len(),
{
    if s.len() > 0 {
        lemma_pats_view(s.drop_first());
    }
}

/// `fields_view` maps name and value views over the fields, index by index.
pub broadcast proof fn lemma_fields_view(s: Seq<FieldValue>)
    ensures
        (#[trigger] fields_view(s)).len() == s.len(),
        forall|i: int|
            0 <= i < s.len() ==> fields_view(s)[i] == (s[i].name@, val_view(s[i].value)),
    decreases s.len(),
{
    if s.len() > 0 {
        lemma_fields_view(s.drop_first());
    }
}

/// `fpats_view` maps name and pattern views over the fields, index by index.
pub broadcast proof fn lemma_fpats_view(s: Seq<FieldPat>)
    ensures
        (#[trigger] fpats_view(s)).len() == s.len(),
        forall|i: int|
            0 <= i < s.len() ==> fpats_view(s)[i] == (s[i].name@, pat_view(s[i].pat)),
    decreases s.len(),
{
    if s.len() > 0 {
        lemma_fpats_view(s.drop_first());
    }
}

} // verus!
