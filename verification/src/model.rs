//! Mathematical models of the tree and of runtime values.
//!
//! Every contract of the crate is stated over these models: strings become
//! `Seq<char>`, the string-keyed vectors become `Map`s in which a later pair
//! shadows an earlier one, and each tree node has a `Spec...` mirror.

use vstd::prelude::*;

use crate::ast::{AccessType, Attr, BinOp, Data, Entry, Expr, UnOp, Value};

verus! {

/// Model of a runtime [`Data`] value.
pub enum SpecData {
    Null,
    Bool(bool),
    Num(i64),
    Str(Seq<char>),
    Dict(Map<Seq<char>, SpecData>),
}

/// Model of a [`Value`].
pub enum SpecValue {
    Str(Seq<char>),
    ComplexStr(Seq<SpecExpr>),
    Hash(Map<Seq<char>, SpecValue>, Option<Seq<char>>, Option<Box<SpecExpr>>),
}

/// Model of an [`Expr`].
pub enum SpecExpr {
    Val(Box<SpecValue>),
    Num(i64),
    Bin(Box<SpecExpr>, BinOp, Box<SpecExpr>),
    Un(UnOp, Box<SpecExpr>),
    Var(Seq<char>),
    Ident(Seq<char>),
    Cond(Box<SpecExpr>, Box<SpecExpr>, Box<SpecExpr>),
    Call(Box<SpecExpr>, Seq<SpecExpr>),
    Prop(Box<SpecExpr>, Box<SpecExpr>, AccessType),
    Attrib(Box<SpecExpr>, Box<SpecExpr>, AccessType),
}

/// Model of an [`Attr`].
pub struct SpecAttr {
    pub name: Seq<char>,
    pub value: SpecValue,
    pub indices: Seq<SpecExpr>,
}

/// Model of an [`Entry`].
pub enum SpecEntry {
    Comment(Seq<char>),
    Macro(Seq<char>, Seq<SpecExpr>, Box<SpecExpr>),
    Entity(Seq<char>, SpecValue, Seq<SpecExpr>, Seq<SpecAttr>),
}

/// The model of a string-keyed vector of runtime values: a later pair with
/// the same key shadows an earlier one.
pub open spec fn data_pairs_model(s: Seq<(String, Data)>) -> Map<Seq<char>, SpecData>
    decreases s,
{
    if s.len() == 0 {
        Map::empty()
    } else {
        data_pairs_model(s.drop_last()).insert(s.last().0@, data_model(s.last().1))
    }
}

/// The model of a runtime value.
pub open spec fn data_model(d: Data) -> SpecData
    decreases d,
{
    match d {
        Data::Null => SpecData::Null,
        Data::Bool(b) => SpecData::Bool(b),
        Data::Num(n) => SpecData::Num(n),
        Data::Str(s) => SpecData::Str(s@),
        Data::Dict(v) => SpecData::Dict(data_pairs_model(v@)),
    }
}

/// The model of the branch vector of a hash value.
pub open spec fn hash_pairs_model(s: Seq<(String, Value)>) -> Map<Seq<char>, SpecValue>
    decreases s,
{
    if s.len() == 0 {
        Map::empty()
    } else {
        hash_pairs_model(s.drop_last()).insert(s.last().0@, value_model(s.last().1))
    }
}

/// The model of a sequence of expressions.
pub open spec fn exprs_model(s: Seq<Expr>) -> Seq<SpecExpr>
    decreases s,
{
    if s.len() == 0 {
        Seq::empty()
    } else {
        exprs_model(s.drop_last()).push(expr_model(s.last()))
    }
}

/// The model of a value.
pub open spec fn value_model(v: Value) -> SpecValue
    decreases v,
{
    match v {
        Value::Str(s) => SpecValue::Str(s@),
        Value::ComplexStr(es) => SpecValue::ComplexStr(exprs_model(es@)),
        Value::Hash(m, dk, di) => SpecValue::Hash(
            hash_pairs_model(m@),
            match dk {
                Some(k) => Some(k@),
                None => None,
            },
            match di {
                Some(e) => Some(Box::new(expr_model(*e))),
                None => None,
            },
        ),
    }
}

/// The model of an expression.
pub open spec fn expr_model(e: Expr) -> SpecExpr
    decreases e,
{
    match e {
        Expr::ValExpr(v) => SpecExpr::Val(Box::new(value_model(v))),
        Expr::NumExpr(n) => SpecExpr::Num(n),
        Expr::BinExpr(l, op, r) => SpecExpr::Bin(
            Box::new(expr_model(*l)),
            op,
            Box::new(expr_model(*r)),
        ),
        Expr::UnExpr(op, x) => SpecExpr::Un(op, Box::new(expr_model(*x))),
        Expr::VarExpr(n) => SpecExpr::Var(n@),
        Expr::IdentExpr(n) => SpecExpr::Ident(n@),
        Expr::CondExpr(c, t, f) => SpecExpr::Cond(
            Box::new(expr_model(*c)),
            Box::new(expr_model(*t)),
            Box::new(expr_model(*f)),
        ),
        Expr::CallExpr(callee, args) => SpecExpr::Call(
            Box::new(expr_model(*callee)),
            exprs_model(args@),
        ),
        Expr::PropExpr(p, k, a) => SpecExpr::Prop(
            Box::new(expr_model(*p)),
            Box::new(expr_model(*k)),
            a,
        ),
        Expr::AttrExpr(p, k, a) => SpecExpr::Attrib(
            Box::new(expr_model(*p)),
            Box::new(expr_model(*k)),
            a,
        ),
    }
}

/// The model of an attribute.
pub open spec fn attr_model(a: Attr) -> SpecAttr
    decreases a,
{
    SpecAttr { name: a.0@, value: value_model(a.1), indices: exprs_model(a.2@) }
}

/// The model of a sequence of attributes.
pub open spec fn attrs_model(s: Seq<Attr>) -> Seq<SpecAttr>
    decreases s,
{
    if s.len() == 0 {
        Seq::empty()
    } else {
        attrs_model(s.drop_last()).push(attr_model(s.last()))
    }
}

/// The model of an entry.
pub open spec fn entry_model(e: Entry) -> SpecEntry
    decreases e,
{
    match e {
        Entry::Comment(s) => SpecEntry::Comment(s@),
        Entry::Macro(n, ps, body) => SpecEntry::Macro(
            n@,
            exprs_model(ps@),
            Box::new(expr_model(*body)),
        ),
        Entry::Entity(n, v, idx, attrs) => SpecEntry::Entity(
            n@,
            value_model(v),
            exprs_model(idx@),
            attrs_model(attrs@),
        ),
    }
}

/// Model of a [`Value`] as parsed, before any compilation: a hash keeps its
/// branches as an ordered pair sequence rather than a map, so that the
/// compiler's fixup can be stated over it branch by branch.
pub enum SpecValueP {
    Str(Seq<char>),
    ComplexStr(Seq<SpecExpr>),
    Hash(Seq<(Seq<char>, SpecValueP)>, Option<Seq<char>>, Option<Box<SpecExpr>>),
}

/// Model of an [`Attr`] as parsed.
pub struct SpecAttrP {
    pub name: Seq<char>,
    pub value: SpecValueP,
    pub indices: Seq<SpecExpr>,
}

/// Model of an [`Entry`] as parsed.
pub enum SpecEntryP {
    Comment(Seq<char>),
    Macro(Seq<char>, Seq<SpecExpr>, Box<SpecExpr>),
    Entity(Seq<char>, SpecValueP, Seq<SpecExpr>, Seq<SpecAttrP>),
}

/// The as-parsed model of a hash's branch vector, in order.
pub open spec fn hash_pairs_model_p(s: Seq<(String, Value)>) -> Seq<(Seq<char>, SpecValueP)>
    decreases s,
{
    if s.len() == 0 {
        Seq::empty()
    } else {
        hash_pairs_model_p(s.drop_last()).push((s.last().0@, value_model_p(s.last().1)))
    }
}

/// The as-parsed model of a value.
pub open spec fn value_model_p(v: Value) -> SpecValueP
    decreases v,
{
    match v {
        Value::Str(s) => SpecValueP::Str(s@),
        Value::ComplexStr(es) => SpecValueP::ComplexStr(exprs_model(es@)),
        Value::Hash(m, dk, di) => SpecValueP::Hash(
            hash_pairs_model_p(m@),
            match dk {
                Some(k) => Some(k@),
                None => None,
            },
            match di {
                Some(e) => Some(Box::new(expr_model(*e))),
                None => None,
            },
        ),
    }
}

/// The as-parsed model of an attribute.
pub open spec fn attr_model_p(a: Attr) -> SpecAttrP {
    SpecAttrP { name: a.0@, value: value_model_p(a.1), indices: exprs_model(a.2@) }
}

/// The as-parsed model of a sequence of attributes.
pub open spec fn attrs_model_p(s: Seq<Attr>) -> Seq<SpecAttrP>
    decreases s,
{
    if s.len() == 0 {
        Seq::empty()
    } else {
        attrs_model_p(s.drop_last()).push(attr_model_p(s.last()))
    }
}

/// The as-parsed model of an entry.
pub open spec fn entry_model_p(e: Entry) -> SpecEntryP
    decreases e,
{
    match e {
        Entry::Comment(s) => SpecEntryP::Comment(s@),
        Entry::Macro(n, ps, body) => SpecEntryP::Macro(
            n@,
            exprs_model(ps@),
            Box::new(expr_model(*body)),
        ),
        Entry::Entity(n, v, idx, attrs) => SpecEntryP::Entity(
            n@,
            value_model_p(v),
            exprs_model(idx@),
            attrs_model_p(attrs@),
        ),
    }
}

/// The as-parsed model of a sequence of entries.
pub open spec fn entries_model_p(s: Seq<Entry>) -> Seq<SpecEntryP>
    decreases s,
{
    if s.len() == 0 {
        Seq::empty()
    } else {
        entries_model_p(s.drop_last()).push(entry_model_p(s.last()))
    }
}

/// Folds an as-parsed branch sequence into the branch map, a later pair
/// shadowing an earlier one.
pub open spec fn vp_pairs_to_map(s: Seq<(Seq<char>, SpecValueP)>) -> Map<Seq<char>, SpecValue>
    decreases s,
{
    if s.len() == 0 {
        Map::empty()
    } else {
        vp_pairs_to_map(s.drop_last()).insert(s.last().0, vp_to_value(s.last().1))
    }
}

/// An as-parsed value as a compiled-form value: hash branches fold into the
/// branch map.
pub open spec fn vp_to_value(p: SpecValueP) -> SpecValue
    decreases p,
{
    match p {
        SpecValueP::Str(s) => SpecValue::Str(s),
        SpecValueP::ComplexStr(es) => SpecValue::ComplexStr(es),
        SpecValueP::Hash(pairs, dk, di) => SpecValue::Hash(vp_pairs_to_map(pairs), dk, di),
    }
}

/// The two views of a value agree: folding the as-parsed model gives the
/// compiled-form model.
pub proof fn lemma_vp_to_value(v: Value)
    ensures
        vp_to_value(value_model_p(v)) == value_model(v),
    decreases v,
{
    match v {
        Value::Hash(m, _dk, _di) => {
            lemma_vp_pairs(m@);
        },
        _ => {},
    }
}

/// The two views of a hash's branch vector agree.
pub proof fn lemma_vp_pairs(s: Seq<(String, Value)>)
    ensures
        vp_pairs_to_map(hash_pairs_model_p(s)) == hash_pairs_model(s),
    decreases s,
{
    if s.len() == 0 {
    } else {
        lemma_vp_pairs(s.drop_last());
        lemma_vp_to_value(s.last().1);
        assert(hash_pairs_model_p(s).drop_last() =~= hash_pairs_model_p(s.drop_last()));
        assert(hash_pairs_model_p(s).last() == (s.last().0@, value_model_p(s.last().1)));
    }
}

/// The model of a sequence of expressions is its element-wise model.
pub proof fn lemma_exprs_model_index(s: Seq<Expr>)
    ensures
        exprs_model(s).len() == s.len(),
        forall|i: int| 0 <= i < s.len() ==> exprs_model(s)[i] == expr_model(s[i]),
    decreases s.len(),
{
    if s.len() > 0 {
        lemma_exprs_model_index(s.drop_last());
    }
}

/// The model of a sequence of attributes is its element-wise model.
pub proof fn lemma_attrs_model_index(s: Seq<Attr>)
    ensures
        attrs_model(s).len() == s.len(),
        forall|i: int| 0 <= i < s.len() ==> attrs_model(s)[i] == attr_model(s[i]),
    decreases s.len(),
{
    if s.len() > 0 {
        lemma_attrs_model_index(s.drop_last());
    }
}

/// The model of the named-entry vector of an environment: a later pair with
/// the same identifier shadows an earlier one.
pub open spec fn env_pairs_model(s: Seq<(String, Entry)>) -> Map<Seq<char>, SpecEntry>
    decreases s,
{
    if s.len() == 0 {
        Map::empty()
    } else {
        env_pairs_model(s.drop_last()).insert(s.last().0@, entry_model(s.last().1))
    }
}

} // verus!
