//! The resource tree and the runtime value model.
//!
//! A parsed resource is an ordered list of [`Entry`] nodes.  An entity's
//! value is a [`Value`]; expressions inside values are [`Expr`] nodes.
//! [`Data`] is the runtime value exchanged with the caller: it is the only
//! shape a resolution ever returns.

use vstd::prelude::*;

use crate::model::{
    attr_model, attrs_model, data_model, data_pairs_model, entry_model, expr_model, exprs_model,
    hash_pairs_model, value_model,
};

verus! {

/// How a property or attribute access names its key: computed from an
/// expression, or written out in the source as an identifier.
#[derive(Clone, Copy, PartialEq, Eq, Structural, Debug)]
pub enum AccessType {
    /// The key is the fully resolved string value of an expression.
    Computed,
    /// The key is an identifier written in the source.
    Static,
}

/// A binary operator of the expression language.
#[derive(Clone, Copy, PartialEq, Eq, Structural, Debug)]
pub enum BinOp {
    BiAdd,
    BiSub,
    BiMul,
    BiDiv,
    BiRem,
    BiLt,
    BiLe,
    BiGt,
    BiGe,
    BiAnd,
    BiOr,
    BiEq,
    BiNe,
}

/// A unary operator of the expression language.
#[derive(Clone, Copy, PartialEq, Eq, Structural, Debug)]
pub enum UnOp {
    UnAdd,
    UnSub,
    UnNot,
}

/// One top-level node of a parsed resource.
pub enum Entry {
    /// A comment; dropped by the compiler.
    Comment(String),
    /// A named macro: parameter list (each a `VarExpr`) and body expression.
    Macro(String, Vec<Expr>, Box<Expr>),
    /// A named entity: main value, selector-index chain, and attributes.
    Entity(String, Value, Vec<Expr>, Vec<Attr>),
}

/// A named sub-value attached to an entity, with its own selector-index
/// chain.
pub struct Attr(pub String, pub Value, pub Vec<Expr>);

/// The value of an entity, an attribute, or a hash branch.
pub enum Value {
    /// A plain string.
    Str(String),
    /// A concatenation of expressions; each must resolve to a string or a
    /// number.
    ComplexStr(Vec<Expr>),
    /// A branching value: selector key to branch, an optional literal
    /// default key, and an optional default-selector expression.
    Hash(Vec<(String, Value)>, Option<String>, Option<Box<Expr>>),
}

/// An expression of the resource language.
pub enum Expr {
    /// A value used in expression position.
    ValExpr(Value),
    /// A numeric literal.
    NumExpr(i64),
    /// A binary operation; both operands are fully resolved first.
    BinExpr(Box<Expr>, BinOp, Box<Expr>),
    /// A unary operation.
    UnExpr(UnOp, Box<Expr>),
    /// A reference to a runtime variable, `$name`.
    VarExpr(String),
    /// A reference to an entry of the environment.
    IdentExpr(String),
    /// A conditional: boolean condition, consequent, alternative.
    CondExpr(Box<Expr>, Box<Expr>, Box<Expr>),
    /// A macro call: callee (an `IdentExpr`) and arguments.
    CallExpr(Box<Expr>, Vec<Expr>),
    /// Property access, `parent.key` or `parent[expr]`.
    PropExpr(Box<Expr>, Box<Expr>, AccessType),
    /// Attribute access, `parent::key` or `parent::[expr]`.
    AttrExpr(Box<Expr>, Box<Expr>, AccessType),
}

/// A runtime value: what the caller supplies as data and what a resolution
/// returns.  The `Dict` variant is a string-keyed mapping in which a later
/// pair with the same key shadows an earlier one.
pub enum Data {
    /// Absence of a value.
    Null,
    /// A boolean.
    Bool(bool),
    /// A number.
    Num(i64),
    /// A string.
    Str(String),
    /// A string-keyed mapping.
    Dict(Vec<(String, Data)>),
}

pub(crate) fn clone_exprs(v: &Vec<Expr>) -> (r: Vec<Expr>)
    ensures
        exprs_model(r@) == exprs_model(v@),
    decreases *v,
{
    let mut r: Vec<Expr> = Vec::new();
    let n = v.len();
    assert(r@ =~= v@.take(0));
    for i in 0..n
        invariant
            n == v@.len(),
            exprs_model(r@) == exprs_model(v@.take(i as int)),
        decreases n - i,
    {
        proof {
            assert(decreases_to!(*v => v@));
            assert(decreases_to!(v@ => v@[i as int]));
        }
        let ghost r0 = r@;
        let e = (&v[i]).clone();
        r.push(e);
        proof {
            assert(v@.take(i + 1).drop_last() =~= v@.take(i as int));
            assert(v@.take(i + 1).last() == v@[i as int]);
            assert(r@.drop_last() =~= r0);
        }
    }
    proof {
        assert(v@.take(n as int) =~= v@);
    }
    r
}

fn clone_hash_pairs(v: &Vec<(String, Value)>) -> (r: Vec<(String, Value)>)
    ensures
        hash_pairs_model(r@) == hash_pairs_model(v@),
    decreases *v,
{
    let mut r: Vec<(String, Value)> = Vec::new();
    let n = v.len();
    for i in 0..n
        invariant
            n == v@.len(),
            hash_pairs_model(r@) == hash_pairs_model(v@.take(i as int)),
        decreases n - i,
    {
        proof {
            assert(decreases_to!(*v => v@));
            assert(decreases_to!(v@ => v@[i as int]));
        }
        let ghost r0 = r@;
        let k = v[i].0.clone();
        let val = (&v[i].1).clone();
        r.push((k, val));
        proof {
            assert(v@.take(i + 1).drop_last() =~= v@.take(i as int));
            assert(v@.take(i + 1).last() == v@[i as int]);
            assert(r@.drop_last() =~= r0);
        }
    }
    proof {
        assert(v@.take(n as int) =~= v@);
    }
    r
}

fn clone_attrs(v: &Vec<Attr>) -> (r: Vec<Attr>)
    ensures
        attrs_model(r@) == attrs_model(v@),
    decreases *v,
{
    let mut r: Vec<Attr> = Vec::new();
    let n = v.len();
    for i in 0..n
        invariant
            n == v@.len(),
            attrs_model(r@) == attrs_model(v@.take(i as int)),
        decreases n - i,
    {
        proof {
            assert(decreases_to!(*v => v@));
            assert(decreases_to!(v@ => v@[i as int]));
        }
        let ghost r0 = r@;
        let a = (&v[i]).clone();
        r.push(a);
        proof {
            assert(v@.take(i + 1).drop_last() =~= v@.take(i as int));
            assert(v@.take(i + 1).last() == v@[i as int]);
            assert(r@.drop_last() =~= r0);
        }
    }
    proof {
        assert(v@.take(n as int) =~= v@);
    }
    r
}

fn clone_data_pairs(v: &Vec<(String, Data)>) -> (r: Vec<(String, Data)>)
    ensures
        data_pairs_model(r@) == data_pairs_model(v@),
    decreases *v,
{
    let mut r: Vec<(String, Data)> = Vec::new();
    let n = v.len();
    for i in 0..n
        invariant
            n == v@.len(),
            data_pairs_model(r@) == data_pairs_model(v@.take(i as int)),
        decreases n - i,
    {
        proof {
            assert(decreases_to!(*v => v@));
            assert(decreases_to!(v@ => v@[i as int]));
        }
        let ghost r0 = r@;
        let k = v[i].0.clone();
        let d = (&v[i].1).clone();
        r.push((k, d));
        proof {
            assert(v@.take(i + 1).drop_last() =~= v@.take(i as int));
            assert(v@.take(i + 1).last() == v@[i as int]);
            assert(r@.drop_last() =~= r0);
        }
    }
    proof {
        assert(v@.take(n as int) =~= v@);
    }
    r
}

impl Clone for Expr {
    /// A deep copy with the same model.
    fn clone(&self) -> (r: Expr)
        ensures
            expr_model(r) == expr_model(*self),
        decreases *self,
    {
        match self {
            Expr::ValExpr(v) => Expr::ValExpr(v.clone()),
            Expr::NumExpr(n) => Expr::NumExpr(*n),
            Expr::BinExpr(l, op, r) => Expr::BinExpr(
                Box::new((&**l).clone()),
                *op,
                Box::new((&**r).clone()),
            ),
            Expr::UnExpr(op, x) => Expr::UnExpr(*op, Box::new((&**x).clone())),
            Expr::VarExpr(n) => Expr::VarExpr(n.clone()),
            Expr::IdentExpr(n) => Expr::IdentExpr(n.clone()),
            Expr::CondExpr(c, t, f) => Expr::CondExpr(
                Box::new((&**c).clone()),
                Box::new((&**t).clone()),
                Box::new((&**f).clone()),
            ),
            Expr::CallExpr(callee, args) => Expr::CallExpr(
                Box::new((&**callee).clone()),
                clone_exprs(args),
            ),
            Expr::PropExpr(p, k, a) => Expr::PropExpr(
                Box::new((&**p).clone()),
                Box::new((&**k).clone()),
                *a,
            ),
            Expr::AttrExpr(p, k, a) => Expr::AttrExpr(
                Box::new((&**p).clone()),
                Box::new((&**k).clone()),
                *a,
            ),
        }
    }
}

impl Clone for Value {
    /// A deep copy with the same model.
    fn clone(&self) -> (r: Value)
        ensures
            value_model(r) == value_model(*self),
        decreases *self,
    {
        match self {
            Value::Str(s) => Value::Str(s.clone()),
            Value::ComplexStr(es) => Value::ComplexStr(clone_exprs(es)),
            Value::Hash(m, dk, di) => Value::Hash(
                clone_hash_pairs(m),
                match dk {
                    Some(k) => Some(k.clone()),
                    None => None,
                },
                match di {
                    Some(e) => Some(Box::new((&**e).clone())),
                    None => None,
                },
            ),
        }
    }
}

impl Clone for Attr {
    /// A deep copy with the same model.
    fn clone(&self) -> (r: Attr)
        ensures
            attr_model(r) == attr_model(*self),
        decreases *self,
    {
        Attr(self.0.clone(), self.1.clone(), clone_exprs(&self.2))
    }
}

impl Clone for Entry {
    /// A deep copy with the same model.
    fn clone(&self) -> (r: Entry)
        ensures
            entry_model(r) == entry_model(*self),
        decreases *self,
    {
        match self {
            Entry::Comment(s) => Entry::Comment(s.clone()),
            Entry::Macro(n, ps, body) => Entry::Macro(
                n.clone(),
                clone_exprs(ps),
                Box::new((&**body).clone()),
            ),
            Entry::Entity(n, v, idx, attrs) => Entry::Entity(
                n.clone(),
                v.clone(),
                clone_exprs(idx),
                clone_attrs(attrs),
            ),
        }
    }
}

impl Clone for Data {
    /// A deep copy with the same model.
    fn clone(&self) -> (r: Data)
        ensures
            data_model(r) == data_model(*self),
        decreases *self,
    {
        match self {
            Data::Null => Data::Null,
            Data::Bool(b) => Data::Bool(*b),
            Data::Num(n) => Data::Num(*n),
            Data::Str(s) => Data::Str(s.clone()),
            Data::Dict(v) => Data::Dict(clone_data_pairs(v)),
        }
    }
}

} // verus!
