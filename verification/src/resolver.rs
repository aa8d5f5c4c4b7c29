//! Resolution: the evaluator that turns entries, values and expressions into
//! runtime values.
//!
//! Every node resolves in two ways: `resolve` performs a single reduction
//! step, returning an entry, a value, or a runtime value; `resolve_data`
//! drives `resolve` repeatedly (the trampoline) until a runtime value or an
//! error comes out.  Both take a step budget, `fuel`: entries that reference
//! themselves, directly or through macros, fail with
//! [`ResolveError::TooDeep`] instead of recursing forever.
//!
//! The executable evaluator is specified exactly by the specification-level
//! interpreter (`sp_step_expr`, `sp_eval_expr` and their companions): each
//! `resolve` returns precisely what the interpreter says, model for model.

use vstd::prelude::*;

use crate::ast::{Attr, BinOp, Data, Entry, Expr, UnOp, Value, AccessType};
use crate::compiler::Env;
use crate::model::{
    attr_model, attrs_model, data_model, data_pairs_model, entry_model, env_pairs_model,
    expr_model, exprs_model, hash_pairs_model, lemma_attrs_model_index, lemma_exprs_model_index,
    value_model, SpecAttr, SpecData, SpecEntry, SpecExpr, SpecValue,
};
use crate::numstr::{num_str, num_to_string};

verus! {

/// Errors that can occur when resolving a set of resources into runtime
/// values.  These are caused by problems in the resource file, or by
/// incorrect data provided when localizing.
#[derive(Debug)]
pub enum ResolveError {
    /// A resource received a value of the wrong type.
    WrongType,
    /// A macro was called with the wrong number of arguments.
    WrongNumberOfArgs,
    /// Accessed an index of a hash that does not exist.
    MissingIndex,
    /// Accessed an attribute of an entity that does not exist.
    MissingAttr,
    /// Tried to use a variable that did not exist in the provided data.
    MissingVar(String),
    /// A string tried to use another entry that did not exist.
    MissingIdent(String),
    /// Resolution exceeded its step budget; entries that reference
    /// themselves, directly or transitively, fail this way.
    TooDeep,
}

/// Model of a [`ResolveError`].
pub enum SpecErr {
    WrongType,
    WrongNumberOfArgs,
    MissingIndex,
    MissingAttr,
    MissingVar(Seq<char>),
    MissingIdent(Seq<char>),
    TooDeep,
}

/// What a single resolution step produces: another entry or value still to
/// be resolved, or a final runtime value.
pub enum ResolveTarget {
    /// An environment entry, not yet reduced.
    Entry(Entry),
    /// A value, not yet reduced.
    Value(Value),
    /// A final runtime value.
    Data(Data),
}

/// Model of a [`ResolveTarget`].
pub enum SpecTarget {
    Entry(SpecEntry),
    Value(SpecValue),
    Data(SpecData),
}

/// The result of a single resolution step.
pub type ResolveResult = Result<ResolveTarget, ResolveError>;

/// The model of a [`ResolveError`].
pub open spec fn err_model(e: ResolveError) -> SpecErr {
    match e {
        ResolveError::WrongType => SpecErr::WrongType,
        ResolveError::WrongNumberOfArgs => SpecErr::WrongNumberOfArgs,
        ResolveError::MissingIndex => SpecErr::MissingIndex,
        ResolveError::MissingAttr => SpecErr::MissingAttr,
        ResolveError::MissingVar(s) => SpecErr::MissingVar(s@),
        ResolveError::MissingIdent(s) => SpecErr::MissingIdent(s@),
        ResolveError::TooDeep => SpecErr::TooDeep,
    }
}

/// The model of a [`ResolveTarget`].
pub open spec fn target_model(t: ResolveTarget) -> SpecTarget {
    match t {
        ResolveTarget::Entry(e) => SpecTarget::Entry(entry_model(e)),
        ResolveTarget::Value(v) => SpecTarget::Value(value_model(v)),
        ResolveTarget::Data(d) => SpecTarget::Data(data_model(d)),
    }
}

/// The model of a step result.
pub open spec fn res_model(r: ResolveResult) -> Result<SpecTarget, SpecErr> {
    match r {
        Ok(t) => Ok(target_model(t)),
        Err(e) => Err(err_model(e)),
    }
}

/// The model of a trampoline result.
pub open spec fn data_res_model(r: Result<Data, ResolveError>) -> Result<SpecData, SpecErr> {
    match r {
        Ok(d) => Ok(data_model(d)),
        Err(e) => Err(err_model(e)),
    }
}

/// An immutable, layered view of everything a resolution step may consult:
/// the environment, the caller's runtime data, optional macro-call-local
/// bindings, and an optional current selector key.
pub struct ResolveContext<'a> {
    /// The compiled environment.
    pub env: &'a Env,
    /// The caller-supplied runtime data.
    pub data: &'a Data,
    /// Macro-call-local bindings, when resolving a macro body.
    pub locals: Option<&'a Data>,
    /// The current selector key, set by property access.
    pub index: Option<String>,
}

/// Model of a [`ResolveContext`].
pub struct SpecCtx {
    pub env: Map<Seq<char>, SpecEntry>,
    pub data: SpecData,
    pub locals: Option<SpecData>,
    pub index: Option<Seq<char>>,
}

/// The model of a [`ResolveContext`].
pub open spec fn ctx_model<'a>(c: ResolveContext<'a>) -> SpecCtx {
    SpecCtx {
        env: env_pairs_model((*c.env)@),
        data: data_model(*c.data),
        locals: match c.locals {
            Some(d) => Some(data_model(*d)),
            None => None,
        },
        index: match c.index {
            Some(s) => Some(s@),
            None => None,
        },
    }
}

impl<'a> ResolveContext<'a> {
    /// A fresh context over an environment and runtime data, with no locals
    /// and no selector key.
    pub fn new(env: &'a Env, data: &'a Data) -> (r: ResolveContext<'a>)
        ensures
            ctx_model(r) == (SpecCtx {
                env: env_pairs_model(env@),
                data: data_model(*data),
                locals: None,
                index: None,
            }),
    {
        ResolveContext { env, data, locals: None, index: None }
    }

    /// The same context layered with macro-call-local bindings; the selector
    /// key is cleared.
    fn with_locals(&self, locals: &'a Data) -> (r: ResolveContext<'a>)
        ensures
            ctx_model(r) == sp_with_locals(ctx_model(*self), data_model(*locals)),
    {
        ResolveContext { env: self.env, data: self.data, locals: Some(locals), index: None }
    }

    /// The same context with the current selector key replaced.
    fn with_index(&self, index: Option<String>) -> (r: ResolveContext<'a>)
        ensures
            ctx_model(r) == sp_with_index(
                ctx_model(*self),
                match index {
                    Some(s) => Some(s@),
                    None => None::<Seq<char>>,
                },
            ),
    {
        ResolveContext { env: self.env, data: self.data, locals: self.locals, index }
    }
}

/// Context layering for a macro call: locals replace any outer locals, and
/// the selector key is cleared.
pub open spec fn sp_with_locals(c: SpecCtx, locals: SpecData) -> SpecCtx {
    SpecCtx { locals: Some(locals), index: None, ..c }
}

/// Context layering for property access: the selector key is replaced.
pub open spec fn sp_with_index(c: SpecCtx, index: Option<Seq<char>>) -> SpecCtx {
    SpecCtx { index, ..c }
}

/// Looking a key up in a runtime value: only a mapping has entries.
pub open spec fn sp_data_get(d: SpecData, k: Seq<char>) -> Option<SpecData> {
    match d {
        SpecData::Dict(m) => if m.contains_key(k) {
            Some(m[k])
        } else {
            None
        },
        _ => None,
    }
}

/// The typed table of binary operators: arithmetic on two numbers (a result
/// outside the machine range is a type error), ordering on two numbers,
/// logic on two booleans, and equality on two values of the same scalar
/// kind.  Every other combination is a type error.
pub open spec fn sp_bin(op: BinOp, l: SpecData, r: SpecData) -> Result<SpecData, SpecErr> {
    match (op, l, r) {
        (BinOp::BiAdd, SpecData::Num(a), SpecData::Num(b)) => match a.checked_add(b) {
            Some(v) => Ok(SpecData::Num(v)),
            None => Err(SpecErr::WrongType),
        },
        (BinOp::BiSub, SpecData::Num(a), SpecData::Num(b)) => match a.checked_sub(b) {
            Some(v) => Ok(SpecData::Num(v)),
            None => Err(SpecErr::WrongType),
        },
        (BinOp::BiMul, SpecData::Num(a), SpecData::Num(b)) => match a.checked_mul(b) {
            Some(v) => Ok(SpecData::Num(v)),
            None => Err(SpecErr::WrongType),
        },
        (BinOp::BiDiv, SpecData::Num(a), SpecData::Num(b)) => match a.checked_div(b) {
            Some(v) => Ok(SpecData::Num(v)),
            None => Err(SpecErr::WrongType),
        },
        (BinOp::BiRem, SpecData::Num(a), SpecData::Num(b)) => match a.checked_rem(b) {
            Some(v) => Ok(SpecData::Num(v)),
            None => Err(SpecErr::WrongType),
        },
        (BinOp::BiLt, SpecData::Num(a), SpecData::Num(b)) => Ok(SpecData::Bool(a < b)),
        (BinOp::BiLe, SpecData::Num(a), SpecData::Num(b)) => Ok(SpecData::Bool(a <= b)),
        (BinOp::BiGt, SpecData::Num(a), SpecData::Num(b)) => Ok(SpecData::Bool(a > b)),
        (BinOp::BiGe, SpecData::Num(a), SpecData::Num(b)) => Ok(SpecData::Bool(a >= b)),
        (BinOp::BiAnd, SpecData::Bool(a), SpecData::Bool(b)) => Ok(SpecData::Bool(a && b)),
        (BinOp::BiOr, SpecData::Bool(a), SpecData::Bool(b)) => Ok(SpecData::Bool(a || b)),
        (BinOp::BiEq, SpecData::Bool(a), SpecData::Bool(b)) => Ok(SpecData::Bool(a == b)),
        (BinOp::BiEq, SpecData::Str(a), SpecData::Str(b)) => Ok(SpecData::Bool(a == b)),
        (BinOp::BiEq, SpecData::Num(a), SpecData::Num(b)) => Ok(SpecData::Bool(a == b)),
        (BinOp::BiNe, SpecData::Bool(a), SpecData::Bool(b)) => Ok(SpecData::Bool(a != b)),
        (BinOp::BiNe, SpecData::Str(a), SpecData::Str(b)) => Ok(SpecData::Bool(a != b)),
        (BinOp::BiNe, SpecData::Num(a), SpecData::Num(b)) => Ok(SpecData::Bool(a != b)),
        _ => Err(SpecErr::WrongType),
    }
}

/// The typed table of unary operators.
pub open spec fn sp_un(op: UnOp, d: SpecData) -> Result<SpecData, SpecErr> {
    match (op, d) {
        (UnOp::UnAdd, SpecData::Num(n)) => Ok(SpecData::Num(n)),
        (UnOp::UnSub, SpecData::Num(n)) => match (0i64).checked_sub(n) {
            Some(v) => Ok(SpecData::Num(v)),
            None => Err(SpecErr::WrongType),
        },
        (UnOp::UnNot, SpecData::Bool(b)) => Ok(SpecData::Bool(!b)),
        _ => Err(SpecErr::WrongType),
    }
}

/// Linear search of an entity's attributes; the first attribute with the
/// given name wins.
pub open spec fn sp_attr_find(attrs: Seq<SpecAttr>, k: Seq<char>) -> Option<SpecValue>
    decreases attrs.len(),
{
    if attrs.len() == 0 {
        None
    } else if attrs[0].name == k {
        Some(attrs[0].value)
    } else {
        sp_attr_find(attrs.drop_first(), k)
    }
}

/// The macro-call-local bindings as a map: a later binding with the same
/// name shadows an earlier one.
pub open spec fn sp_locals_map(bs: Seq<(Seq<char>, SpecData)>) -> Map<Seq<char>, SpecData>
    decreases bs.len(),
{
    if bs.len() == 0 {
        Map::empty()
    } else {
        sp_locals_map(bs.drop_last()).insert(bs.last().0, bs.last().1)
    }
}

/// One reduction step of a target.
pub open spec fn sp_step_target(t: SpecTarget, ctx: SpecCtx, fuel: nat) -> Result<
    SpecTarget,
    SpecErr,
>
    decreases fuel, 0nat, 0nat,
{
    if fuel == 0 {
        Err(SpecErr::TooDeep)
    } else {
        match t {
            SpecTarget::Data(d) => Ok(SpecTarget::Data(d)),
            SpecTarget::Entry(e) => sp_step_entry(e, ctx, (fuel - 1) as nat),
            SpecTarget::Value(v) => sp_step_value(v, ctx, (fuel - 1) as nat),
        }
    }
}

/// One reduction step of an entry: an entity steps to its (unevaluated) main
/// value; any other entry resolves to absence.
pub open spec fn sp_step_entry(e: SpecEntry, ctx: SpecCtx, fuel: nat) -> Result<
    SpecTarget,
    SpecErr,
>
    decreases fuel, 0nat, 0nat,
{
    if fuel == 0 {
        Err(SpecErr::TooDeep)
    } else {
        match e {
            SpecEntry::Entity(_n, v, _idx, _attrs) => Ok(SpecTarget::Value(v)),
            _ => Ok(SpecTarget::Data(SpecData::Null)),
        }
    }
}

/// Hash branch selection, tried in order: the context's explicit selector
/// key, the literal default key, then the fully resolved default-selector
/// expression (which must yield a string; a string that names no branch
/// falls through).  `Ok(None)` means no branch matched.
pub open spec fn sp_hash_select(
    m: Map<Seq<char>, SpecValue>,
    dk: Option<Seq<char>>,
    di: Option<Box<SpecExpr>>,
    ctx: SpecCtx,
    fuel: nat,
) -> Result<Option<Seq<char>>, SpecErr>
    decreases fuel, 1nat, 0nat,
{
    if ctx.index is Some && m.contains_key(ctx.index->0) {
        Ok(Some(ctx.index->0))
    } else if dk is Some && m.contains_key(dk->0) {
        Ok(Some(dk->0))
    } else {
        match di {
            Some(e) => match sp_eval_expr(*e, ctx, fuel) {
                Ok(SpecData::Str(s)) => if m.contains_key(s) {
                    Ok(Some(s))
                } else {
                    Ok(None)
                },
                Ok(_) => Err(SpecErr::WrongType),
                Err(err) => Err(err),
            },
            None => Ok(None),
        }
    }
}

/// The pieces of an interpolated string: each expression fully resolves to a
/// string (used as is) or a number (rendered in decimal); anything else is a
/// type error.  The first error wins.
pub open spec fn sp_concat(es: Seq<SpecExpr>, ctx: SpecCtx, fuel: nat) -> Result<
    Seq<char>,
    SpecErr,
>
    decreases fuel, 1nat, es.len(),
{
    if es.len() == 0 {
        Ok(Seq::empty())
    } else {
        match sp_eval_expr(es[0], ctx, fuel) {
            Ok(SpecData::Str(s)) => match sp_concat(es.drop_first(), ctx, fuel) {
                Ok(rest) => Ok(s + rest),
                Err(e) => Err(e),
            },
            Ok(SpecData::Num(n)) => match sp_concat(es.drop_first(), ctx, fuel) {
                Ok(rest) => Ok(num_str(n as int) + rest),
                Err(e) => Err(e),
            },
            Ok(_) => Err(SpecErr::WrongType),
            Err(e) => Err(e),
        }
    }
}

/// Binding macro arguments to parameters, in order: each parameter must be a
/// variable reference, and each argument is fully resolved in the caller's
/// context.  The first error wins.
pub open spec fn sp_bind(
    params: Seq<SpecExpr>,
    args: Seq<SpecExpr>,
    ctx: SpecCtx,
    fuel: nat,
) -> Result<Seq<(Seq<char>, SpecData)>, SpecErr>
    decreases fuel, 1nat, params.len(),
{
    if params.len() == 0 {
        Ok(Seq::empty())
    } else {
        match params[0] {
            SpecExpr::Var(name) => match sp_eval_expr(args[0], ctx, fuel) {
                Ok(d) => match sp_bind(params.drop_first(), args.drop_first(), ctx, fuel) {
                    Ok(rest) => Ok(seq![(name, d)] + rest),
                    Err(e) => Err(e),
                },
                Err(e) => Err(e),
            },
            _ => Err(SpecErr::WrongType),
        }
    }
}

/// One reduction step of a value.
pub open spec fn sp_step_value(v: SpecValue, ctx: SpecCtx, fuel: nat) -> Result<
    SpecTarget,
    SpecErr,
>
    decreases fuel, 0nat, 0nat,
{
    if fuel == 0 {
        Err(SpecErr::TooDeep)
    } else {
        match v {
            SpecValue::Str(s) => Ok(SpecTarget::Data(SpecData::Str(s))),
            SpecValue::ComplexStr(es) => match sp_concat(es, ctx, (fuel - 1) as nat) {
                Ok(s) => Ok(SpecTarget::Data(SpecData::Str(s))),
                Err(e) => Err(e),
            },
            SpecValue::Hash(m, dk, di) => match sp_hash_select(m, dk, di, ctx, (fuel - 1) as nat) {
                Ok(Some(k)) => Ok(SpecTarget::Value(m[k])),
                Ok(None) => Err(SpecErr::MissingIndex),
                Err(e) => Err(e),
            },
        }
    }
}

/// One reduction step of an expression.
pub open spec fn sp_step_expr(x: SpecExpr, ctx: SpecCtx, fuel: nat) -> Result<
    SpecTarget,
    SpecErr,
>
    decreases fuel, 0nat, 0nat,
{
    if fuel == 0 {
        Err(SpecErr::TooDeep)
    } else {
        let f = (fuel - 1) as nat;
        match x {
            SpecExpr::Val(v) => Ok(SpecTarget::Value(*v)),
            SpecExpr::Num(n) => Ok(SpecTarget::Data(SpecData::Num(n))),
            SpecExpr::Bin(l, op, r) => match sp_eval_expr(*l, ctx, f) {
                Ok(ld) => match sp_eval_expr(*r, ctx, f) {
                    Ok(rd) => match sp_bin(op, ld, rd) {
                        Ok(d) => Ok(SpecTarget::Data(d)),
                        Err(e) => Err(e),
                    },
                    Err(e) => Err(e),
                },
                Err(e) => Err(e),
            },
            SpecExpr::Un(op, inner) => match sp_eval_expr(*inner, ctx, f) {
                Ok(d) => match sp_un(op, d) {
                    Ok(d2) => Ok(SpecTarget::Data(d2)),
                    Err(e) => Err(e),
                },
                Err(e) => Err(e),
            },
            SpecExpr::Var(name) => {
                let local = match ctx.locals {
                    Some(loc) => sp_data_get(loc, name),
                    None => None,
                };
                match local {
                    Some(d) => Ok(SpecTarget::Data(d)),
                    None => match sp_data_get(ctx.data, name) {
                        Some(d) => Ok(SpecTarget::Data(d)),
                        None => Err(SpecErr::MissingVar(name)),
                    },
                }
            },
            SpecExpr::Ident(name) => if ctx.env.contains_key(name) {
                Ok(SpecTarget::Entry(ctx.env[name]))
            } else {
                Err(SpecErr::MissingIdent(name))
            },
            SpecExpr::Cond(c, t, alt) => match sp_eval_expr(*c, ctx, f) {
                Ok(SpecData::Bool(b)) => if b {
                    sp_step_expr(*t, ctx, f)
                } else {
                    sp_step_expr(*alt, ctx, f)
                },
                Ok(_) => Err(SpecErr::WrongType),
                Err(e) => Err(e),
            },
            SpecExpr::Call(callee, args) => match *callee {
                SpecExpr::Ident(name) => if ctx.env.contains_key(name) {
                    match ctx.env[name] {
                        SpecEntry::Macro(_n, params, body) => if args.len() == params.len() {
                            match sp_bind(params, args, ctx, f) {
                                Ok(bs) => sp_step_expr(
                                    *body,
                                    sp_with_locals(ctx, SpecData::Dict(sp_locals_map(bs))),
                                    f,
                                ),
                                Err(e) => Err(e),
                            }
                        } else {
                            Err(SpecErr::WrongNumberOfArgs)
                        },
                        _ => Err(SpecErr::WrongType),
                    }
                } else {
                    Err(SpecErr::MissingIdent(name))
                },
                _ => Err(SpecErr::WrongType),
            },
            SpecExpr::Prop(parent, keyx, access) => match sp_access_key(*keyx, access, ctx, f) {
                Ok(k) => match sp_step_expr(*parent, ctx, f) {
                    Ok(SpecTarget::Data(SpecData::Dict(m))) => if m.contains_key(k) {
                        Ok(SpecTarget::Data(m[k]))
                    } else {
                        Err(SpecErr::MissingIndex)
                    },
                    Ok(SpecTarget::Entry(e)) => match sp_step_entry(e, ctx, f) {
                        Ok(SpecTarget::Value(v)) => sp_step_value(
                            v,
                            sp_with_index(ctx, Some(k)),
                            f,
                        ),
                        Ok(_) => Err(SpecErr::WrongType),
                        Err(e) => Err(e),
                    },
                    Ok(SpecTarget::Value(v)) => sp_step_value(v, sp_with_index(ctx, Some(k)), f),
                    Ok(_) => Err(SpecErr::WrongType),
                    Err(e) => Err(e),
                },
                Err(e) => Err(e),
            },
            SpecExpr::Attrib(parent, keyx, access) => match sp_access_key(*keyx, access, ctx, f) {
                Ok(k) => match sp_step_expr(*parent, ctx, f) {
                    Ok(SpecTarget::Entry(SpecEntry::Entity(_n, _v, _idx, attrs))) => match
                        sp_attr_find(attrs, k) {
                        Some(v) => sp_step_value(v, ctx, f),
                        None => Err(SpecErr::MissingAttr),
                    },
                    Ok(_) => Err(SpecErr::WrongType),
                    Err(e) => Err(e),
                },
                Err(e) => Err(e),
            },
        }
    }
}

/// The key of a property or attribute access: the identifier itself for
/// static access, the fully resolved string value of the key expression for
/// computed access.
pub open spec fn sp_access_key(
    keyx: SpecExpr,
    access: AccessType,
    ctx: SpecCtx,
    fuel: nat,
) -> Result<Seq<char>, SpecErr>
    decreases fuel, 1nat, 0nat,
{
    match access {
        AccessType::Computed => match sp_eval_expr(keyx, ctx, fuel) {
            Ok(SpecData::Str(s)) => Ok(s),
            Ok(_) => Err(SpecErr::WrongType),
            Err(e) => Err(e),
        },
        AccessType::Static => match keyx {
            SpecExpr::Ident(s) => Ok(s),
            _ => Err(SpecErr::WrongType),
        },
    }
}

/// The trampoline on a target: step until a runtime value comes out.
pub open spec fn sp_eval(t: SpecTarget, ctx: SpecCtx, fuel: nat) -> Result<SpecData, SpecErr>
    decreases fuel, 0nat, 0nat,
{
    if fuel == 0 {
        Err(SpecErr::TooDeep)
    } else {
        match sp_step_target(t, ctx, (fuel - 1) as nat) {
            Ok(SpecTarget::Data(d)) => Ok(d),
            Ok(other) => sp_eval(other, ctx, (fuel - 1) as nat),
            Err(e) => Err(e),
        }
    }
}

/// The trampoline starting from an entry.
pub open spec fn sp_eval_entry(e: SpecEntry, ctx: SpecCtx, fuel: nat) -> Result<
    SpecData,
    SpecErr,
>
    decreases fuel, 0nat, 0nat,
{
    if fuel == 0 {
        Err(SpecErr::TooDeep)
    } else {
        match sp_step_entry(e, ctx, (fuel - 1) as nat) {
            Ok(SpecTarget::Data(d)) => Ok(d),
            Ok(other) => sp_eval(other, ctx, (fuel - 1) as nat),
            Err(e) => Err(e),
        }
    }
}

/// The trampoline starting from a value.
pub open spec fn sp_eval_value(v: SpecValue, ctx: SpecCtx, fuel: nat) -> Result<
    SpecData,
    SpecErr,
>
    decreases fuel, 0nat, 0nat,
{
    if fuel == 0 {
        Err(SpecErr::TooDeep)
    } else {
        match sp_step_value(v, ctx, (fuel - 1) as nat) {
            Ok(SpecTarget::Data(d)) => Ok(d),
            Ok(other) => sp_eval(other, ctx, (fuel - 1) as nat),
            Err(e) => Err(e),
        }
    }
}

/// The trampoline starting from an expression.
pub open spec fn sp_eval_expr(x: SpecExpr, ctx: SpecCtx, fuel: nat) -> Result<
    SpecData,
    SpecErr,
>
    decreases fuel, 0nat, 0nat,
{
    if fuel == 0 {
        Err(SpecErr::TooDeep)
    } else {
        match sp_step_expr(x, ctx, (fuel - 1) as nat) {
            Ok(SpecTarget::Data(d)) => Ok(d),
            Ok(other) => sp_eval(other, ctx, (fuel - 1) as nat),
            Err(e) => Err(e),
        }
    }
}

/// The ghost pairs of an executable binding vector.
pub open spec fn bind_pairs(s: Seq<(String, Data)>) -> Seq<(Seq<char>, SpecData)> {
    s.map(|i: int, p: (String, Data)| (p.0@, data_model(p.1)))
}

/// The locals map of a binding vector is its shadowing fold.
proof fn lemma_bind_pairs_fold(s: Seq<(String, Data)>)
    ensures
        sp_locals_map(bind_pairs(s)) == data_pairs_model(s),
    decreases s.len(),
{
    if s.len() == 0 {
        assert(bind_pairs(s) =~= Seq::<(Seq<char>, SpecData)>::empty());
    } else {
        lemma_bind_pairs_fold(s.drop_last());
        assert(bind_pairs(s).drop_last() =~= bind_pairs(s.drop_last()));
        assert(bind_pairs(s).last() == (s.last().0@, data_model(s.last().1)));
    }
}

/// Looks a key up in a runtime mapping vector; a later pair shadows an
/// earlier one.
fn dict_get<'v>(pairs: &'v Vec<(String, Data)>, key: &String) -> (r: Option<&'v Data>)
    ensures
        match r {
            Some(d) => data_pairs_model(pairs@).contains_key(key@) && data_pairs_model(pairs@)[key@]
                == data_model(*d),
            None => !data_pairs_model(pairs@).contains_key(key@),
        },
{
    let mut i = pairs.len();
    proof {
        assert(pairs@.take(pairs@.len() as int) =~= pairs@);
    }
    while i > 0
        invariant
            i <= pairs@.len(),
            data_pairs_model(pairs@.take(i as int)).contains_key(key@) == data_pairs_model(
                pairs@,
            ).contains_key(key@),
            data_pairs_model(pairs@).contains_key(key@) ==> data_pairs_model(
                pairs@.take(i as int),
            )[key@] == data_pairs_model(pairs@)[key@],
        decreases i,
    {
        i = i - 1;
        proof {
            assert(pairs@.take(i + 1).drop_last() =~= pairs@.take(i as int));
            assert(pairs@.take(i + 1).last() == pairs@[i as int]);
        }
        if pairs[i].0 == *key {
            return Some(&pairs[i].1);
        }
    }
    proof {
        assert(pairs@.take(0) =~= Seq::<(String, Data)>::empty());
    }
    None
}

/// Looks a key up in a hash's branch vector; a later pair shadows an earlier
/// one.
fn hash_get<'v>(pairs: &'v Vec<(String, Value)>, key: &String) -> (r: Option<&'v Value>)
    ensures
        match r {
            Some(v) => hash_pairs_model(pairs@).contains_key(key@) && hash_pairs_model(pairs@)[key@]
                == value_model(*v),
            None => !hash_pairs_model(pairs@).contains_key(key@),
        },
{
    let mut i = pairs.len();
    proof {
        assert(pairs@.take(pairs@.len() as int) =~= pairs@);
    }
    while i > 0
        invariant
            i <= pairs@.len(),
            hash_pairs_model(pairs@.take(i as int)).contains_key(key@) == hash_pairs_model(
                pairs@,
            ).contains_key(key@),
            hash_pairs_model(pairs@).contains_key(key@) ==> hash_pairs_model(
                pairs@.take(i as int),
            )[key@] == hash_pairs_model(pairs@)[key@],
        decreases i,
    {
        i = i - 1;
        proof {
            assert(pairs@.take(i + 1).drop_last() =~= pairs@.take(i as int));
            assert(pairs@.take(i + 1).last() == pairs@[i as int]);
        }
        if pairs[i].0 == *key {
            return Some(&pairs[i].1);
        }
    }
    proof {
        assert(pairs@.take(0) =~= Seq::<(String, Value)>::empty());
    }
    None
}

/// Looks an identifier up in an environment; a later entry shadows an
/// earlier one.
pub fn env_get<'v>(env: &'v Env, key: &String) -> (r: Option<&'v Entry>)
    ensures
        match r {
            Some(e) => env_pairs_model(env@).contains_key(key@) && env_pairs_model(env@)[key@]
                == entry_model(*e),
            None => !env_pairs_model(env@).contains_key(key@),
        },
{
    let mut i = env.len();
    proof {
        assert(env@.take(env@.len() as int) =~= env@);
    }
    while i > 0
        invariant
            i <= env@.len(),
            env_pairs_model(env@.take(i as int)).contains_key(key@) == env_pairs_model(
                env@,
            ).contains_key(key@),
            env_pairs_model(env@).contains_key(key@) ==> env_pairs_model(env@.take(i as int))[key@]
                == env_pairs_model(env@)[key@],
        decreases i,
    {
        i = i - 1;
        proof {
            assert(env@.take(i + 1).drop_last() =~= env@.take(i as int));
            assert(env@.take(i + 1).last() == env@[i as int]);
        }
        if env[i].0 == *key {
            return Some(&env[i].1);
        }
    }
    proof {
        assert(env@.take(0) =~= Seq::<(String, Entry)>::empty());
    }
    None
}

/// Looks a key up in a runtime value, as variable lookup does: only a
/// mapping has entries.
fn data_get<'v>(d: &'v Data, key: &String) -> (r: Option<&'v Data>)
    ensures
        match r {
            Some(x) => sp_data_get(data_model(*d), key@) == Some(data_model(*x)),
            None => sp_data_get(data_model(*d), key@) is None,
        },
{
    match d {
        Data::Dict(pairs) => dict_get(pairs, key),
        _ => None,
    }
}

/// Applies a binary operator to two fully resolved operands, per the typed
/// operator table.
fn apply_bin(op: BinOp, l: Data, r: Data) -> (res: Result<Data, ResolveError>)
    ensures
        data_res_model(res) == sp_bin(op, data_model(l), data_model(r)),
{
    match (op, l, r) {
        (BinOp::BiAdd, Data::Num(a), Data::Num(b)) => match a.checked_add(b) {
            Some(v) => Ok(Data::Num(v)),
            None => Err(ResolveError::WrongType),
        },
        (BinOp::BiSub, Data::Num(a), Data::Num(b)) => match a.checked_sub(b) {
            Some(v) => Ok(Data::Num(v)),
            None => Err(ResolveError::WrongType),
        },
        (BinOp::BiMul, Data::Num(a), Data::Num(b)) => match a.checked_mul(b) {
            Some(v) => Ok(Data::Num(v)),
            None => Err(ResolveError::WrongType),
        },
        (BinOp::BiDiv, Data::Num(a), Data::Num(b)) => match a.checked_div(b) {
            Some(v) => Ok(Data::Num(v)),
            None => Err(ResolveError::WrongType),
        },
        (BinOp::BiRem, Data::Num(a), Data::Num(b)) => match a.checked_rem(b) {
            Some(v) => Ok(Data::Num(v)),
            None => Err(ResolveError::WrongType),
        },
        (BinOp::BiLt, Data::Num(a), Data::Num(b)) => Ok(Data::Bool(a < b)),
        (BinOp::BiLe, Data::Num(a), Data::Num(b)) => Ok(Data::Bool(a <= b)),
        (BinOp::BiGt, Data::Num(a), Data::Num(b)) => Ok(Data::Bool(a > b)),
        (BinOp::BiGe, Data::Num(a), Data::Num(b)) => Ok(Data::Bool(a >= b)),
        (BinOp::BiAnd, Data::Bool(a), Data::Bool(b)) => Ok(Data::Bool(a && b)),
        (BinOp::BiOr, Data::Bool(a), Data::Bool(b)) => Ok(Data::Bool(a || b)),
        (BinOp::BiEq, Data::Bool(a), Data::Bool(b)) => Ok(Data::Bool(a == b)),
        (BinOp::BiEq, Data::Str(a), Data::Str(b)) => Ok(Data::Bool(a == b)),
        (BinOp::BiEq, Data::Num(a), Data::Num(b)) => Ok(Data::Bool(a == b)),
        (BinOp::BiNe, Data::Bool(a), Data::Bool(b)) => Ok(Data::Bool(a != b)),
        (BinOp::BiNe, Data::Str(a), Data::Str(b)) => Ok(Data::Bool(!(a == b))),
        (BinOp::BiNe, Data::Num(a), Data::Num(b)) => Ok(Data::Bool(a != b)),
        _ => Err(ResolveError::WrongType),
    }
}

/// Applies a unary operator to a fully resolved operand.
fn apply_un(op: UnOp, d: Data) -> (res: Result<Data, ResolveError>)
    ensures
        data_res_model(res) == sp_un(op, data_model(d)),
{
    match (op, d) {
        (UnOp::UnAdd, Data::Num(n)) => Ok(Data::Num(n)),
        (UnOp::UnSub, Data::Num(n)) => match (0i64).checked_sub(n) {
            Some(v) => Ok(Data::Num(v)),
            None => Err(ResolveError::WrongType),
        },
        (UnOp::UnNot, Data::Bool(b)) => Ok(Data::Bool(!b)),
        _ => Err(ResolveError::WrongType),
    }
}

/// The key of a property or attribute access.
fn access_key(keyx: &Expr, access: AccessType, ctx: &ResolveContext, fuel: u64) -> (r: Result<
    String,
    ResolveError,
>)
    ensures
        match r {
            Ok(s) => sp_access_key(expr_model(*keyx), access, ctx_model(*ctx), fuel as nat) == Ok::<
                Seq<char>,
                SpecErr,
            >(s@),
            Err(e) => sp_access_key(expr_model(*keyx), access, ctx_model(*ctx), fuel as nat)
                == Err::<Seq<char>, SpecErr>(err_model(e)),
        },
    decreases fuel, 1nat,
{
    match access {
        AccessType::Computed => match keyx.resolve_data(ctx, fuel) {
            Ok(Data::Str(s)) => Ok(s),
            Ok(_) => Err(ResolveError::WrongType),
            Err(e) => Err(e),
        },
        AccessType::Static => match keyx {
            Expr::IdentExpr(s) => Ok(s.clone()),
            _ => Err(ResolveError::WrongType),
        },
    }
}

impl ResolveTarget {
    /// A single resolution step: a runtime value is final; an entry or a
    /// value is reduced one level.
    pub fn resolve(&self, ctx: &ResolveContext, fuel: u64) -> (r: ResolveResult)
        ensures
            res_model(r) == sp_step_target(target_model(*self), ctx_model(*ctx), fuel as nat),
        decreases fuel, 0nat,
    {
        if fuel == 0 {
            return Err(ResolveError::TooDeep);
        }
        match self {
            ResolveTarget::Data(d) => Ok(ResolveTarget::Data(d.clone())),
            ResolveTarget::Entry(e) => e.resolve(ctx, fuel - 1),
            ResolveTarget::Value(v) => v.resolve(ctx, fuel - 1),
        }
    }

    /// Keeps resolving until a runtime value is returned.
    pub fn resolve_data(&self, ctx: &ResolveContext, fuel: u64) -> (r: Result<Data, ResolveError>)
        ensures
            data_res_model(r) == sp_eval(target_model(*self), ctx_model(*ctx), fuel as nat),
        decreases fuel, 0nat,
    {
        if fuel == 0 {
            return Err(ResolveError::TooDeep);
        }
        match self.resolve(ctx, fuel - 1) {
            Ok(ResolveTarget::Data(d)) => Ok(d),
            Ok(other) => other.resolve_data(ctx, fuel - 1),
            Err(e) => Err(e),
        }
    }
}

impl Entry {
    /// A single resolution step: an entity steps to its (unevaluated) main
    /// value; any other entry resolves to absence.
    pub fn resolve(&self, ctx: &ResolveContext, fuel: u64) -> (r: ResolveResult)
        ensures
            res_model(r) == sp_step_entry(entry_model(*self), ctx_model(*ctx), fuel as nat),
        decreases fuel, 0nat,
    {
        if fuel == 0 {
            return Err(ResolveError::TooDeep);
        }
        match self {
            Entry::Entity(_n, v, _idx, _attrs) => Ok(ResolveTarget::Value(v.clone())),
            _ => Ok(ResolveTarget::Data(Data::Null)),
        }
    }

    /// Keeps resolving until a runtime value is returned.
    pub fn resolve_data(&self, ctx: &ResolveContext, fuel: u64) -> (r: Result<Data, ResolveError>)
        ensures
            data_res_model(r) == sp_eval_entry(entry_model(*self), ctx_model(*ctx), fuel as nat),
        decreases fuel, 0nat,
    {
        if fuel == 0 {
            return Err(ResolveError::TooDeep);
        }
        match self.resolve(ctx, fuel - 1) {
            Ok(ResolveTarget::Data(d)) => Ok(d),
            Ok(other) => other.resolve_data(ctx, fuel - 1),
            Err(e) => Err(e),
        }
    }
}

impl Value {
    /// A single resolution step: a plain string is final, an interpolated
    /// string fully resolves its pieces, and a hash selects a branch.
    #[verifier::loop_isolation(false)]
    pub fn resolve(&self, ctx: &ResolveContext, fuel: u64) -> (r: ResolveResult)
        ensures
            res_model(r) == sp_step_value(value_model(*self), ctx_model(*ctx), fuel as nat),
        decreases fuel, 0nat,
    {
        if fuel == 0 {
            return Err(ResolveError::TooDeep);
        }
        match self {
            Value::Str(s) => Ok(ResolveTarget::Data(Data::Str(s.clone()))),
            Value::ComplexStr(es) => {
                let ghost cm = ctx_model(*ctx);
                let ghost f1 = (fuel - 1) as nat;
                let ghost esm = exprs_model(es@);
                proof {
                    lemma_exprs_model_index(es@);
                }
                let mut acc = String::new();
                let n = es.len();
                proof {
                    assert(esm.skip(0) =~= esm);
                    let c0 = sp_concat(esm, cm, f1);
                    if c0 is Ok {
                        assert(acc@ + c0->Ok_0 =~= c0->Ok_0);
                    }
                }
                for i in 0..n
                    invariant
                        n == es@.len(),
                        esm == exprs_model(es@),
                        cm == ctx_model(*ctx),
                        f1 == (fuel - 1) as nat,
                        fuel >= 1,
                        esm.len() == n,
                        forall|j: int| 0 <= j < n ==> esm[j] == expr_model(es@[j]),
                        sp_concat(esm, cm, f1) == (match sp_concat(esm.skip(i as int), cm, f1) {
                            Ok(rest) => Ok::<Seq<char>, SpecErr>(acc@ + rest),
                            Err(e) => Err(e),
                        }),
                    decreases n - i,
                {
                    proof {
                        assert(esm.skip(i as int)[0] == esm[i as int]);
                        assert(esm.skip(i as int).drop_first() =~= esm.skip(i + 1));
                    }
                    match (&es[i]).resolve_data(ctx, fuel - 1) {
                        Ok(Data::Str(s)) => {
                            let ghost acc0 = acc@;
                            acc.append(s.as_str());
                            proof {
                                let crest = sp_concat(esm.skip(i + 1), cm, f1);
                                if crest is Ok {
                                    assert((acc0 + s@) + crest->Ok_0 =~= acc0 + (s@ + crest->Ok_0));
                                }
                            }
                        },
                        Ok(Data::Num(num)) => {
                            let ghost acc0 = acc@;
                            let rendered = num_to_string(num);
                            acc.append(rendered.as_str());
                            proof {
                                let crest = sp_concat(esm.skip(i + 1), cm, f1);
                                if crest is Ok {
                                    assert((acc0 + num_str(num as int)) + crest->Ok_0 =~= acc0 + (
                                    num_str(num as int) + crest->Ok_0));
                                }
                            }
                        },
                        Ok(_) => {
                            return Err(ResolveError::WrongType);
                        },
                        Err(e) => {
                            return Err(e);
                        },
                    }
                }
                proof {
                    assert(esm.skip(n as int).len() == 0);
                    assert(acc@ + Seq::<char>::empty() =~= acc@);
                }
                Ok(ResolveTarget::Data(Data::Str(acc)))
            },
            Value::Hash(m, dk, di) => {
                let ghost hm = hash_pairs_model(m@);
                match &ctx.index {
                    Some(k) => match hash_get(m, k) {
                        Some(v) => {
                            return Ok(ResolveTarget::Value(v.clone()));
                        },
                        None => {},
                    },
                    None => {},
                }
                match dk {
                    Some(k) => match hash_get(m, k) {
                        Some(v) => {
                            return Ok(ResolveTarget::Value(v.clone()));
                        },
                        None => {},
                    },
                    None => {},
                }
                match di {
                    Some(e) => match (&**e).resolve_data(ctx, fuel - 1) {
                        Ok(Data::Str(s)) => match hash_get(m, &s) {
                            Some(v) => {
                                return Ok(ResolveTarget::Value(v.clone()));
                            },
                            None => {},
                        },
                        Ok(_) => {
                            return Err(ResolveError::WrongType);
                        },
                        Err(err) => {
                            return Err(err);
                        },
                    },
                    None => {},
                }
                Err(ResolveError::MissingIndex)
            },
        }
    }

    /// Keeps resolving until a runtime value is returned.
    pub fn resolve_data(&self, ctx: &ResolveContext, fuel: u64) -> (r: Result<Data, ResolveError>)
        ensures
            data_res_model(r) == sp_eval_value(value_model(*self), ctx_model(*ctx), fuel as nat),
        decreases fuel, 0nat,
    {
        if fuel == 0 {
            return Err(ResolveError::TooDeep);
        }
        match self.resolve(ctx, fuel - 1) {
            Ok(ResolveTarget::Data(d)) => Ok(d),
            Ok(other) => other.resolve_data(ctx, fuel - 1),
            Err(e) => Err(e),
        }
    }
}

impl Expr {
    /// A single resolution step of an expression.
    #[verifier::rlimit(80)]
    #[verifier::loop_isolation(false)]
    pub fn resolve(&self, ctx: &ResolveContext, fuel: u64) -> (r: ResolveResult)
        ensures
            res_model(r) == sp_step_expr(expr_model(*self), ctx_model(*ctx), fuel as nat),
        decreases fuel, 0nat,
    {
        if fuel == 0 {
            return Err(ResolveError::TooDeep);
        }
        match self {
            Expr::ValExpr(v) => Ok(ResolveTarget::Value(v.clone())),
            Expr::NumExpr(n) => Ok(ResolveTarget::Data(Data::Num(*n))),
            Expr::BinExpr(l, op, r) => match l.resolve_data(ctx, fuel - 1) {
                Ok(ld) => match r.resolve_data(ctx, fuel - 1) {
                    Ok(rd) => match apply_bin(*op, ld, rd) {
                        Ok(d) => Ok(ResolveTarget::Data(d)),
                        Err(e) => Err(e),
                    },
                    Err(e) => Err(e),
                },
                Err(e) => Err(e),
            },
            Expr::UnExpr(op, inner) => match inner.resolve_data(ctx, fuel - 1) {
                Ok(d) => match apply_un(*op, d) {
                    Ok(d2) => Ok(ResolveTarget::Data(d2)),
                    Err(e) => Err(e),
                },
                Err(e) => Err(e),
            },
            Expr::VarExpr(name) => {
                match ctx.locals {
                    Some(loc) => match data_get(loc, name) {
                        Some(d) => {
                            return Ok(ResolveTarget::Data(d.clone()));
                        },
                        None => {},
                    },
                    None => {},
                }
                match data_get(ctx.data, name) {
                    Some(d) => Ok(ResolveTarget::Data(d.clone())),
                    None => Err(ResolveError::MissingVar(name.clone())),
                }
            },
            Expr::IdentExpr(name) => match env_get(ctx.env, name) {
                Some(e) => Ok(ResolveTarget::Entry(e.clone())),
                None => Err(ResolveError::MissingIdent(name.clone())),
            },
            Expr::CondExpr(c, t, alt) => match c.resolve_data(ctx, fuel - 1) {
                Ok(Data::Bool(b)) => if b {
                    t.resolve(ctx, fuel - 1)
                } else {
                    alt.resolve(ctx, fuel - 1)
                },
                Ok(_) => Err(ResolveError::WrongType),
                Err(e) => Err(e),
            },
            Expr::CallExpr(callee, args) => match &**callee {
                Expr::IdentExpr(name) => {
                    proof {
                        assert(expr_model(**callee) == SpecExpr::Ident(name@));
                    }
                    match env_get(ctx.env, name) {
                    Some(entry) => match entry {
                        Entry::Macro(_n, params, body) => {
                            proof {
                                lemma_exprs_model_index(params@);
                                lemma_exprs_model_index(args@);
                            }
                            if args.len() == params.len() {
                                let ghost cm = ctx_model(*ctx);
                                let ghost f1 = (fuel - 1) as nat;
                                let ghost psm = exprs_model(params@);
                                let ghost asm0 = exprs_model(args@);
                                let mut locals_vec: Vec<(String, Data)> = Vec::new();
                                let n = args.len();
                                proof {
                                    assert(psm.skip(0) =~= psm);
                                    assert(asm0.skip(0) =~= asm0);
                                    assert(bind_pairs(locals_vec@) =~= Seq::<(Seq<char>, SpecData)>::empty());
                                    let b0 = sp_bind(psm, asm0, cm, f1);
                                    if b0 is Ok {
                                        assert(bind_pairs(locals_vec@) + b0->Ok_0 =~= b0->Ok_0);
                                    }
                                }
                                for i in 0..n
                                    invariant
                                        n == args@.len(),
                                        n == params@.len(),
                                        psm == exprs_model(params@),
                                        asm0 == exprs_model(args@),
                                        cm == ctx_model(*ctx),
                                        f1 == (fuel - 1) as nat,
                                        fuel >= 1,
                                        psm.len() == n,
                                        asm0.len() == n,
                                        forall|j: int| 0 <= j < n ==> psm[j] == expr_model(
                                            params@[j],
                                        ),
                                        forall|j: int| 0 <= j < n ==> asm0[j] == expr_model(
                                            args@[j],
                                        ),
                                        sp_bind(psm, asm0, cm, f1) == (match sp_bind(
                                            psm.skip(i as int),
                                            asm0.skip(i as int),
                                            cm,
                                            f1,
                                        ) {
                                            Ok(rest) => Ok::<
                                                Seq<(Seq<char>, SpecData)>,
                                                SpecErr,
                                            >(bind_pairs(locals_vec@) + rest),
                                            Err(e) => Err(e),
                                        }),
                                    decreases n - i,
                                {
                                    proof {
                                        assert(psm.skip(i as int)[0] == psm[i as int]);
                                        assert(asm0.skip(i as int)[0] == asm0[i as int]);
                                        assert(psm.skip(i as int).drop_first() =~= psm.skip(i + 1));
                                        assert(asm0.skip(i as int).drop_first() =~= asm0.skip(
                                            i + 1,
                                        ));
                                    }
                                    match &params[i] {
                                        Expr::VarExpr(pname) => {
                                            match (&args[i]).resolve_data(ctx, fuel - 1) {
                                                Ok(d) => {
                                                    let ghost lv0 = locals_vec@;
                                                    locals_vec.push((pname.clone(), d));
                                                    proof {
                                                        assert(bind_pairs(locals_vec@) =~= bind_pairs(
                                                        lv0).push((pname@, data_model(d)))) by {
                                                            assert(locals_vec@.drop_last() =~= lv0);
                                                        }
                                                        let brest = sp_bind(
                                                            psm.skip(i + 1),
                                                            asm0.skip(i + 1),
                                                            cm,
                                                            f1,
                                                        );
                                                        if brest is Ok {
                                                            assert(bind_pairs(lv0) + (seq![
                                                                (pname@, data_model(d)),
                                                            ] + brest->Ok_0) =~= bind_pairs(
                                                            locals_vec@) + brest->Ok_0);
                                                        }
                                                    }
                                                },
                                                Err(e) => {
                                                    return Err(e);
                                                },
                                            }
                                        },
                                        _ => {
                                            return Err(ResolveError::WrongType);
                                        },
                                    }
                                }
                                proof {
                                    assert(psm.skip(n as int).len() == 0);
                                    assert(bind_pairs(locals_vec@) + Seq::<
                                        (Seq<char>, SpecData),
                                    >::empty() =~= bind_pairs(locals_vec@));
                                    lemma_bind_pairs_fold(locals_vec@);
                                }
                                let locals = Data::Dict(locals_vec);
                                let ctx2 = ctx.with_locals(&locals);
                                body.resolve(&ctx2, fuel - 1)
                            } else {
                                Err(ResolveError::WrongNumberOfArgs)
                            }
                        },
                        _ => Err(ResolveError::WrongType),
                    },
                        None => Err(ResolveError::MissingIdent(name.clone())),
                    }
                },
                _ => {
                    proof {
                        assert(!(expr_model(**callee) is Ident));
                    }
                    Err(ResolveError::WrongType)
                },
            },
            Expr::PropExpr(parent, keyx, access) => match access_key(keyx, *access, ctx, fuel - 1) {
                Ok(k) => match parent.resolve(ctx, fuel - 1) {
                    Ok(ResolveTarget::Data(Data::Dict(mv))) => match dict_get(&mv, &k) {
                        Some(d) => Ok(ResolveTarget::Data(d.clone())),
                        None => Err(ResolveError::MissingIndex),
                    },
                    Ok(ResolveTarget::Data(_)) => Err(ResolveError::WrongType),
                    Ok(ResolveTarget::Entry(e)) => match e.resolve(ctx, fuel - 1) {
                        Ok(ResolveTarget::Value(v)) => {
                            let ctx2 = ctx.with_index(Some(k));
                            v.resolve(&ctx2, fuel - 1)
                        },
                        Ok(_) => Err(ResolveError::WrongType),
                        Err(err) => Err(err),
                    },
                    Ok(ResolveTarget::Value(v)) => {
                        let ctx2 = ctx.with_index(Some(k));
                        v.resolve(&ctx2, fuel - 1)
                    },
                    Err(e) => Err(e),
                },
                Err(e) => Err(e),
            },
            Expr::AttrExpr(parent, keyx, access) => match access_key(keyx, *access, ctx, fuel - 1) {
                Ok(k) => match parent.resolve(ctx, fuel - 1) {
                    Ok(ResolveTarget::Entry(Entry::Entity(_n, _v, _idx, attrs))) => {
                        let ghost am = attrs_model(attrs@);
                        proof {
                            lemma_attrs_model_index(attrs@);
                            assert(am.skip(0) =~= am);
                        }
                        let n = attrs.len();
                        for i in 0..n
                            invariant
                                n == attrs@.len(),
                                am == attrs_model(attrs@),
                                am.len() == n,
                                forall|j: int| 0 <= j < n ==> am[j] == attr_model(attrs@[j]),
                                sp_attr_find(am, k@) == sp_attr_find(am.skip(i as int), k@),
                                fuel >= 1,
                            decreases n - i,
                        {
                            proof {
                                assert(am.skip(i as int)[0] == am[i as int]);
                                assert(am.skip(i as int).drop_first() =~= am.skip(i + 1));
                            }
                            if attrs[i].0 == k {
                                return (&attrs[i].1).resolve(ctx, fuel - 1);
                            }
                        }
                        proof {
                            assert(am.skip(n as int).len() == 0);
                        }
                        Err(ResolveError::MissingAttr)
                    },
                    Ok(_) => Err(ResolveError::WrongType),
                    Err(e) => Err(e),
                },
                Err(e) => Err(e),
            },
        }
    }

    /// Keeps resolving until a runtime value is returned.
    pub fn resolve_data(&self, ctx: &ResolveContext, fuel: u64) -> (r: Result<Data, ResolveError>)
        ensures
            data_res_model(r) == sp_eval_expr(expr_model(*self), ctx_model(*ctx), fuel as nat),
        decreases fuel, 0nat,
    {
        if fuel == 0 {
            return Err(ResolveError::TooDeep);
        }
        match self.resolve(ctx, fuel - 1) {
            Ok(ResolveTarget::Data(d)) => Ok(d),
            Ok(other) => other.resolve_data(ctx, fuel - 1),
            Err(e) => Err(e),
        }
    }
}

} // verus!
