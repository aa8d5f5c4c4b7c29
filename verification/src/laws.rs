//! Laws of the resolver, proved once and for all inputs.

use vstd::prelude::*;

use crate::model::{SpecData, SpecEntry, SpecExpr, SpecValue};
use crate::resolver::{
    sp_eval, sp_eval_expr, sp_hash_select, sp_step_expr, SpecCtx, SpecErr, SpecTarget,
};

verus! {

/// Hash selection is deterministic and order-independent.  The explicit
/// selector key of the context wins; otherwise the literal default key;
/// otherwise the resolved default-selector expression; and the selection
/// depends only on which branch keys exist, never on the branch values: two
/// hashes with the same key set, default key and default selector select the
/// same key under every context.
pub proof fn lemma_hash_selection(
    m1: Map<Seq<char>, SpecValue>,
    m2: Map<Seq<char>, SpecValue>,
    dk: Option<Seq<char>>,
    di: Option<Box<SpecExpr>>,
    ctx: SpecCtx,
    fuel: nat,
)
    requires
        m1.dom() == m2.dom(),
    ensures
        sp_hash_select(m1, dk, di, ctx, fuel) == sp_hash_select(m2, dk, di, ctx, fuel),
        ctx.index is Some && m1.contains_key(ctx.index->0) ==> sp_hash_select(
            m1,
            dk,
            di,
            ctx,
            fuel,
        ) == Ok::<Option<Seq<char>>, SpecErr>(Some(ctx.index->0)),
        !(ctx.index is Some && m1.contains_key(ctx.index->0)) && dk is Some && m1.contains_key(
            dk->0,
        ) ==> sp_hash_select(m1, dk, di, ctx, fuel) == Ok::<Option<Seq<char>>, SpecErr>(
            Some(dk->0),
        ),
{
    assert(forall|k: Seq<char>| m1.contains_key(k) == m2.contains_key(k));
}

/// Resolving an already-fully-resolved runtime value is idempotent: the
/// trampoline returns it unchanged, whatever the context, as long as two
/// steps of budget remain.
pub proof fn lemma_resolve_data_idempotent(d: SpecData, ctx: SpecCtx, fuel: nat)
    requires
        fuel >= 2,
    ensures
        sp_eval(SpecTarget::Data(d), ctx, fuel) == Ok::<SpecData, SpecErr>(d),
{
    assert(crate::resolver::sp_step_target(SpecTarget::Data(d), ctx, (fuel - 1) as nat) == Ok::<
        SpecTarget,
        SpecErr,
    >(SpecTarget::Data(d)));
}

/// A macro call with a mismatched argument count always fails with the
/// wrong-argument-count error, whatever the argument values: the arguments
/// are never resolved.
pub proof fn lemma_call_arity(
    name: Seq<char>,
    args: Seq<SpecExpr>,
    ctx: SpecCtx,
    fuel: nat,
)
    requires
        fuel >= 1,
        ctx.env.contains_key(name),
        ctx.env[name] is Macro,
        args.len() != (match ctx.env[name] {
            SpecEntry::Macro(_n, params, _body) => params.len(),
            _ => 0,
        }),
    ensures
        sp_step_expr(
            SpecExpr::Call(Box::new(SpecExpr::Ident(name)), args),
            ctx,
            fuel,
        ) == Err::<SpecTarget, SpecErr>(SpecErr::WrongNumberOfArgs),
        sp_eval_expr(
            SpecExpr::Call(Box::new(SpecExpr::Ident(name)), args),
            ctx,
            fuel + 1,
        ) == Err::<SpecData, SpecErr>(SpecErr::WrongNumberOfArgs),
{
}

} // verus!
