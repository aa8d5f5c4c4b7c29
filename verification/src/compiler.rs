//! Compiling parsed entries into an identifier environment.
//!
//! Comments are dropped; macros are kept as they are; entities receive a
//! post-parse fixup that propagates their selector-index chain into nested
//! hash values as default selectors.  An entity's attributes receive the same
//! fixup, each with its own chain.

use vstd::prelude::*;

use crate::ast::{clone_exprs, Attr, Entry, Expr, Value};
use crate::model::{
    attr_model_p, attrs_model, attrs_model_p, entries_model_p, entry_model, entry_model_p,
    expr_model, exprs_model, hash_pairs_model, hash_pairs_model_p, lemma_exprs_model_index,
    lemma_vp_to_value, value_model, value_model_p, vp_to_value, SpecAttr, SpecAttrP, SpecEntry,
    SpecEntryP, SpecExpr, SpecValue, SpecValueP,
};
use crate::parse::{parse, sp_parse, ParseError};

verus! {

/// A compiled environment: identifier/entry pairs in which a later pair with
/// the same identifier shadows an earlier one.
pub type Env = Vec<(String, Entry)>;

/// The environment as a sequence of identifier/entry models, in insertion
/// order.
pub open spec fn env_seq_model(s: Seq<(String, Entry)>) -> Seq<(Seq<char>, SpecEntry)> {
    s.map(|i: int, p: (String, Entry)| (p.0@, entry_model(p.1)))
}

/// The model of a value after default-selector propagation: starting at
/// position `at` of the selector-index chain, a hash takes the chain's next
/// expression as its default selector and hands the rest of the chain to
/// every branch; a hash beyond the chain's end, and any other value, is left
/// unchanged.
pub open spec fn fixed_value_model(v: Value, idx: Seq<Expr>, at: int) -> SpecValue
    decreases v,
{
    match v {
        Value::Hash(m, dk, di) => if at < idx.len() {
            SpecValue::Hash(
                fixed_hash_pairs_model(m@, idx, at + 1),
                match dk {
                    Some(k) => Some(k@),
                    None => None,
                },
                Some(Box::new(expr_model(idx[at]))),
            )
        } else {
            value_model(v)
        },
        _ => value_model(v),
    }
}

/// Default-selector propagation over a hash's branch vector.
pub open spec fn fixed_hash_pairs_model(s: Seq<(String, Value)>, idx: Seq<Expr>, at: int) -> Map<
    Seq<char>,
    SpecValue,
>
    decreases s,
{
    if s.len() == 0 {
        Map::empty()
    } else {
        fixed_hash_pairs_model(s.drop_last(), idx, at).insert(
            s.last().0@,
            fixed_value_model(s.last().1, idx, at),
        )
    }
}

/// The model of an attribute after the fixup, using its own chain.
pub open spec fn fixed_attr_model(a: Attr) -> SpecAttr {
    SpecAttr { name: a.0@, value: fixed_value_model(a.1, a.2@, 0), indices: exprs_model(a.2@) }
}

/// The model of an attribute vector after the fixup.
pub open spec fn fixed_attrs_model(s: Seq<Attr>) -> Seq<SpecAttr>
    decreases s,
{
    if s.len() == 0 {
        Seq::empty()
    } else {
        fixed_attrs_model(s.drop_last()).push(fixed_attr_model(s.last()))
    }
}

/// The model of an entry after compilation: an entity's value and attributes
/// receive the fixup; a macro is kept as it is.
pub open spec fn fixed_entry_model(e: Entry) -> SpecEntry {
    match e {
        Entry::Entity(n, v, idx, attrs) => SpecEntry::Entity(
            n@,
            fixed_value_model(v, idx@, 0),
            exprs_model(idx@),
            fixed_attrs_model(attrs@),
        ),
        _ => entry_model(e),
    }
}

/// The environment built from a sequence of parsed entries: comments are
/// dropped, macros kept, entities fixed up; order is kept.
pub open spec fn sp_compile(es: Seq<Entry>) -> Seq<(Seq<char>, SpecEntry)>
    decreases es.len(),
{
    if es.len() == 0 {
        Seq::empty()
    } else {
        let rest = sp_compile(es.drop_last());
        match es.last() {
            Entry::Comment(_c) => rest,
            Entry::Macro(n, _ps, _b) => rest.push((n@, entry_model(es.last()))),
            Entry::Entity(n, _v, _idx, _attrs) => rest.push((n@, fixed_entry_model(es.last()))),
        }
    }
}

/// Default-selector propagation over an as-parsed branch sequence, folding
/// it into the branch map.
pub open spec fn sp_fix_pairs(
    s: Seq<(Seq<char>, SpecValueP)>,
    idx: Seq<SpecExpr>,
    at: int,
) -> Map<Seq<char>, SpecValue>
    decreases s,
{
    if s.len() == 0 {
        Map::empty()
    } else {
        sp_fix_pairs(s.drop_last(), idx, at).insert(
            s.last().0,
            sp_fix_value(s.last().1, idx, at),
        )
    }
}

/// Default-selector propagation over an as-parsed value: see
/// [`fixed_value_model`].
pub open spec fn sp_fix_value(p: SpecValueP, idx: Seq<SpecExpr>, at: int) -> SpecValue
    decreases p,
{
    match p {
        SpecValueP::Hash(pairs, dk, di) => if at < idx.len() {
            SpecValue::Hash(sp_fix_pairs(pairs, idx, at + 1), dk, Some(Box::new(idx[at])))
        } else {
            vp_to_value(p)
        },
        _ => vp_to_value(p),
    }
}

/// The fixup applied to one as-parsed attribute, with its own chain.
pub open spec fn sp_fix_attr(a: SpecAttrP) -> SpecAttr {
    SpecAttr { name: a.name, value: sp_fix_value(a.value, a.indices, 0), indices: a.indices }
}

/// The fixup applied to an as-parsed attribute sequence.
pub open spec fn sp_fix_attrs(s: Seq<SpecAttrP>) -> Seq<SpecAttr>
    decreases s.len(),
{
    if s.len() == 0 {
        Seq::empty()
    } else {
        sp_fix_attrs(s.drop_last()).push(sp_fix_attr(s.last()))
    }
}

/// The environment built from as-parsed entries: comments are dropped,
/// macros kept, entities fixed up; order is kept.  This is what
/// [`compile`] produces from what [`crate::parse::sp_parse`] says of the
/// text.
pub open spec fn sp_compile_parsed(es: Seq<SpecEntryP>) -> Seq<(Seq<char>, SpecEntry)>
    decreases es.len(),
{
    if es.len() == 0 {
        Seq::empty()
    } else {
        let rest = sp_compile_parsed(es.drop_last());
        match es.last() {
            SpecEntryP::Comment(_c) => rest,
            SpecEntryP::Macro(n, ps, b) => rest.push((n, SpecEntry::Macro(n, ps, b))),
            SpecEntryP::Entity(n, v, idx, attrs) => rest.push(
                (n, SpecEntry::Entity(n, sp_fix_value(v, idx, 0), idx, sp_fix_attrs(attrs))),
            ),
        }
    }
}

/// The fixup of an entry's as-parsed model is the model of its fixup.
proof fn lemma_fix_value_p(v: Value, idx: Seq<Expr>, at: int)
    requires
        0 <= at,
    ensures
        sp_fix_value(value_model_p(v), exprs_model(idx), at) == fixed_value_model(v, idx, at),
    decreases v,
{
    lemma_exprs_model_index(idx);
    match v {
        Value::Hash(m, dk, di) => {
            if at < idx.len() {
                lemma_fix_pairs_p(m@, idx, at + 1);
                assert(value_model_p(v) == SpecValueP::Hash(
                    hash_pairs_model_p(m@),
                    match dk {
                        Some(k) => Some(k@),
                        None => None,
                    },
                    match di {
                        Some(e) => Some(Box::new(expr_model(*e))),
                        None => None,
                    },
                ));
                assert(exprs_model(idx)[at] == expr_model(idx[at]));
                assert(sp_fix_value(value_model_p(v), exprs_model(idx), at) == SpecValue::Hash(
                    sp_fix_pairs(hash_pairs_model_p(m@), exprs_model(idx), at + 1),
                    match dk {
                        Some(k) => Some(k@),
                        None => None,
                    },
                    Some(Box::new(expr_model(idx[at]))),
                ));
            } else {
                lemma_vp_to_value(v);
                assert(value_model_p(v) is Hash);
            }
        },
        _ => {
            lemma_vp_to_value(v);
            assert(!(value_model_p(v) is Hash));
        },
    }
}

/// The fixup of a branch vector's as-parsed model is the model of its fixup.
proof fn lemma_fix_pairs_p(s: Seq<(String, Value)>, idx: Seq<Expr>, at: int)
    requires
        0 <= at,
    ensures
        sp_fix_pairs(hash_pairs_model_p(s), exprs_model(idx), at) == fixed_hash_pairs_model(
            s,
            idx,
            at,
        ),
    decreases s,
{
    if s.len() == 0 {
        assert(hash_pairs_model_p(s) =~= Seq::<(Seq<char>, SpecValueP)>::empty());
    } else {
        lemma_fix_pairs_p(s.drop_last(), idx, at);
        lemma_fix_value_p(s.last().1, idx, at);
        assert(hash_pairs_model_p(s).drop_last() =~= hash_pairs_model_p(s.drop_last()));
        assert(hash_pairs_model_p(s).last() == (s.last().0@, value_model_p(s.last().1)));
    }
}

/// The fixup of an attribute vector's as-parsed model is the model of its
/// fixup.
proof fn lemma_fix_attrs_p(s: Seq<Attr>)
    ensures
        sp_fix_attrs(attrs_model_p(s)) == fixed_attrs_model(s),
    decreases s.len(),
{
    if s.len() == 0 {
        assert(attrs_model_p(s) =~= Seq::<SpecAttrP>::empty());
    } else {
        lemma_fix_attrs_p(s.drop_last());
        lemma_fix_value_p(s.last().1, s.last().2@, 0);
        assert(attrs_model_p(s).drop_last() =~= attrs_model_p(s.drop_last()));
        assert(attrs_model_p(s).last() == attr_model_p(s.last()));
        assert(sp_fix_attrs(attrs_model_p(s)) =~= fixed_attrs_model(s));
    }
}

/// Compiling the as-parsed models of entries gives the model of compiling
/// the entries.
proof fn lemma_compile_parsed(es: Seq<Entry>)
    ensures
        sp_compile_parsed(entries_model_p(es)) == sp_compile(es),
    decreases es.len(),
{
    if es.len() == 0 {
        assert(entries_model_p(es) =~= Seq::<SpecEntryP>::empty());
    } else {
        lemma_compile_parsed(es.drop_last());
        assert(entries_model_p(es).drop_last() =~= entries_model_p(es.drop_last()));
        assert(entries_model_p(es).last() == entry_model_p(es.last()));
        match es.last() {
            Entry::Comment(_c) => {},
            Entry::Macro(_n, _ps, _b) => {},
            Entry::Entity(_n, v, idx, attrs) => {
                lemma_fix_value_p(v, idx@, 0);
                lemma_fix_attrs_p(attrs@);
            },
        }
    }
}

/// Propagates a selector-index chain into a value, starting at chain
/// position `at`: see [`fixed_value_model`].
#[verifier::loop_isolation(false)]
pub fn add_default_indices(v: &Value, indices: &Vec<Expr>, at: usize) -> (r: Value)
    ensures
        value_model(r) == fixed_value_model(*v, indices@, at as int),
    decreases *v,
{
    match v {
        Value::Hash(m, dk, di) => {
            if at < indices.len() {
                let mut m2: Vec<(String, Value)> = Vec::new();
                let n = m.len();
                for i in 0..n
                    invariant
                        n == m@.len(),
                        hash_pairs_model(m2@) == fixed_hash_pairs_model(
                            m@.take(i as int),
                            indices@,
                            at + 1,
                        ),
                    decreases n - i,
                {
                    proof {
                        assert(decreases_to!(*v => *m));
                        assert(decreases_to!(*m => m@));
                        assert(decreases_to!(m@ => m@[i as int]));
                    }
                    let ghost m20 = m2@;
                    let k = m[i].0.clone();
                    let fixed = add_default_indices(&m[i].1, indices, at + 1);
                    m2.push((k, fixed));
                    proof {
                        assert(m@.take(i + 1).drop_last() =~= m@.take(i as int));
                        assert(m@.take(i + 1).last() == m@[i as int]);
                        assert(m2@.drop_last() =~= m20);
                    }
                }
                proof {
                    assert(m@.take(n as int) =~= m@);
                }
                Value::Hash(
                    m2,
                    match dk {
                        Some(k) => Some(k.clone()),
                        None => None,
                    },
                    Some(Box::new((&indices[at]).clone())),
                )
            } else {
                v.clone()
            }
        },
        _ => v.clone(),
    }
}

/// The fixup applied to each attribute of an entity, with its own chain.
fn fix_attrs(attrs: &Vec<Attr>) -> (r: Vec<Attr>)
    ensures
        attrs_model(r@) == fixed_attrs_model(attrs@),
{
    let mut r: Vec<Attr> = Vec::new();
    let n = attrs.len();
    for i in 0..n
        invariant
            n == attrs@.len(),
            attrs_model(r@) == fixed_attrs_model(attrs@.take(i as int)),
        decreases n - i,
    {
        let ghost r0 = r@;
        let aname = attrs[i].0.clone();
        let avalue = add_default_indices(&attrs[i].1, &attrs[i].2, 0);
        let aindices = clone_exprs(&attrs[i].2);
        r.push(Attr(aname, avalue, aindices));
        proof {
            assert(attrs@.take(i + 1).drop_last() =~= attrs@.take(i as int));
            assert(attrs@.take(i + 1).last() == attrs@[i as int]);
            assert(r@.drop_last() =~= r0);
        }
    }
    proof {
        assert(attrs@.take(n as int) =~= attrs@);
    }
    r
}

/// Builds the environment from parsed entries: comments are dropped, macros
/// inserted as they are, entities inserted after the default-selector fixup.
pub fn compile_entries(entries: &Vec<Entry>) -> (env: Env)
    ensures
        env_seq_model(env@) == sp_compile(entries@),
{
    let mut env: Env = Vec::new();
    let n = entries.len();
    proof {
        assert(env_seq_model(env@) =~= sp_compile(entries@.take(0)));
    }
    for i in 0..n
        invariant
            n == entries@.len(),
            env_seq_model(env@) == sp_compile(entries@.take(i as int)),
        decreases n - i,
    {
        let ghost env0 = env@;
        match &entries[i] {
            Entry::Comment(_c) => {},
            Entry::Macro(name, _ps, _b) => {
                let cloned = (&entries[i]).clone();
                env.push((name.clone(), cloned));
                proof {
                    assert(env_seq_model(env@) =~= env_seq_model(env0).push(
                        (env@.last().0@, entry_model(env@.last().1)),
                    ));
                }
            },
            Entry::Entity(name, v, idx, attrs) => {
                let fixed_v = add_default_indices(v, idx, 0);
                let fixed_attrs = fix_attrs(attrs);
                let entry = Entry::Entity(name.clone(), fixed_v, clone_exprs(idx), fixed_attrs);
                env.push((name.clone(), entry));
                proof {
                    assert(env_seq_model(env@) =~= env_seq_model(env0).push(
                        (env@.last().0@, entry_model(env@.last().1)),
                    ));
                }
            },
        }
        proof {
            assert(entries@.take(i + 1).drop_last() =~= entries@.take(i as int));
            assert(entries@.take(i + 1).last() == entries@[i as int]);
        }
    }
    proof {
        assert(entries@.take(n as int) =~= entries@);
    }
    env
}

/// Parses resource text and compiles the entries into an environment: the
/// result is exactly the compilation of what [`sp_parse`] says the text
/// holds, and the call fails exactly when parsing fails, with the parser's
/// error handed back unchanged.
pub fn compile(source: &str) -> (r: Result<Env, ParseError>)
    ensures
        match r {
            Ok(env) => sp_parse(source@) is Ok && env_seq_model(env@) == sp_compile_parsed(
                sp_parse(source@)->Ok_0,
            ),
            Err(e) => sp_parse(source@) == Err::<Seq<SpecEntryP>, int>(e.pos as int),
        },
{
    match parse(source) {
        Ok(entries) => {
            let env = compile_entries(&entries);
            proof {
                lemma_compile_parsed(entries@);
            }
            Ok(env)
        },
        Err(e) => Err(e),
    }
}

} // verus!
