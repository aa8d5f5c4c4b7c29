//! The locale orchestrator: holds one environment, adds resources to it, and
//! localizes every public entity into a runtime-value mapping.

use vstd::prelude::*;

use crate::ast::{Data, Entry};
use crate::compiler::{compile, env_seq_model, sp_compile_parsed, Env};
use crate::model::{
    data_model, data_pairs_model, entry_model, env_pairs_model, SpecData, SpecEntry, SpecEntryP,
};
use crate::parse::{sp_parse, ParseError};
use crate::resolver::{
    ctx_model, err_model, ResolveContext, ResolveError, SpecCtx, SpecErr,
};

verus! {

/// The step budget handed to each entity resolution: entities that reference
/// themselves, directly or transitively, fail with a too-deep error instead
/// of recursing without bound.
pub const MAX_RESOLVE_DEPTH: u64 = 500;

/// An error of a whole localization call.
#[derive(Debug)]
pub enum LocalizeError {
    /// The external decoding of the resolved mapping failed.
    DecodeError(String),
    /// The external encoding of the caller's data failed.
    EncodeError(String),
    /// A resolution failed; the whole call is aborted.
    ResolveError(ResolveError),
}

/// The environment map folded from its sequence model: a later pair with the
/// same identifier shadows an earlier one.
pub open spec fn sp_env_map(s: Seq<(Seq<char>, SpecEntry)>) -> Map<Seq<char>, SpecEntry>
    decreases s.len(),
{
    if s.len() == 0 {
        Map::empty()
    } else {
        sp_env_map(s.drop_last()).insert(s.last().0, s.last().1)
    }
}

proof fn lemma_env_fold(s: Seq<(String, Entry)>)
    ensures
        sp_env_map(env_seq_model(s)) == env_pairs_model(s),
    decreases s.len(),
{
    if s.len() == 0 {
        assert(env_seq_model(s) =~= Seq::<(Seq<char>, SpecEntry)>::empty());
    } else {
        lemma_env_fold(s.drop_last());
        assert(env_seq_model(s).drop_last() =~= env_seq_model(s.drop_last()));
        assert(env_seq_model(s).last() == (s.last().0@, entry_model(s.last().1)));
    }
}

/// A private identifier: one that starts with the reserved underscore
/// prefix.  Private entries are resolvable internally but excluded from the
/// output.
pub open spec fn sp_private(id: Seq<char>) -> bool {
    id.len() > 0 && id[0] == '_'
}

/// Whether a later pair of the environment carries the same identifier, so
/// that this one is never seen by a lookup.
pub open spec fn sp_shadowed(es: Seq<(Seq<char>, SpecEntry)>, i: int) -> bool {
    exists|j: int| i < j < es.len() && es[j].0 == es[i].0
}

/// The context of one localization call.
pub open spec fn sp_localize_ctx(es: Seq<(Seq<char>, SpecEntry)>, data: SpecData) -> SpecCtx {
    SpecCtx { env: sp_env_map(es), data, locals: None, index: None }
}

/// Localization from position `i` on: shadowed pairs, private identifiers
/// and non-entities are skipped; every other entity is fully resolved and
/// keyed by identifier; the first resolution error aborts the whole call.
pub open spec fn sp_localize_from(
    es: Seq<(Seq<char>, SpecEntry)>,
    i: int,
    ctx: SpecCtx,
    fuel: nat,
) -> Result<Map<Seq<char>, SpecData>, SpecErr>
    decreases es.len() - i,
{
    if i < 0 || i >= es.len() {
        Ok(Map::empty())
    } else if sp_shadowed(es, i) || sp_private(es[i].0) || !(es[i].1 is Entity) {
        sp_localize_from(es, i + 1, ctx, fuel)
    } else {
        match crate::resolver::sp_eval_entry(es[i].1, ctx, fuel) {
            Err(e) => Err(e),
            Ok(d) => match sp_localize_from(es, i + 1, ctx, fuel) {
                Err(e) => Err(e),
                Ok(m) => Ok(m.insert(es[i].0, d)),
            },
        }
    }
}

/// What a localization call returns: the mapping from every public entity's
/// identifier to its fully resolved value, or the first resolution error.
pub open spec fn sp_localize(
    es: Seq<(Seq<char>, SpecEntry)>,
    data: SpecData,
    fuel: nat,
) -> Result<Map<Seq<char>, SpecData>, SpecErr> {
    sp_localize_from(es, 0, sp_localize_ctx(es, data), fuel)
}

/// Localization never yields a partial mapping: when it succeeds, the output
/// holds exactly one value for every identifier that names a public (not
/// underscore-prefixed), unshadowed entity of the environment, and nothing
/// else; on any failure there is no output at all.
pub proof fn lemma_localize_no_partial(
    es: Seq<(Seq<char>, SpecEntry)>,
    i: int,
    ctx: SpecCtx,
    fuel: nat,
)
    requires
        0 <= i <= es.len(),
    ensures
        match sp_localize_from(es, i, ctx, fuel) {
            Ok(m) => forall|id: Seq<char>|
                m.contains_key(id) <==> exists|j: int|
                    i <= j < es.len() && es[j].0 == id && !sp_shadowed(es, j) && !sp_private(id)
                        && es[j].1 is Entity,
            Err(_e) => true,
        },
    decreases es.len() - i,
{
    if i >= es.len() {
        assert(match sp_localize_from(es, i, ctx, fuel) {
            Ok(m) => forall|id: Seq<char>| !m.contains_key(id),
            Err(_e) => true,
        });
    } else {
        lemma_localize_no_partial(es, i + 1, ctx, fuel);
        if sp_shadowed(es, i) || sp_private(es[i].0) || !(es[i].1 is Entity) {
            match sp_localize_from(es, i, ctx, fuel) {
                Ok(m) => {
                    assert forall|id: Seq<char>|
                        m.contains_key(id) <==> exists|j: int|
                            i <= j < es.len() && es[j].0 == id && !sp_shadowed(es, j)
                                && !sp_private(id) && es[j].1 is Entity by {
                        if exists|j: int|
                            i <= j < es.len() && es[j].0 == id && !sp_shadowed(es, j)
                                && !sp_private(id) && es[j].1 is Entity {
                            let j = choose|j: int|
                                i <= j < es.len() && es[j].0 == id && !sp_shadowed(es, j)
                                    && !sp_private(id) && es[j].1 is Entity;
                            assert(j != i);
                            assert(i + 1 <= j < es.len() && es[j].0 == id && !sp_shadowed(es, j)
                                && !sp_private(id) && es[j].1 is Entity);
                        }
                    }
                },
                Err(_e) => {},
            }
        } else {
            match crate::resolver::sp_eval_entry(es[i].1, ctx, fuel) {
                Err(_e) => {},
                Ok(_d) => {
                    match sp_localize_from(es, i + 1, ctx, fuel) {
                        Err(_e) => {},
                        Ok(m_next) => {
                            let m = sp_localize_from(es, i, ctx, fuel)->Ok_0;
                            assert forall|id: Seq<char>|
                                m.contains_key(id) <==> exists|j: int|
                                    i <= j < es.len() && es[j].0 == id && !sp_shadowed(es, j)
                                        && !sp_private(id) && es[j].1 is Entity by {
                                if m.contains_key(id) {
                                    if id == es[i].0 {
                                        assert(i <= i < es.len() && es[i].0 == id
                                            && !sp_shadowed(es, i) && !sp_private(id) && es[i].1
                                            is Entity);
                                    } else {
                                        assert(m_next.contains_key(id));
                                    }
                                }
                                if exists|j: int|
                                    i <= j < es.len() && es[j].0 == id && !sp_shadowed(es, j)
                                        && !sp_private(id) && es[j].1 is Entity {
                                    let j = choose|j: int|
                                        i <= j < es.len() && es[j].0 == id && !sp_shadowed(es, j)
                                            && !sp_private(id) && es[j].1 is Entity;
                                    if j == i {
                                        assert(m.contains_key(id));
                                    } else {
                                        assert(i + 1 <= j);
                                        assert(m_next.contains_key(id));
                                    }
                                }
                            }
                        },
                    }
                },
            }
        }
    }
}

fn entry_is_entity(e: &Entry) -> (r: bool)
    ensures
        r == (entry_model(*e) is Entity),
{
    match e {
        Entry::Entity(_n, _v, _idx, _attrs) => true,
        _ => false,
    }
}

fn is_private(id: &String) -> (r: bool)
    ensures
        r == sp_private(id@),
{
    let s = id.as_str();
    if s.unicode_len() == 0 {
        false
    } else {
        s.get_char(0) == '_'
    }
}

#[verifier::loop_isolation(false)]
fn is_shadowed(env: &Env, i: usize) -> (r: bool)
    requires
        i < env@.len(),
    ensures
        r == sp_shadowed(env_seq_model(env@), i as int),
{
    let ghost es = env_seq_model(env@);
    let n = env.len();
    let mut j = i + 1;
    while j < n
        invariant
            i < j <= n,
            forall|k: int| i < k < j ==> es[k].0 != es[i as int].0,
        decreases n - j,
    {
        if env[j].0 == env[i].0 {
            proof {
                assert(es[j as int].0 == es[i as int].0);
            }
            return true;
        }
        j = j + 1;
    }
    false
}

/// A locale holds the compiled resources of one language.
pub struct Locale {
    /// The held environment; later resources shadow earlier ones.
    pub resources: Env,
}

impl Locale {
    /// Creates a new empty locale.
    pub fn new() -> (r: Locale)
        ensures
            r.resources@ == Seq::<(String, Entry)>::empty(),
    {
        Locale { resources: Vec::new() }
    }

    /// Parses and compiles a resource, and merges it into the held
    /// environment: the held entries are extended with exactly the
    /// compilation of what [`sp_parse`] says the text holds, so an
    /// identifier seen again shadows the earlier entry.  The call fails
    /// exactly when parsing fails, with the parser's error handed back
    /// unchanged and the locale left as it was.
    pub fn add_resource(&mut self, res: &str) -> (r: Result<(), ParseError>)
        ensures
            match r {
                Ok(()) => sp_parse(res@) is Ok && env_seq_model(final(self).resources@)
                    == env_seq_model(old(self).resources@) + sp_compile_parsed(
                    sp_parse(res@)->Ok_0,
                ),
                Err(e) => final(self).resources@ == old(self).resources@ && sp_parse(res@)
                    == Err::<Seq<SpecEntryP>, int>(e.pos as int),
            },
    {
        match compile(res) {
            Ok(mut env) => {
                let ghost envm = env@;
                self.resources.append(&mut env);
                proof {
                    assert(env_seq_model(self.resources@) =~= env_seq_model(old(self).resources@)
                        + env_seq_model(envm));
                }
                Ok(())
            },
            Err(e) => Err(e),
        }
    }

    /// Resolves every public entity with no runtime data: see
    /// [`Locale::localize_data`].
    pub fn localize(&self) -> (r: Result<Vec<(String, Data)>, LocalizeError>)
        ensures
            match r {
                Ok(out) => sp_localize(
                    env_seq_model(self.resources@),
                    SpecData::Null,
                    MAX_RESOLVE_DEPTH as nat,
                ) == Ok::<Map<Seq<char>, SpecData>, SpecErr>(data_pairs_model(out@)),
                Err(LocalizeError::ResolveError(e)) => sp_localize(
                    env_seq_model(self.resources@),
                    SpecData::Null,
                    MAX_RESOLVE_DEPTH as nat,
                ) == Err::<Map<Seq<char>, SpecData>, SpecErr>(err_model(e)),
                Err(_e) => false,
            },
    {
        self.localize_data(Data::Null)
    }

    /// Resolves every public (not underscore-prefixed) entity of the held
    /// environment under the given runtime data, into an identifier-keyed
    /// mapping with exactly one pair per public entity.  The first
    /// resolution error aborts the whole call: there is no partial output.
    #[verifier::loop_isolation(false)]
    pub fn localize_data(&self, data: Data) -> (r: Result<Vec<(String, Data)>, LocalizeError>)
        ensures
            match r {
                Ok(out) => sp_localize(
                    env_seq_model(self.resources@),
                    data_model(data),
                    MAX_RESOLVE_DEPTH as nat,
                ) == Ok::<Map<Seq<char>, SpecData>, SpecErr>(data_pairs_model(out@)),
                Err(LocalizeError::ResolveError(e)) => sp_localize(
                    env_seq_model(self.resources@),
                    data_model(data),
                    MAX_RESOLVE_DEPTH as nat,
                ) == Err::<Map<Seq<char>, SpecData>, SpecErr>(err_model(e)),
                Err(_e) => false,
            },
    {
        let ghost es = env_seq_model(self.resources@);
        let ghost f: nat = MAX_RESOLVE_DEPTH as nat;
        let ctx = ResolveContext::new(&self.resources, &data);
        proof {
            lemma_env_fold(self.resources@);
        }
        let ghost cm = sp_localize_ctx(es, data_model(data));
        proof {
            assert(ctx_model(ctx) == cm);
        }
        let ghost full = sp_localize_from(es, 0, cm, f);
        let mut out: Vec<(String, Data)> = Vec::new();
        let n = self.resources.len();
        proof {
            assert(data_pairs_model(out@) =~= Map::<Seq<char>, SpecData>::empty());
            if full is Ok {
                assert(data_pairs_model(out@).union_prefer_right(full->Ok_0) =~= full->Ok_0);
            }
        }
        for i in 0..n
            invariant
                match sp_localize_from(es, i as int, cm, f) {
                    Ok(m) => full == Ok::<Map<Seq<char>, SpecData>, SpecErr>(
                        data_pairs_model(out@).union_prefer_right(m),
                    ),
                    Err(e) => full == Err::<Map<Seq<char>, SpecData>, SpecErr>(e),
                },
            decreases n - i,
        {
            let shadowed = is_shadowed(&self.resources, i);
            let private = is_private(&self.resources[i].0);
            let is_ent = entry_is_entity(&self.resources[i].1);
            proof {
                assert(es[i as int] == (self.resources@[i as int].0@, entry_model(
                    self.resources@[i as int].1,
                )));
            }
            if !shadowed && !private && is_ent {
                match (&self.resources[i].1).resolve_data(&ctx, MAX_RESOLVE_DEPTH) {
                    Ok(d) => {
                        proof {
                            lemma_localize_no_partial(es, i + 1, cm, f);
                            let srest = sp_localize_from(es, i + 1, cm, f);
                            if srest is Ok {
                                let m_next = srest->Ok_0;
                                assert(!m_next.contains_key(es[i as int].0)) by {
                                    if m_next.contains_key(es[i as int].0) {
                                        let j = choose|j: int|
                                            i + 1 <= j < es.len() && es[j].0 == es[i as int].0 && !sp_shadowed(
                                                es,
                                                j,
                                            ) && !sp_private(es[i as int].0) && es[j].1 is Entity;
                                        assert(sp_shadowed(es, i as int));
                                    }
                                }
                                assert(data_pairs_model(out@).union_prefer_right(
                                    m_next.insert(es[i as int].0, data_model(d)),
                                ) =~= data_pairs_model(out@).insert(
                                    es[i as int].0,
                                    data_model(d),
                                ).union_prefer_right(m_next));
                            }
                        }
                        let ghost out0 = out@;
                        let id = self.resources[i].0.clone();
                        out.push((id, d));
                        proof {
                            assert(out@.drop_last() =~= out0);
                        }
                    },
                    Err(e) => {
                        return Err(LocalizeError::ResolveError(e));
                    },
                }
            }
        }
        proof {
            assert(sp_localize_from(es, n as int, cm, f) == Ok::<
                Map<Seq<char>, SpecData>,
                SpecErr,
            >(Map::empty()));
            assert(data_pairs_model(out@).union_prefer_right(Map::empty()) =~= data_pairs_model(
                out@,
            ));
        }
        Ok(out)
    }
}

} // verus!
