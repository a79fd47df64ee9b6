//! The library's cross-cutting guarantees, each stated over the same spec
//! functions that the executable functions' contracts use.
use vstd::prelude::*;

use crate::codec::{encode_config, lemma_encode_config_env_reorder, lemma_encode_config_injective};
use crate::config::ConfigView;
use crate::lockfile::{LockfileView, lookup_lock, spec_changed, spec_config_hash};
use crate::planner::{BuildPlan, spec_plan, upsert_lock};
use crate::lockfile::ContainerLockView;

verus! {

/// Identity hashing is deterministic: the digest input is a function of the
/// definition's contents alone, so repeated hashing of equal definitions —
/// in one process or across processes — always agrees.
pub proof fn lemma_hash_deterministic(c1: ConfigView, c2: ConfigView)
    requires
        c1 == c2,
    ensures
        spec_config_hash(c1) == spec_config_hash(c2),
{
}

/// Sensitivity: definitions that disagree on any field — with environments
/// compared as unordered collections — have distinct canonical encodings.
/// Their digests then differ exactly when SHA-256 does not collide on the two
/// encodings, which a collision-resistant digest makes overwhelmingly likely.
pub proof fn lemma_hash_input_sensitive(c1: ConfigView, c2: ConfigView)
    requires
        c1.name != c2.name || c1.base_image != c2.base_image || c1.command != c2.command
            || c1.volumes != c2.volumes || c1.tmpfs != c2.tmpfs || c1.dependencies
            != c2.dependencies || c1.gpu != c2.gpu || c1.interactive != c2.interactive || c1.tty
            != c2.tty || c1.remove != c2.remove || c1.build_context != c2.build_context || (match (
            c1.environment,
            c2.environment,
        ) {
            (Some(e1), Some(e2)) => e1.to_multiset() != e2.to_multiset(),
            (None, None) => false,
            _ => true,
        }),
    ensures
        encode_config(c1) != encode_config(c2),
{
    if encode_config(c1) == encode_config(c2) {
        lemma_encode_config_injective(c1, c2);
        assert(false);
    }
}

/// Insensitivity to irrelevant reordering: permuting the insertion order of
/// the environment bindings changes neither the canonical encoding nor the
/// hash.
pub proof fn lemma_hash_env_reorder(c1: ConfigView, c2: ConfigView)
    requires
        c1.name == c2.name,
        c1.base_image == c2.base_image,
        c1.command == c2.command,
        c1.volumes == c2.volumes,
        c1.tmpfs == c2.tmpfs,
        c1.dependencies == c2.dependencies,
        c1.gpu == c2.gpu,
        c1.interactive == c2.interactive,
        c1.tty == c2.tty,
        c1.remove == c2.remove,
        c1.build_context == c2.build_context,
        match (c1.environment, c2.environment) {
            (Some(e1), Some(e2)) => e1.to_multiset() == e2.to_multiset(),
            (None, None) => true,
            _ => false,
        },
    ensures
        spec_config_hash(c1) == spec_config_hash(c2),
{
    lemma_encode_config_env_reorder(c1, c2);
}

/// Rebuild necessity: a store with no record for the name always reports
/// drift, and otherwise reports it exactly on a hash mismatch.
pub proof fn lemma_rebuild_necessity(lf: LockfileView, name: Seq<char>, h: Seq<char>)
    ensures
        lookup_lock(lf.containers, name) is None ==> spec_changed(lf, name, h),
        spec_changed(lf, name, h) <==> (match lookup_lock(lf.containers, name) {
            None => true,
            Some(l) => l.config_hash != h,
        }),
{
}

/// Rebuild suppression: without the force flag, with the image present and
/// with no drift against the store, the plan is to skip the build.
pub proof fn lemma_rebuild_suppression(lf: LockfileView, name: Seq<char>, h: Seq<char>)
    requires
        !spec_changed(lf, name, h),
    ensures
        spec_plan(false, true, spec_changed(lf, name, h)) is Skip,
{
}

/// A stored hash that no longer matches the definition's current hash forces
/// a build even when the image is present locally and no force flag is set.
/// When the drift comes from an edited definition, the mismatch of the two
/// digests follows from the differing canonical encodings up to digest
/// collisions, so it stands here as the premise.
pub proof fn lemma_drift_forces_build(lf: LockfileView, name: Seq<char>, current_hash: Seq<char>)
    requires
        match lookup_lock(lf.containers, name) {
            None => true,
            Some(l) => l.config_hash != current_hash,
        },
    ensures
        spec_plan(false, true, spec_changed(lf, name, current_hash)) is Build,
{
}

/// Overwriting one name's record leaves every other name's answer unchanged:
/// records are replaced whole, never merged, and never disturb their
/// neighbours.
pub proof fn lemma_upsert_preserves_others(
    s: Seq<(Seq<char>, ContainerLockView)>,
    name: Seq<char>,
    rec: ContainerLockView,
    other: Seq<char>,
)
    requires
        other != name,
    ensures
        lookup_lock(upsert_lock(s, name, rec), other) == lookup_lock(s, other),
    decreases s.len(),
{
    let u = upsert_lock(s, name, rec);
    if s.len() == 0 {
        assert(u[0] == (name, rec));
        assert(u.drop_first() =~= Seq::<(Seq<char>, ContainerLockView)>::empty());
        assert(lookup_lock(Seq::<(Seq<char>, ContainerLockView)>::empty(), other) is None);
        assert(lookup_lock(u, other) is None);
        assert(lookup_lock(s, other) is None);
    } else if s[0].0 == name {
        assert(u[0] == (name, rec));
        assert(u.drop_first() =~= s.drop_first());
    } else {
        lemma_upsert_preserves_others(s.drop_first(), name, rec, other);
        assert(u[0] == s[0]);
        assert(u.drop_first() =~= upsert_lock(s.drop_first(), name, rec));
    }
}

} // verus!
