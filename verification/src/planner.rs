//! The build planner: decides whether an image must be (re)built, whether a
//! stale container must be removed first, and how the engine's build outcome
//! updates the lock store.
use vstd::prelude::*;

use crate::errors::ContainerError;
use crate::lockfile::{ContainerLock, ContainerLockView, Lockfile, lookup_lock, spec_changed};
use crate::strutil::str_eq;

verus! {

/// The planner's verdict for one container.
#[derive(Debug, Clone, Copy, PartialEq, Eq, Structural)]
pub enum BuildPlan {
    Skip,
    Build,
}

/// The decision rule, first true condition wins: an explicit force flag, a
/// locally missing image, then hash drift against the lock store.
pub open spec fn spec_plan(force: bool, image_present: bool, changed: bool) -> BuildPlan {
    if force {
        BuildPlan::Build
    } else if !image_present {
        BuildPlan::Build
    } else if changed {
        BuildPlan::Build
    } else {
        BuildPlan::Skip
    }
}

/// The store with the record for `name` overwritten, or appended when none
/// exists. Records are replaced whole, never merged.
pub open spec fn upsert_lock(
    s: Seq<(Seq<char>, ContainerLockView)>,
    name: Seq<char>,
    rec: ContainerLockView,
) -> Seq<(Seq<char>, ContainerLockView)>
    decreases s.len(),
{
    if s.len() == 0 {
        seq![(name, rec)]
    } else if s[0].0 == name {
        seq![(name, rec)] + s.drop_first()
    } else {
        seq![s[0]] + upsert_lock(s.drop_first(), name, rec)
    }
}

proof fn lemma_upsert_at(
    s: Seq<(Seq<char>, ContainerLockView)>,
    name: Seq<char>,
    rec: ContainerLockView,
    i: int,
)
    requires
        0 <= i < s.len(),
        s[i].0 == name,
        forall|k: int| 0 <= k < i ==> (#[trigger] s[k]).0 != name,
    ensures
        upsert_lock(s, name, rec) == s.update(i, (name, rec)),
    decreases i,
{
    if i == 0 {
        assert(upsert_lock(s, name, rec) =~= s.update(0, (name, rec)));
    } else {
        lemma_upsert_at(s.drop_first(), name, rec, i - 1);
        assert(s.update(i, (name, rec)).drop_first() =~= s.drop_first().update(
            i - 1,
            (name, rec),
        ));
        assert(upsert_lock(s, name, rec) =~= s.update(i, (name, rec)));
    }
}

proof fn lemma_upsert_absent(
    s: Seq<(Seq<char>, ContainerLockView)>,
    name: Seq<char>,
    rec: ContainerLockView,
)
    requires
        forall|k: int| 0 <= k < s.len() ==> (#[trigger] s[k]).0 != name,
    ensures
        upsert_lock(s, name, rec) == s.push((name, rec)),
    decreases s.len(),
{
    if s.len() == 0 {
        assert(upsert_lock(s, name, rec) =~= s.push((name, rec)));
    } else {
        lemma_upsert_absent(s.drop_first(), name, rec);
        assert(upsert_lock(s, name, rec) =~= s.push((name, rec)));
    }
}

/// After an upsert the store answers for `name` with the new record.
pub proof fn lemma_upsert_lookup(
    s: Seq<(Seq<char>, ContainerLockView)>,
    name: Seq<char>,
    rec: ContainerLockView,
)
    ensures
        lookup_lock(upsert_lock(s, name, rec), name) == Some(rec),
    decreases s.len(),
{
    let u = upsert_lock(s, name, rec);
    if s.len() == 0 {
        assert(u[0] == (name, rec));
    } else if s[0].0 == name {
        assert(u[0] == (name, rec));
    } else {
        lemma_upsert_lookup(s.drop_first(), name, rec);
        assert(u[0] == s[0]);
        assert(u.drop_first() =~= upsert_lock(s.drop_first(), name, rec));
    }
}

/// Decides build necessity and applies the outcome; pure decisions over the
/// engine's reported facts plus the lock store.
pub struct BuildPlanner;

impl BuildPlanner {
    /// Whether `name` must be rebuilt, in this order: the caller's force flag,
    /// the image missing locally, then the stored hash differing from
    /// `current_hash`. Returns `Skip` exactly when none of the three holds.
    pub fn plan(
        force: bool,
        image_present: bool,
        store: &Lockfile,
        name: &str,
        current_hash: &str,
    ) -> (r: BuildPlan)
        ensures
            r == spec_plan(
                force,
                image_present,
                spec_changed(store.deep_view(), name@, current_hash@),
            ),
            r is Skip <==> !force && image_present && !spec_changed(
                store.deep_view(),
                name@,
                current_hash@,
            ),
    {
        if force {
            BuildPlan::Build
        } else if !image_present {
            BuildPlan::Build
        } else if store.changed(name, current_hash) {
            BuildPlan::Build
        } else {
            BuildPlan::Skip
        }
    }

    /// A container built from a superseded image must not survive the rebuild:
    /// removal is required exactly when one exists and the rebuild came from
    /// the force flag or from hash drift.
    pub fn removal_required(container_exists: bool, force: bool, changed: bool) -> (r: bool)
        ensures
            r == (container_exists && (force || changed)),
    {
        container_exists && (force || changed)
    }

    /// Applies the engine's reported build outcome for `name`. On success the
    /// record is overwritten (or added) and nothing else changes; on failure
    /// the store is left exactly as it was and the failure is surfaced.
    pub fn apply_build_result(
        store: &mut Lockfile,
        name: &str,
        record: ContainerLock,
        success: bool,
    ) -> (r: Result<(), ContainerError>)
        ensures
            !success ==> *final(store) == *old(store) && (r matches Err(
                ContainerError::BuildFailed(s),
            ) && s@ == name@),
            success ==> r is Ok && final(store).deep_view().version == old(
                store,
            ).deep_view().version && final(store).deep_view().containers == upsert_lock(
                old(store).deep_view().containers,
                name@,
                record.deep_view(),
            ),
    {
        if !success {
            return Err(ContainerError::BuildFailed(name.to_owned()));
        }
        let ghost pre = store.deep_view().containers;
        let n = store.containers.len();
        let mut i: usize = 0;
        while i < n
            invariant
                success,
                *store == *old(store),
                0 <= i <= n,
                n == store.containers.len(),
                pre == store.deep_view().containers,
                forall|k: int| 0 <= k < i ==> (#[trigger] pre[k]).0 != name@,
            decreases n - i,
        {
            if str_eq(store.containers[i].0.as_str(), name) {
                proof {
                    lemma_upsert_at(pre, name@, record.deep_view(), i as int);
                }
                store.containers.set(i, (name.to_owned(), record));
                proof {
                    assert(store.deep_view().containers =~= pre.update(
                        i as int,
                        (name@, record.deep_view()),
                    ));
                }
                return Ok(());
            }
            i = i + 1;
        }
        proof {
            lemma_upsert_absent(pre, name@, record.deep_view());
        }
        store.containers.push((name.to_owned(), record));
        proof {
            assert(store.deep_view().containers =~= pre.push((name@, record.deep_view())));
        }
        Ok(())
    }
}

} // verus!
