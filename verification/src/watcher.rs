//! The watch-side decision logic: which debounced event batches trigger a
//! rebuild, and the rebuild coordinator's state machine, which serializes
//! builds and coalesces triggers that arrive while a build is in flight.
//!
//! Receiving filesystem notifications, debouncing them and running the build
//! command are the caller's side; this module decides.

use vstd::prelude::*;
use crate::paths::is_noise;
use crate::paths::is_noise_path;

verus! {

/// The kind of a filesystem notification, as the rebuild filter sees it.
#[derive(Clone, Copy, PartialEq, Eq, Structural, Debug)]
pub enum EventKind {
    Access,
    Create,
    Modify,
    Remove,
    Other,
}

/// One debounced filesystem event: a kind and the affected paths, as bytes.
#[derive(Debug)]
pub struct WatchEvent {
    pub kind: EventKind,
    pub paths: Vec<Vec<u8>>,
}

/// An event survives the filters when its kind is not a pure access and at
/// least one of its paths lies outside the noise set.
pub open spec fn event_relevant(e: WatchEvent) -> bool {
    !(e.kind is Access) && exists|j: int|
        #![trigger e.paths@[j]]
        0 <= j < e.paths@.len() && !is_noise_path(e.paths@[j]@)
}

/// A debounced batch triggers a rebuild when, after dropping pure-access
/// events, some remaining event still carries a relevant path.
pub open spec fn batch_triggers(es: Seq<WatchEvent>) -> bool {
    exists|i: int| 0 <= i < es.len() && event_relevant(es[i])
}

/// Whether one event survives the kind filter and the noise-path filter.
pub fn event_survives(e: &WatchEvent) -> (r: bool)
    ensures
        r == event_relevant(*e),
{
    let kind_relevant = match e.kind {
        EventKind::Access => false,
        _ => true,
    };
    if !kind_relevant {
        return false;
    }
    let mut j: usize = 0;
    while j < e.paths.len()
        invariant
            !(e.kind is Access),
            j <= e.paths@.len(),
            forall|k: int| 0 <= k < j ==> is_noise_path(#[trigger] e.paths@[k]@),
        decreases e.paths@.len() - j,
    {
        if !is_noise(&e.paths[j]) {
            proof {
                assert(0 <= (j as int) < e.paths@.len() && !is_noise_path(e.paths@[j as int]@));
            }
            return true;
        }
        j = j + 1;
    }
    false
}

/// Whether a debounced batch must trigger a rebuild.
pub fn should_rebuild(batch: &Vec<WatchEvent>) -> (r: bool)
    ensures
        r == batch_triggers(batch@),
{
    let mut i: usize = 0;
    while i < batch.len()
        invariant
            i <= batch@.len(),
            forall|k: int| 0 <= k < i ==> !event_relevant(#[trigger] batch@[k]),
        decreases batch@.len() - i,
    {
        if event_survives(&batch[i]) {
            proof {
                assert(event_relevant(batch@[i as int]));
            }
            return true;
        }
        i = i + 1;
    }
    false
}

// ---------------------------------------------------------------------------
// Rebuild coordination
// ---------------------------------------------------------------------------

/// The coordinator's state: no build running, one running, or one running
/// with one follow-up already queued.
#[derive(Clone, Copy, PartialEq, Eq, Structural, Debug)]
pub enum RebuildState {
    Idle,
    Building,
    BuildingQueued,
}

/// The step a surviving batch takes: the next state, and whether the caller
/// must start a build now.  A trigger during a running build queues exactly
/// one follow-up; it never starts a second concurrent build.
pub open spec fn spec_on_trigger(s: RebuildState) -> (RebuildState, bool) {
    match s {
        RebuildState::Idle => (RebuildState::Building, true),
        RebuildState::Building => (RebuildState::BuildingQueued, false),
        RebuildState::BuildingQueued => (RebuildState::BuildingQueued, false),
    }
}

/// The step a finished build takes: the next state, whether the caller must
/// repack now (only after a successful build), and whether the caller must
/// start the coalesced follow-up build.
pub open spec fn spec_on_build_finished(s: RebuildState, success: bool) -> (
    RebuildState,
    bool,
    bool,
) {
    match s {
        RebuildState::Idle => (RebuildState::Idle, false, false),
        RebuildState::Building => (RebuildState::Idle, success, false),
        RebuildState::BuildingQueued => (RebuildState::Building, success, true),
    }
}

/// Applies a rebuild trigger to the coordinator.
pub fn on_trigger(s: RebuildState) -> (r: (RebuildState, bool))
    ensures
        r == spec_on_trigger(s),
{
    match s {
        RebuildState::Idle => (RebuildState::Building, true),
        RebuildState::Building => (RebuildState::BuildingQueued, false),
        RebuildState::BuildingQueued => (RebuildState::BuildingQueued, false),
    }
}

/// Applies a build completion to the coordinator.
pub fn on_build_finished(s: RebuildState, success: bool) -> (r: (RebuildState, bool, bool))
    ensures
        r == spec_on_build_finished(s, success),
{
    match s {
        RebuildState::Idle => (RebuildState::Idle, false, false),
        RebuildState::Building => (RebuildState::Idle, success, false),
        RebuildState::BuildingQueued => (RebuildState::Building, success, true),
    }
}

/// The state after `k` triggers arrive in a row.
pub open spec fn run_triggers(s: RebuildState, k: nat) -> RebuildState
    decreases k,
{
    if k == 0 {
        s
    } else {
        spec_on_trigger(run_triggers(s, (k - 1) as nat)).0
    }
}

/// At most one build runs at a time: a trigger starts a build only from the
/// idle state, never while one is in flight.
pub proof fn lemma_single_flight(s: RebuildState)
    ensures
        spec_on_trigger(s).1 <==> s == RebuildState::Idle,
{
}

/// Coalescing: any number of triggers arriving while a build is in flight
/// queue exactly one follow-up build, started when the running build
/// finishes; with no trigger in between, no follow-up starts.  The repack
/// after the finished build depends only on that build's success.
pub proof fn lemma_triggers_coalesce(k: nat, success: bool)
    ensures
        k >= 1 ==> run_triggers(RebuildState::Building, k) == RebuildState::BuildingQueued,
        k >= 1 ==> spec_on_build_finished(run_triggers(RebuildState::Building, k), success) == (
            RebuildState::Building,
            success,
            true,
        ),
        spec_on_build_finished(run_triggers(RebuildState::Building, 0), success) == (
            RebuildState::Idle,
            success,
            false,
        ),
    decreases k,
{
    if k >= 1 {
        lemma_triggers_coalesce((k - 1) as nat, success);
    }
}

} // verus!
