//! The article prober: a record's web addresses are fetched side by side, and
//! the first page that mentions art settles the probe.
//!
//! The fetches themselves are the caller's work. This module holds the
//! decisions: the caller starts a probe, hands over each fetch as it completes
//! and does what the returned action says.

use vstd::prelude::*;
use crate::contains_osm::{art_text, ContainsOSM};
use crate::museum::Museum;

verus! {

/// What became of one fetch.
#[derive(Debug, PartialEq, Eq)]
pub enum Fetched {
    /// The request failed, timed out, or its body was no text.
    Failed,
    /// The body of the page, as text.
    Body(String),
}

/// The fetch brought a page that mentions art.
pub open spec fn satisfies(outcome: Fetched) -> bool {
    outcome matches Fetched::Body(text) && art_text(text@)
}

/// Which of the fetches brought a page that mentions art.
pub open spec fn satisfied_flags(completed: Seq<Fetched>) -> Seq<bool> {
    completed.map_values(|outcome: Fetched| satisfies(outcome))
}

/// Where a probe stands.
#[derive(Clone, Copy, Debug, PartialEq, Eq, Structural)]
pub enum ProbeState {
    /// `pending` fetches are in flight and none that completed mentioned art.
    Waiting { pending: usize },
    /// A page mentioned art: the probe is settled as true.
    Found,
    /// No fetch is left and no page mentioned art: the probe is settled as
    /// false.
    NotFound,
}

/// What the caller does next.
#[derive(Clone, Copy, Debug, PartialEq, Eq, Structural)]
pub enum ProbeAction {
    /// Start one fetch for each candidate, then wait for the first to
    /// complete.
    Launch,
    /// Wait for the next fetch to complete.
    Await,
    /// Cancel every fetch still in flight and report true.
    Cancel,
    /// Report false; nothing is in flight.
    Finish,
    /// The probe was settled before this fetch completed: drop it.
    Discard,
}

/// The state in which a probe of `candidates` addresses starts.
pub open spec fn start_state(candidates: nat) -> ProbeState {
    if candidates == 0 {
        ProbeState::NotFound
    } else {
        ProbeState::Waiting { pending: candidates as usize }
    }
}

/// The state after a fetch completed, `satisfied` telling whether its page
/// mentioned art.
pub open spec fn next_state(state: ProbeState, satisfied: bool) -> ProbeState {
    match state {
        ProbeState::Waiting { pending } => {
            if satisfied {
                ProbeState::Found
            } else if pending <= 1 {
                ProbeState::NotFound
            } else {
                ProbeState::Waiting { pending: (pending - 1) as usize }
            }
        },
        ProbeState::Found => ProbeState::Found,
        ProbeState::NotFound => ProbeState::NotFound,
    }
}

/// The action that goes with a step from `state`.
pub open spec fn next_action(state: ProbeState, satisfied: bool) -> ProbeAction {
    match state {
        ProbeState::Waiting { pending } => {
            if satisfied {
                ProbeAction::Cancel
            } else if pending <= 1 {
                ProbeAction::Finish
            } else {
                ProbeAction::Await
            }
        },
        ProbeState::Found => ProbeAction::Discard,
        ProbeState::NotFound => ProbeAction::Discard,
    }
}

/// The state after a run of completions, taken in their order.
pub open spec fn state_after(state: ProbeState, flags: Seq<bool>) -> ProbeState
    decreases flags.len(),
{
    if flags.len() == 0 {
        state
    } else {
        next_state(state_after(state, flags.drop_last()), flags.last())
    }
}

impl ProbeState {
    /// A waiting probe has at least one fetch in flight.
    pub open spec fn well_formed(self) -> bool {
        self matches ProbeState::Waiting { pending } ==> pending > 0
    }

    /// The result of the probe, once it is settled.
    pub open spec fn outcome(self) -> Option<bool> {
        match self {
            ProbeState::Waiting { .. } => None,
            ProbeState::Found => Some(true),
            ProbeState::NotFound => Some(false),
        }
    }

    /// Starts a probe of `candidates` addresses. With no candidate the probe
    /// is settled as false at once and no fetch is started.
    pub fn start(candidates: usize) -> (begun: (ProbeState, ProbeAction))
        ensures
            begun.0 == start_state(candidates as nat),
            begun.0.well_formed(),
            candidates == 0 ==> begun.0 == ProbeState::NotFound && begun.1 == ProbeAction::Finish,
            candidates > 0 ==> begun.1 == ProbeAction::Launch,
    {
        if candidates == 0 {
            (ProbeState::NotFound, ProbeAction::Finish)
        } else {
            (ProbeState::Waiting { pending: candidates }, ProbeAction::Launch)
        }
    }

    /// Takes in one completed fetch.
    pub fn step(self, completed: &Fetched) -> (stepped: (ProbeState, ProbeAction))
        ensures
            stepped.0 == next_state(self, satisfies(*completed)),
            stepped.1 == next_action(self, satisfies(*completed)),
            stepped.0.well_formed(),
    {
        match self {
            ProbeState::Waiting { pending } => {
                let satisfied = match completed {
                    Fetched::Failed => false,
                    Fetched::Body(text) => text.contains_art(),
                };
                if satisfied {
                    (ProbeState::Found, ProbeAction::Cancel)
                } else if pending <= 1 {
                    (ProbeState::NotFound, ProbeAction::Finish)
                } else {
                    (ProbeState::Waiting { pending: pending - 1 }, ProbeAction::Await)
                }
            },
            ProbeState::Found => (ProbeState::Found, ProbeAction::Discard),
            ProbeState::NotFound => (ProbeState::NotFound, ProbeAction::Discard),
        }
    }

    /// The result of the probe: `None` while fetches are awaited.
    pub fn result(self) -> (settled: Option<bool>)
        ensures
            settled == self.outcome(),
    {
        match self {
            ProbeState::Waiting { .. } => None,
            ProbeState::Found => Some(true),
            ProbeState::NotFound => Some(false),
        }
    }
}

/// With at most one completion for each candidate, a probe is settled as
/// true exactly when one of the completed fetches brought a page that mentions
/// art, in whatever order the fetches completed. While none did, it waits for
/// the fetches that are left, and is settled as false when none is left.
pub proof fn lemma_probe_outcome(candidates: nat, flags: Seq<bool>)
    requires
        candidates <= usize::MAX,
        flags.len() <= candidates,
    ensures
        flags.contains(true) ==> state_after(start_state(candidates), flags) == ProbeState::Found,
        !flags.contains(true) && flags.len() < candidates ==> state_after(
            start_state(candidates),
            flags,
        ) == (ProbeState::Waiting { pending: (candidates - flags.len()) as usize }),
        !flags.contains(true) && flags.len() == candidates ==> state_after(
            start_state(candidates),
            flags,
        ) == ProbeState::NotFound,
    decreases flags.len(),
{
    if flags.len() > 0 {
        let front = flags.drop_last();
        lemma_probe_outcome(candidates, front);
        if front.contains(true) {
            let i = choose|i: int| 0 <= i < front.len() && front[i] == true;
            assert(flags[i] == true);
        } else if flags.last() {
            assert(flags[flags.len() - 1] == true);
        } else {
            assert forall|i: int| 0 <= i < flags.len() implies flags[i] != true by {
                if i < front.len() {
                    assert(front[i] == flags[i]);
                }
            }
        }
    }
}

/// Once a probe is settled, no later completion changes its result or asks
/// the caller for more than to drop that completion.
pub proof fn lemma_settled_probe_stays(state: ProbeState, flags: Seq<bool>)
    requires
        state.outcome() is Some,
    ensures
        state_after(state, flags) == state,
        forall|satisfied: bool| next_action(state, satisfied) == ProbeAction::Discard,
    decreases flags.len(),
{
    if flags.len() > 0 {
        lemma_settled_probe_stays(state, flags.drop_last());
    }
}

impl Museum {
    /// Settles the probe of this museum's web addresses from the fetches that
    /// completed, in the order of their completion. A completion beyond the
    /// number of addresses is not looked at.
    pub fn websites_contain_art(&self, completed: &Vec<Fetched>) -> (found: bool)
        ensures
            found == exists|i: int|
                0 <= i < completed.len() && i < self.other.len() && satisfies(
                    #[trigger] completed[i],
                ),
            self.other.len() == 0 ==> !found,
    {
        let (mut state, _) = ProbeState::start(self.other.len());
        let mut i: usize = 0;
        while i < completed.len() && i < self.other.len()
            invariant
                i <= completed.len(),
                i <= self.other.len(),
                state == state_after(
                    start_state(self.other.len() as nat),
                    satisfied_flags(completed@.take(i as int)),
                ),
                forall|j: int| 0 <= j < i ==> !satisfies(#[trigger] completed[j]),
            decreases completed.len() - i,
        {
            let ghost before = satisfied_flags(completed@.take(i as int));
            let ghost after = satisfied_flags(completed@.take(i + 1));
            proof {
                assert(after.drop_last() =~= before);
                assert(after.last() == satisfies(completed[i as int]));
                assert forall|j: int| 0 <= j < before.len() implies before[j] != true by {
                    assert(before[j] == satisfies(completed[j]));
                }
                lemma_probe_outcome(self.other.len() as nat, before);
            }
            let (next, action) = state.step(&completed[i]);
            if action == ProbeAction::Cancel {
                return true;
            }
            state = next;
            i += 1;
        }
        false
    }
}

} // verus!
