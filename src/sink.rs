//! The sink's side of an update: it keeps the last list of activities that
//! came with the right token, and when it came.
use vstd::prelude::*;

use crate::publish::{PresenceState, PresenceView, StateUpdate};

verus! {

/// What a display sink shows: the last accepted activities and the instant,
/// in milliseconds since the epoch, at which they were accepted.
#[derive(Debug)]
pub struct SinkState {
    states: Vec<PresenceState>,
    last_updated: u64,
}

/// The views of a list of published activities.
pub open spec fn presence_views(s: Seq<PresenceState>) -> Seq<PresenceView> {
    s.map_values(|p: PresenceState| p@)
}

impl SinkState {
    pub closed spec fn states_spec(&self) -> Seq<PresenceView> {
        presence_views(self.states@)
    }

    pub closed spec fn last_updated_spec(&self) -> u64 {
        self.last_updated
    }

    /// A sink that has shown nothing yet, as of `now`.
    pub fn new(now: u64) -> (r: SinkState)
        ensures
            r.states_spec() == Seq::<PresenceView>::empty(),
            r.last_updated_spec() == now,
    {
        let r = SinkState { states: Vec::new(), last_updated: now };
        assert(r.states_spec() =~= Seq::<PresenceView>::empty());
        r
    }

    /// The activities shown.
    pub fn states(&self) -> (r: &Vec<PresenceState>)
        ensures
            presence_views(r@) == self.states_spec(),
    {
        &self.states
    }

    /// When the activities shown were accepted.
    pub fn last_updated(&self) -> (r: u64)
        ensures
            r == self.last_updated_spec(),
    {
        self.last_updated
    }

    /// Takes an update at `now`: with the expected token its list replaces
    /// the one shown; with any other it is refused and nothing changes.
    pub fn apply_update(&mut self, update: StateUpdate, expected_token: &String, now: u64) -> (accepted: bool)
        ensures
            accepted == (update.token@ == expected_token@),
            accepted ==> final(self).states_spec() == presence_views(update.state@)
                && final(self).last_updated_spec() == now,
            !accepted ==> final(self).states_spec() == old(self).states_spec()
                && final(self).last_updated_spec() == old(self).last_updated_spec(),
    {
        if update.token != *expected_token {
            return false;
        }
        self.states = update.state;
        self.last_updated = now;
        true
    }
}

} // verus!
