//! What the publisher sends: each record of a snapshot under its client's
//! display name, with the shared token.
use vstd::prelude::*;

use crate::activity::{ActivityRecord, ActivityView};
use crate::store::ActivityStore;

verus! {

/// A table from client identity to a human-readable name.
#[derive(Debug)]
pub struct ClientNames {
    entries: Vec<(String, String)>,
}

/// The name that a table gives an identity: that of its first entry for the
/// identity, or the identity itself where there is none.
pub open spec fn display_name(table: Seq<(Seq<char>, Seq<char>)>, id: Seq<char>) -> Seq<char>
    decreases table.len(),
{
    if table.len() == 0 {
        id
    } else if table[0].0 == id {
        table[0].1
    } else {
        display_name(table.drop_first(), id)
    }
}

impl View for ClientNames {
    type V = Seq<(Seq<char>, Seq<char>)>;

    closed spec fn view(&self) -> Seq<(Seq<char>, Seq<char>)> {
        self.entries@.map_values(|e: (String, String)| (e.0@, e.1@))
    }
}

impl ClientNames {
    /// An empty table: every identity is shown as itself.
    pub fn new() -> (r: ClientNames)
        ensures
            r@ == Seq::<(Seq<char>, Seq<char>)>::empty(),
    {
        let r = ClientNames { entries: Vec::new() };
        assert(r@ =~= Seq::<(Seq<char>, Seq<char>)>::empty());
        r
    }

    /// Adds a name for an identity; an earlier entry for it keeps priority.
    pub fn add(&mut self, id: String, name: String)
        ensures
            final(self)@ == old(self)@.push((id@, name@)),
    {
        self.entries.push((id, name));
        assert(final(self)@ =~= old(self)@.push((id@, name@)));
    }
}

/// The display name of a client identity.
pub fn client_id_to_name(names: &ClientNames, client_id: &String) -> (r: String)
    ensures
        r@ == display_name(names@, client_id@),
{
    let mut i: usize = 0;
    assert(names@.subrange(0, names@.len() as int) =~= names@);
    while i < names.entries.len()
        invariant
            i <= names.entries@.len(),
            names@.len() == names.entries@.len(),
            display_name(names@, client_id@) == display_name(names@.subrange(i as int, names@.len() as int), client_id@),
        decreases names.entries@.len() - i,
    {
        assert(names@.subrange(i + 1, names@.len() as int) =~= names@.subrange(i as int, names@.len() as int).drop_first());
        assert(names@[i as int] == (names.entries@[i as int].0@, names.entries@[i as int].1@));
        if names.entries[i].0 == *client_id {
            return names.entries[i].1.clone();
        }
        i = i + 1;
    }
    client_id.clone()
}

/// One client's activity as it is published.
#[derive(Debug)]
pub struct PresenceState {
    pub client: String,
    pub large_text: String,
    pub small_text: String,
    pub state: String,
    pub details: String,
    /// Milliseconds since the epoch.
    pub start_time: Option<u64>,
    /// Milliseconds since the epoch.
    pub end_time: Option<u64>,
}

pub ghost struct PresenceView {
    pub client: Seq<char>,
    pub activity: ActivityView,
}

impl View for PresenceState {
    type V = PresenceView;

    open spec fn view(&self) -> PresenceView {
        PresenceView {
            client: self.client@,
            activity: ActivityView {
                large_text: self.large_text@,
                small_text: self.small_text@,
                state: self.state@,
                details: self.details@,
                start_time: self.start_time,
                end_time: self.end_time,
            },
        }
    }
}

/// The published form of one store entry.
pub open spec fn presence_of(
    table: Seq<(Seq<char>, Seq<char>)>,
    id: Seq<char>,
    a: ActivityView,
) -> PresenceView {
    PresenceView { client: display_name(table, id), activity: a }
}

/// The body sent to the sink: the shared token and every client's activity.
#[derive(Debug)]
pub struct StateUpdate {
    pub token: String,
    pub state: Vec<PresenceState>,
}

/// The published form of each entry of a snapshot, in its order.
pub fn presence_states(names: &ClientNames, entries: &Vec<(String, ActivityRecord)>) -> (r: Vec<
    PresenceState,
>)
    ensures
        r@.len() == entries@.len(),
        forall|i: int|
            0 <= i < r@.len() ==> #[trigger] r@[i]@ == presence_of(
                names@,
                entries@[i].0@,
                entries@[i].1@,
            ),
{
    let mut out: Vec<PresenceState> = Vec::new();
    let mut i: usize = 0;
    while i < entries.len()
        invariant
            i <= entries@.len(),
            out@.len() == i,
            forall|j: int|
                0 <= j < i ==> #[trigger] out@[j]@ == presence_of(names@, entries@[j].0@, entries@[j].1@),
        decreases entries@.len() - i,
    {
        let (id, a) = &entries[i];
        let p = PresenceState {
            client: client_id_to_name(names, id),
            large_text: a.large_text.clone(),
            small_text: a.small_text.clone(),
            state: a.state.clone(),
            details: a.details.clone(),
            start_time: a.start_time,
            end_time: a.end_time,
        };
        let ghost before = out@;
        out.push(p);
        assert forall|j: int| 0 <= j < i + 1 implies #[trigger] out@[j]@ == presence_of(
            names@,
            entries@[j].0@,
            entries@[j].1@,
        ) by {
            if j < i {
                assert(out@[j] == before[j]);
            }
        }
        i = i + 1;
    }
    out
}

/// The update that one tick of the publisher sends: every record in the
/// store, once each and in no set order, under its client's display name.
pub fn build_update(store: &ActivityStore, names: &ClientNames, token: &String) -> (r: StateUpdate)
    requires
        store.wf(),
    ensures
        r.token@ == token@,
        r.state@.len() == store@.dom().len(),
        forall|i: int|
            #![trigger r.state@[i]]
            0 <= i < r.state@.len() ==> exists|k: Seq<char>|
                #![trigger store@[k]]
                store@.contains_key(k) && r.state@[i]@ == presence_of(names@, k, store@[k]),
        forall|k: Seq<char>|
            #![trigger store@[k]]
            store@.contains_key(k) ==> exists|i: int|
                #![trigger r.state@[i]]
                0 <= i < r.state@.len() && r.state@[i]@ == presence_of(names@, k, store@[k]),
{
    let snap = store.snapshot();
    let state = presence_states(names, &snap);
    assert forall|i: int| #![trigger state@[i]] 0 <= i < state@.len() implies exists|k: Seq<char>|
        #![trigger store@[k]]
        store@.contains_key(k) && state@[i]@ == presence_of(names@, k, store@[k]) by {
        let k = snap@[i].0@;
        assert(store@.contains_key(k));
        assert(state@[i]@ == presence_of(names@, k, store@[k]));
    }
    assert forall|k: Seq<char>| #![trigger store@[k]] store@.contains_key(k) implies exists|i: int|
        #![trigger state@[i]]
        0 <= i < state@.len() && state@[i]@ == presence_of(names@, k, store@[k]) by {
        let i = choose|i: int| 0 <= i < snap@.len() && #[trigger] snap@[i].0@ == k;
        assert(state@[i]@ == presence_of(names@, k, store@[k]));
    }
    StateUpdate { token: token.clone(), state }
}

} // verus!
