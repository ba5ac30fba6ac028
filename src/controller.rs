use vstd::prelude::*;

use crate::keyed::{
    distinct_keys, lemma_pairs_map_dom, lemma_pairs_map_last, lemma_pairs_map_push, pairs_map,
};
use crate::mapping::MappingTable;
use crate::midi::{
    accepted, event_pairs, latest_values, lemma_latest_values_skip, lemma_latest_values_suffix,
    spec_decode_cc, touches, upsert, CcEvent, CcKey, DeviceId, RawMidi, Value,
};

verus! {

/// The controller values after a poll whose latest values are `latest`:
/// the value of each control that the table maps replaces the stored one.
pub open spec fn merged_map(
    state: Map<CcKey, Value>,
    table: Map<CcKey, Seq<char>>,
    latest: Map<CcKey, Value>,
) -> Map<CcKey, Value> {
    state.union_prefer_right(latest.restrict(table.dom()))
}

/// The controller values after folding `events` into `state` in order.
pub open spec fn merged(
    state: Map<CcKey, Value>,
    table: Map<CcKey, Seq<char>>,
    events: Seq<(CcKey, Value)>,
) -> Map<CcKey, Value> {
    merged_map(state, table, pairs_map(events))
}

/// Latest value wins: when two control-change messages for one mapped
/// control arrive in a poll, `first` and later `second`, and no message after
/// `second` touches that control, the state after the poll holds the value
/// of `second`.
pub proof fn lemma_latest_value_wins(
    state: Map<CcKey, Value>,
    table: Map<CcKey, Seq<char>>,
    pre: Seq<RawMidi>,
    first: RawMidi,
    mid: Seq<RawMidi>,
    second: RawMidi,
    post: Seq<RawMidi>,
    failed: Seq<DeviceId>,
)
    requires
        accepted(first, failed) matches Some(e1) && accepted(second, failed) matches Some(e2)
            && e1.key == e2.key,
        table.contains_key(accepted(second, failed)->0.key),
        forall|i: int|
            0 <= i < post.len() ==> !touches(
                #[trigger] post[i],
                failed,
                accepted(second, failed)->0.key,
            ),
    ensures
        ({
            let e2 = accepted(second, failed)->0;
            let after = merged_map(
                state,
                table,
                latest_values(pre + seq![first] + mid + seq![second] + post, failed),
            );
            after.contains_key(e2.key) && after[e2.key] == e2.value
        }),
{
    let e2 = accepted(second, failed)->0;
    let s = pre + seq![first] + mid;
    assert(pre + seq![first] + mid + seq![second] + post =~= s.push(second) + post);
    assert(s.push(second).drop_last() =~= s);
    lemma_latest_values_suffix(s.push(second), post, failed, e2.key);
}

/// A message that is not a control change never alters the controller
/// state: the poll with it gives the same state as the poll without it.
pub proof fn lemma_non_cc_ignored(
    state: Map<CcKey, Value>,
    table: Map<CcKey, Seq<char>>,
    pre: Seq<RawMidi>,
    m: RawMidi,
    post: Seq<RawMidi>,
    failed: Seq<DeviceId>,
)
    requires
        spec_decode_cc(m.device_id, m.message) is None,
    ensures
        merged_map(state, table, latest_values(pre + seq![m] + post, failed)) == merged_map(
            state,
            table,
            latest_values(pre + post, failed),
        ),
{
    lemma_latest_values_skip(pre, m, post, failed);
}

/// Last observed value of each mapped control. Entries never expire.
pub struct ControllerState {
    pub values: Vec<(CcKey, Value)>,
}

impl View for ControllerState {
    type V = Map<CcKey, Value>;

    open spec fn view(&self) -> Map<CcKey, Value> {
        pairs_map(self.values@)
    }
}

impl ControllerState {
    /// Each control is stored once.
    pub open spec fn wf(&self) -> bool {
        distinct_keys(self.values@)
    }

    /// A state that holds no value.
    pub fn new() -> (r: ControllerState)
        ensures
            r.wf(),
            r@ == Map::<CcKey, Value>::empty(),
    {
        ControllerState { values: Vec::new() }
    }

    /// The stored value of `key`, if any.
    pub fn value_of(&self, key: CcKey) -> (r: Option<Value>)
        requires
            self.wf(),
        ensures
            match r {
                Some(v) => self@.contains_key(key) && self@[key] == v,
                None => !self@.contains_key(key),
            },
    {
        let mut i: usize = 0;
        while i < self.values.len()
            invariant
                i <= self.values@.len(),
                self.wf(),
                forall|j: int| 0 <= j < i ==> self.values@[j].0 != key,
            decreases self.values@.len() - i,
        {
            if self.values[i].0 == key {
                proof {
                    lemma_pairs_map_last(self.values@, i as int);
                }
                return Some(self.values[i].1);
            }
            i = i + 1;
        }
        proof {
            lemma_pairs_map_dom(self.values@, key);
        }
        None
    }

    /// Folds the events of one poll into the state, in order: an event
    /// whose control `table` maps sets that control's value; others are
    /// ignored.
    pub fn merge(&mut self, table: &MappingTable, events: &Vec<CcEvent>)
        requires
            old(self).wf(),
        ensures
            final(self).wf(),
            final(self)@ == merged(old(self)@, table@, event_pairs(events@)),
    {
        let ghost start = self@;
        let mut i: usize = 0;
        while i < events.len()
            invariant
                i <= events@.len(),
                self.wf(),
                self@ == merged(start, table@, event_pairs(events@.take(i as int))),
            decreases events@.len() - i,
        {
            let event = events[i];
            let ghost before = event_pairs(events@.take(i as int));
            assert(event_pairs(events@.take(i + 1)) =~= before.push((event.key, event.value)));
            proof {
                lemma_pairs_map_push(before, (event.key, event.value));
            }
            if table.uniform_for(event.key).is_some() {
                upsert(&mut self.values, event.key, event.value);
                assert(self@ =~= merged(start, table@, event_pairs(events@.take(i + 1))));
            } else {
                assert(self@ =~= merged(start, table@, event_pairs(events@.take(i + 1))));
            }
            i = i + 1;
        }
        assert(events@.take(events@.len() as int) =~= events@);
    }
}

} // verus!
