use vstd::prelude::*;

use crate::keyed::{distinct_keys, lemma_pairs_map_push, lemma_pairs_map_update, pairs_map};

verus! {

/// Identifier of a MIDI input device.
pub type DeviceId = i32;

/// MIDI channel, 1 to 16.
pub type Channel = u8;

/// Control number of a control-change message.
pub type Cc = u8;

/// Raw controller value, 0 to 127.
pub type Value = u8;

/// High nibble of the status byte of a control-change message.
pub const STATUS_NIBBLE_CC: u8 = 0b1011;

/// One physical controller input.
#[derive(Debug, Clone, Copy, PartialEq, Eq, Hash, Structural)]
pub struct CcKey {
    pub device_id: DeviceId,
    pub channel: Channel,
    pub cc: Cc,
}

/// A decoded control-change message.
#[derive(Debug, Clone, Copy, PartialEq, Eq, Structural)]
pub struct CcEvent {
    pub key: CcKey,
    pub value: Value,
}

/// A raw three-byte MIDI message.
#[derive(Debug, Clone, Copy, PartialEq, Eq, Structural)]
pub struct MidiMessage {
    pub status: u8,
    pub data1: u8,
    pub data2: u8,
}

/// A MIDI message together with the device it was read from.
#[derive(Debug, Clone, Copy, PartialEq, Eq, Structural)]
pub struct RawMidi {
    pub device_id: DeviceId,
    pub message: MidiMessage,
}

/// The control-change event that `m` read from `device_id` carries, if any:
/// the high nibble of the status byte marks the class, the low nibble plus
/// one is the channel, the first data byte the control number and the
/// second the value.
pub open spec fn spec_decode_cc(device_id: DeviceId, m: MidiMessage) -> Option<CcEvent> {
    if m.status / 16 == STATUS_NIBBLE_CC {
        Some(
            CcEvent {
                key: CcKey { device_id, channel: (m.status % 16 + 1) as u8, cc: m.data1 },
                value: m.data2,
            },
        )
    } else {
        None
    }
}

/// The event that one read message contributes to a poll: none when its
/// device failed during the poll or when it is not a control change.
pub open spec fn accepted(r: RawMidi, failed: Seq<DeviceId>) -> Option<CcEvent> {
    if failed.contains(r.device_id) {
        None
    } else {
        spec_decode_cc(r.device_id, r.message)
    }
}

/// Latest value of every control touched by `msgs`, read in order.
pub open spec fn latest_values(msgs: Seq<RawMidi>, failed: Seq<DeviceId>) -> Map<CcKey, Value>
    decreases msgs.len(),
{
    if msgs.len() == 0 {
        Map::empty()
    } else {
        let m = latest_values(msgs.drop_last(), failed);
        match accepted(msgs.last(), failed) {
            Some(e) => m.insert(e.key, e.value),
            None => m,
        }
    }
}

/// `r` is a control-change message for `key` that counts in the poll.
pub open spec fn touches(r: RawMidi, failed: Seq<DeviceId>, key: CcKey) -> bool {
    accepted(r, failed) matches Some(e) && e.key == key
}

/// Messages that do not touch `key` leave its latest value as it was.
pub proof fn lemma_latest_values_suffix(
    s: Seq<RawMidi>,
    post: Seq<RawMidi>,
    failed: Seq<DeviceId>,
    key: CcKey,
)
    requires
        forall|i: int| 0 <= i < post.len() ==> !touches(#[trigger] post[i], failed, key),
    ensures
        latest_values(s + post, failed).contains_key(key) == latest_values(s, failed).contains_key(
            key,
        ),
        latest_values(s + post, failed)[key] == latest_values(s, failed)[key],
    decreases post.len(),
{
    if post.len() == 0 {
        assert(s + post =~= s);
    } else {
        let q = post.drop_last();
        assert forall|i: int| 0 <= i < q.len() implies !touches(#[trigger] q[i], failed, key) by {
            assert(q[i] == post[i]);
        }
        lemma_latest_values_suffix(s, q, failed, key);
        assert((s + post).drop_last() =~= s + q);
        assert((s + post).last() == post[post.len() - 1]);
    }
}

/// Removing a message that is not a control change from a poll changes
/// nothing.
pub proof fn lemma_latest_values_skip(
    pre: Seq<RawMidi>,
    m: RawMidi,
    post: Seq<RawMidi>,
    failed: Seq<DeviceId>,
)
    requires
        spec_decode_cc(m.device_id, m.message) is None,
    ensures
        latest_values(pre + seq![m] + post, failed) == latest_values(pre + post, failed),
    decreases post.len(),
{
    if post.len() == 0 {
        assert(pre + seq![m] + post =~= pre.push(m));
        assert(pre.push(m).drop_last() =~= pre);
        assert(pre + post =~= pre);
    } else {
        let q = post.drop_last();
        lemma_latest_values_skip(pre, m, q, failed);
        assert((pre + seq![m] + post).drop_last() =~= pre + seq![m] + q);
        assert((pre + post).drop_last() =~= pre + q);
        assert((pre + seq![m] + post).last() == post.last());
        assert((pre + post).last() == post.last());
    }
}

/// Events as key/value pairs.
pub open spec fn event_pairs(evs: Seq<CcEvent>) -> Seq<(CcKey, Value)> {
    evs.map_values(|e: CcEvent| (e.key, e.value))
}

/// Decodes one message.
pub fn decode_cc(device_id: DeviceId, m: MidiMessage) -> (r: Option<CcEvent>)
    ensures
        r == spec_decode_cc(device_id, m),
{
    let status = m.status;
    let status_nibble = status >> 4;
    assert(status >> 4 == status / 16) by (bit_vector);
    if status_nibble == STATUS_NIBBLE_CC {
        let low = status & 0b1111;
        assert(status & 0b1111 == status % 16) by (bit_vector);
        let key = CcKey { device_id, channel: low + 1, cc: m.data1 };
        Some(CcEvent { key, value: m.data2 })
    } else {
        None
    }
}

/// Whether `id` is listed in `ids`.
pub fn contains_device(ids: &Vec<DeviceId>, id: DeviceId) -> (r: bool)
    ensures
        r == ids@.contains(id),
{
    let mut i: usize = 0;
    while i < ids.len()
        invariant
            i <= ids@.len(),
            forall|j: int| 0 <= j < i ==> ids@[j] != id,
        decreases ids@.len() - i,
    {
        if ids[i] == id {
            assert(ids@[i as int] == id);
            return true;
        }
        i = i + 1;
    }
    false
}

/// Position of the pair that carries `k`, if any.
pub fn find_key<V>(s: &Vec<(CcKey, V)>, k: CcKey) -> (r: Option<usize>)
    ensures
        match r {
            Some(j) => j < s@.len() && s@[j as int].0 == k,
            None => forall|j: int| 0 <= j < s@.len() ==> s@[j].0 != k,
        },
{
    let mut i: usize = 0;
    while i < s.len()
        invariant
            i <= s@.len(),
            forall|j: int| 0 <= j < i ==> s@[j].0 != k,
        decreases s@.len() - i,
    {
        if s[i].0 == k {
            return Some(i);
        }
        i = i + 1;
    }
    None
}

/// Sets the value of `k` in a list without repeated keys: the pair that
/// carries it is updated in place, or a new pair goes at the end.
pub fn upsert<V>(s: &mut Vec<(CcKey, V)>, k: CcKey, v: V)
    requires
        distinct_keys(old(s)@),
    ensures
        distinct_keys(final(s)@),
        pairs_map(final(s)@) == pairs_map(old(s)@).insert(k, v),
{
    match find_key(s, k) {
        Some(j) => {
            proof {
                lemma_pairs_map_update(s@, j as int, v);
            }
            s.set(j, (k, v));
        },
        None => {
            proof {
                lemma_pairs_map_push(s@, (k, v));
            }
            s.push((k, v));
        },
    }
}

/// Folds the messages read during one poll into one event per control
/// touched, holding the last value observed for it. Messages of devices in
/// `failed` and messages that are not control changes are left out.
pub fn read_cc(messages: &Vec<RawMidi>, failed: &Vec<DeviceId>) -> (r: Vec<CcEvent>)
    ensures
        distinct_keys(event_pairs(r@)),
        pairs_map(event_pairs(r@)) == latest_values(messages@, failed@),
{
    let mut last: Vec<(CcKey, Value)> = Vec::new();
    let mut i: usize = 0;
    while i < messages.len()
        invariant
            i <= messages@.len(),
            distinct_keys(last@),
            pairs_map(last@) == latest_values(messages@.take(i as int), failed@),
        decreases messages@.len() - i,
    {
        let raw = messages[i];
        assert(messages@.take(i + 1).drop_last() =~= messages@.take(i as int));
        if !contains_device(failed, raw.device_id) {
            if let Some(event) = decode_cc(raw.device_id, raw.message) {
                upsert(&mut last, event.key, event.value);
            }
        }
        i = i + 1;
    }
    assert(messages@.take(messages@.len() as int) =~= messages@);
    let mut r: Vec<CcEvent> = Vec::new();
    let mut j: usize = 0;
    while j < last.len()
        invariant
            j <= last@.len(),
            event_pairs(r@) =~= last@.take(j as int),
        decreases last@.len() - j,
    {
        let (key, value) = last[j];
        let ghost prev = r@;
        r.push(CcEvent { key, value });
        assert(event_pairs(r@) =~= event_pairs(prev).push((key, value)));
        assert(last@.take(j + 1) =~= last@.take(j as int).push(last@[j as int]));
        j = j + 1;
    }
    assert(last@.take(last@.len() as int) =~= last@);
    r
}

} // verus!
