use vstd::prelude::*;

use crate::config::MidiConfig;
use crate::keyed::{lemma_pairs_map_dom, lemma_pairs_map_last, pairs_map};
use crate::midi::{Cc, CcKey, Channel, DeviceId};

verus! {

/// Name of the uniform that receives the surface resolution.
pub const U_RESOLUTION: &'static str = "u_resolution";

/// Name of the uniform that receives the elapsed time.
pub const U_TIME: &'static str = "u_time";

/// Mapping entries of one channel of one device, in order.
pub open spec fn control_entries(d: DeviceId, ch: Channel, ccs: Seq<(Cc, String)>) -> Seq<(CcKey, String)> {
    ccs.map_values(|p: (Cc, String)| (CcKey { device_id: d, channel: ch, cc: p.0 }, p.1))
}

/// Mapping entries of one device, channel after channel.
pub open spec fn channel_entries(d: DeviceId, chs: Seq<(Channel, Vec<(Cc, String)>)>) -> Seq<(CcKey, String)>
    decreases chs.len(),
{
    if chs.len() == 0 {
        Seq::empty()
    } else {
        channel_entries(d, chs.drop_last()) + control_entries(d, chs.last().0, chs.last().1@)
    }
}

/// Mapping entries of a whole configuration, device after device.
pub open spec fn config_entries(cfg: Seq<(DeviceId, Vec<(Channel, Vec<(Cc, String)>)>)>) -> Seq<(CcKey, String)>
    decreases cfg.len(),
{
    if cfg.len() == 0 {
        Seq::empty()
    } else {
        config_entries(cfg.drop_last()) + channel_entries(cfg.last().0, cfg.last().1@)
    }
}

/// Entries with their uniform names as text.
pub open spec fn entry_views(s: Seq<(CcKey, String)>) -> Seq<(CcKey, Seq<char>)> {
    s.map_values(|p: (CcKey, String)| (p.0, p.1@))
}

/// Names whose uniform locations a program built for a table with
/// `entries` resolves: resolution and time first, then one per entry in order.
pub open spec fn requested_uniforms(entries: Seq<(CcKey, String)>) -> Seq<Seq<char>> {
    seq![U_RESOLUTION@, U_TIME@] + entries.map_values(|p: (CcKey, String)| p.1@)
}

/// Text of each name.
pub open spec fn names_view(names: Seq<String>) -> Seq<Seq<char>> {
    names.map_values(|n: String| n@)
}

/// Association from controller key to uniform name, built afresh from the
/// configuration each time a shader is loaded.
pub struct MappingTable {
    /// The configuration's entries in order; a later entry for a key
    /// overrides an earlier one.
    pub entries: Vec<(CcKey, String)>,
}

impl View for MappingTable {
    type V = Map<CcKey, Seq<char>>;

    open spec fn view(&self) -> Map<CcKey, Seq<char>> {
        pairs_map(entry_views(self.entries@))
    }
}

impl MappingTable {
    /// Flattens the configuration, device by channel by control.
    pub fn from_config(cfg: &MidiConfig) -> (r: MappingTable)
        ensures
            r.entries@ == config_entries(cfg@),
    {
        let mut entries: Vec<(CcKey, String)> = Vec::new();
        let mut i: usize = 0;
        while i < cfg.len()
            invariant
                i <= cfg@.len(),
                entries@ == config_entries(cfg@.take(i as int)),
            decreases cfg@.len() - i,
        {
            let device_id = cfg[i].0;
            let channels = &cfg[i].1;
            let ghost before_device = entries@;
            let mut j: usize = 0;
            while j < channels.len()
                invariant
                    j <= channels@.len(),
                    entries@ == before_device + channel_entries(device_id, channels@.take(j as int)),
                decreases channels@.len() - j,
            {
                let channel = channels[j].0;
                let controls = &channels[j].1;
                let ghost before_channel = entries@;
                let mut k: usize = 0;
                while k < controls.len()
                    invariant
                        k <= controls@.len(),
                        entries@ == before_channel + control_entries(
                            device_id,
                            channel,
                            controls@.take(k as int),
                        ),
                    decreases controls@.len() - k,
                {
                    let key = CcKey { device_id, channel, cc: controls[k].0 };
                    entries.push((key, controls[k].1.clone()));
                    assert(control_entries(device_id, channel, controls@.take(k + 1)) =~= control_entries(
                        device_id,
                        channel,
                        controls@.take(k as int),
                    ).push((key, controls@[k as int].1)));
                    k = k + 1;
                }
                assert(controls@.take(controls@.len() as int) =~= controls@);
                assert(channels@.take(j + 1).drop_last() =~= channels@.take(j as int));
                j = j + 1;
            }
            assert(channels@.take(channels@.len() as int) =~= channels@);
            assert(cfg@.take(i + 1).drop_last() =~= cfg@.take(i as int));
            i = i + 1;
        }
        assert(cfg@.take(cfg@.len() as int) =~= cfg@);
        MappingTable { entries }
    }

    /// The uniform that `key` is mapped to, if any.
    pub fn uniform_for(&self, key: CcKey) -> (r: Option<&String>)
        ensures
            match r {
                Some(u) => self@.contains_key(key) && self@[key] == u@,
                None => !self@.contains_key(key),
            },
    {
        let ghost views = entry_views(self.entries@);
        let mut i: usize = self.entries.len();
        while i > 0
            invariant
                i <= self.entries@.len(),
                views == entry_views(self.entries@),
                forall|j: int| i <= j < self.entries@.len() ==> self.entries@[j].0 != key,
            decreases i,
        {
            i = i - 1;
            if self.entries[i].0 == key {
                proof {
                    lemma_pairs_map_last(views, i as int);
                }
                return Some(&self.entries[i].1);
            }
        }
        proof {
            lemma_pairs_map_dom(views, key);
        }
        None
    }

    /// The names to resolve in a program built for this table.
    pub fn uniform_names(&self) -> (r: Vec<String>)
        ensures
            names_view(r@) == requested_uniforms(self.entries@),
    {
        let mut r: Vec<String> = Vec::new();
        r.push(U_RESOLUTION.to_owned());
        r.push(U_TIME.to_owned());
        let mut i: usize = 0;
        while i < self.entries.len()
            invariant
                i <= self.entries@.len(),
                names_view(r@) =~= requested_uniforms(self.entries@.take(i as int)),
            decreases self.entries@.len() - i,
        {
            let ghost prev = r@;
            r.push(self.entries[i].1.clone());
            assert(names_view(r@) =~= names_view(prev).push(self.entries@[i as int].1@));
            assert(self.entries@.take(i + 1) =~= self.entries@.take(i as int).push(self.entries@[i as int]));
            assert(requested_uniforms(self.entries@.take(i + 1)) =~= requested_uniforms(
                self.entries@.take(i as int),
            ).push(self.entries@[i as int].1@));
            i = i + 1;
        }
        assert(self.entries@.take(self.entries@.len() as int) =~= self.entries@);
        r
    }
}

} // verus!
