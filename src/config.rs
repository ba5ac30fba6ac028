use vstd::prelude::*;

use crate::midi::{Cc, Channel, DeviceId};

verus! {

/// Uniform name of each control number of one channel.
pub type ControlMap = Vec<(Cc, String)>;

/// Controls of each channel of one device.
pub type ChannelMap = Vec<(Channel, ControlMap)>;

/// Controller configuration: device, then channel, then control number, to
/// the name of the uniform that receives the control's value. Entries are
/// read in the order given; where two entries name the same control, the
/// later one wins.
pub type MidiConfig = Vec<(DeviceId, ChannelMap)>;

/// Runtime configuration.
pub struct Config {
    pub midi: MidiConfig,
}

impl Default for Config {
    /// A configuration without controller mappings.
    fn default() -> (r: Config)
        ensures
            r.midi@.len() == 0,
    {
        Config { midi: Vec::new() }
    }
}

/// The devices that `cfg` lists, each once.
pub fn device_ids(cfg: &MidiConfig) -> (r: Vec<DeviceId>)
    ensures
        r@.no_duplicates(),
        forall|d: DeviceId| r@.contains(d) <==> exists|i: int| 0 <= i < cfg@.len() && cfg@[i].0 == d,
{
    let mut r: Vec<DeviceId> = Vec::new();
    let mut i: usize = 0;
    while i < cfg.len()
        invariant
            i <= cfg@.len(),
            r@.no_duplicates(),
            forall|d: DeviceId| r@.contains(d) <==> exists|j: int| 0 <= j < i && cfg@[j].0 == d,
        decreases cfg@.len() - i,
    {
        let d = cfg[i].0;
        let mut seen = false;
        let mut k: usize = 0;
        while k < r.len()
            invariant
                k <= r@.len(),
                seen == exists|m: int| 0 <= m < k && r@[m] == d,
            decreases r@.len() - k,
        {
            if r[k] == d {
                seen = true;
            }
            k = k + 1;
        }
        let ghost prev = r@;
        if !seen {
            r.push(d);
            assert(forall|m: int| 0 <= m < prev.len() ==> r@[m] == prev[m]);
            assert(r@[prev.len() as int] == d);
        }
        assert forall|e: DeviceId| r@.contains(e) <==> exists|j: int| 0 <= j < i + 1 && cfg@[j].0 == e by {
            if r@.contains(e) {
                if e == d {
                    assert(cfg@[i as int].0 == d);
                } else {
                    let m = choose|m: int| 0 <= m < r@.len() && r@[m] == e;
                    assert(prev[m] == e);
                    assert(prev.contains(e));
                    let j = choose|j: int| 0 <= j < i && cfg@[j].0 == e;
                    assert(0 <= j < i + 1 && cfg@[j].0 == e);
                }
            }
            if exists|j: int| 0 <= j < i + 1 && cfg@[j].0 == e {
                if e == d {
                    if seen {
                        let m = choose|m: int| 0 <= m < k && r@[m] == d;
                        assert(r@[m] == d);
                    } else {
                        assert(r@[prev.len() as int] == d);
                    }
                } else {
                    let j = choose|j: int| 0 <= j < i + 1 && cfg@[j].0 == e;
                    assert(j < i);
                    assert(prev.contains(e));
                    let m = choose|m: int| 0 <= m < prev.len() && prev[m] == e;
                    assert(r@[m] == e);
                }
            }
        }
        i = i + 1;
    }
    r
}

} // verus!
