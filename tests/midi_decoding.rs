use varjokuuntelu::midi::{decode_cc, read_cc, CcEvent, CcKey, MidiMessage, RawMidi};

fn raw(device_id: i32, status: u8, data1: u8, data2: u8) -> RawMidi {
    RawMidi { device_id, message: MidiMessage { status, data1, data2 } }
}

fn value_for(events: &[CcEvent], key: CcKey) -> Option<u8> {
    events.iter().find(|e| e.key == key).map(|e| e.value)
}

#[test]
fn decode_control_change_on_first_channel() {
    let e = decode_cc(1, MidiMessage { status: 0xB0, data1: 7, data2: 64 }).unwrap();
    assert_eq!(e.key, CcKey { device_id: 1, channel: 1, cc: 7 });
    assert_eq!(e.value, 64);
}

#[test]
fn decode_control_change_on_last_channel() {
    let e = decode_cc(3, MidiMessage { status: 0xBF, data1: 1, data2: 127 }).unwrap();
    assert_eq!(e.key, CcKey { device_id: 3, channel: 16, cc: 1 });
    assert_eq!(e.value, 127);
}

#[test]
fn decode_rejects_note_on_and_note_off() {
    assert_eq!(decode_cc(1, MidiMessage { status: 0x90, data1: 60, data2: 100 }), None);
    assert_eq!(decode_cc(1, MidiMessage { status: 0x80, data1: 60, data2: 0 }), None);
    assert_eq!(decode_cc(1, MidiMessage { status: 0xC0, data1: 7, data2: 64 }), None);
}

#[test]
fn later_value_wins_within_one_poll() {
    let msgs = vec![raw(1, 0xB0, 7, 10), raw(1, 0xB0, 8, 5), raw(1, 0xB0, 7, 99)];
    let events = read_cc(&msgs, &vec![]);
    assert_eq!(events.len(), 2);
    assert_eq!(value_for(&events, CcKey { device_id: 1, channel: 1, cc: 7 }), Some(99));
    assert_eq!(value_for(&events, CcKey { device_id: 1, channel: 1, cc: 8 }), Some(5));
}

#[test]
fn non_control_change_messages_are_dropped() {
    let msgs = vec![raw(1, 0x90, 7, 10), raw(1, 0xE0, 0, 64)];
    assert!(read_cc(&msgs, &vec![]).is_empty());
}

#[test]
fn note_between_two_values_does_not_matter() {
    let msgs = vec![raw(2, 0xB3, 1, 1), raw(2, 0x93, 1, 50), raw(2, 0xB3, 1, 2)];
    let events = read_cc(&msgs, &vec![]);
    assert_eq!(events, vec![CcEvent { key: CcKey { device_id: 2, channel: 4, cc: 1 }, value: 2 }]);
}

#[test]
fn failed_device_contributes_nothing() {
    let msgs = vec![raw(1, 0xB0, 7, 10), raw(2, 0xB0, 7, 20)];
    let events = read_cc(&msgs, &vec![1]);
    assert_eq!(events, vec![CcEvent { key: CcKey { device_id: 2, channel: 1, cc: 7 }, value: 20 }]);
}

#[test]
fn same_control_on_two_devices_is_two_keys() {
    let msgs = vec![raw(1, 0xB0, 7, 10), raw(2, 0xB0, 7, 20)];
    let events = read_cc(&msgs, &vec![]);
    assert_eq!(events.len(), 2);
    assert_eq!(value_for(&events, CcKey { device_id: 1, channel: 1, cc: 7 }), Some(10));
    assert_eq!(value_for(&events, CcKey { device_id: 2, channel: 1, cc: 7 }), Some(20));
}

#[test]
fn empty_poll_gives_no_events() {
    assert!(read_cc(&vec![], &vec![]).is_empty());
}
