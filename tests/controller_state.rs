use varjokuuntelu::controller::ControllerState;
use varjokuuntelu::mapping::MappingTable;
use varjokuuntelu::midi::{CcEvent, CcKey};

fn key(cc: u8) -> CcKey {
    CcKey { device_id: 1, channel: 1, cc }
}

fn table() -> MappingTable {
    MappingTable::from_config(&vec![(1, vec![(1, vec![(7, "u_a".to_string()), (8, "u_b".to_string())])])])
}

#[test]
fn new_state_is_empty() {
    let s = ControllerState::new();
    assert_eq!(s.value_of(key(7)), None);
}

#[test]
fn merge_keeps_only_mapped_controls() {
    let mut s = ControllerState::new();
    s.merge(&table(), &vec![CcEvent { key: key(7), value: 1 }, CcEvent { key: key(9), value: 2 }]);
    assert_eq!(s.value_of(key(7)), Some(1));
    assert_eq!(s.value_of(key(9)), None);
}

#[test]
fn merge_overwrites_and_keeps_untouched_values() {
    let mut s = ControllerState::new();
    s.merge(&table(), &vec![CcEvent { key: key(7), value: 1 }, CcEvent { key: key(8), value: 2 }]);
    s.merge(&table(), &vec![CcEvent { key: key(7), value: 3 }]);
    assert_eq!(s.value_of(key(7)), Some(3));
    assert_eq!(s.value_of(key(8)), Some(2));
    assert_eq!(s.values.len(), 2);
}
