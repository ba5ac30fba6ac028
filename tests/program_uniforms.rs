use varjokuuntelu::controller::ControllerState;
use varjokuuntelu::frame::compose;
use varjokuuntelu::mapping::MappingTable;
use varjokuuntelu::midi::{CcEvent, CcKey};
use varjokuuntelu::shaders::Program;

fn names(v: &[&str]) -> Vec<String> {
    v.iter().map(|s| s.to_string()).collect()
}

#[test]
fn locations_are_recorded_per_name() {
    let p = Program::new(5, &names(&["u_resolution", "u_time", "u_fader"]), &vec![0, 1, -1]);
    assert_eq!(p.id, 5);
    assert_eq!(p.get_fragment_uniform("u_resolution"), Some(0));
    assert_eq!(p.get_fragment_uniform("u_time"), Some(1));
    assert_eq!(p.get_fragment_uniform("u_fader"), Some(-1));
    assert_eq!(p.get_fragment_uniform("u_other"), None);
}

#[test]
fn repeated_name_takes_last_location() {
    let p = Program::new(1, &names(&["u_a", "u_a"]), &vec![3, 4]);
    assert_eq!(p.get_fragment_uniform("u_a"), Some(4));
}

#[test]
fn unresolved_uniform_is_not_written() {
    let cfg = vec![(1, vec![(1, vec![(7, "u_fader".to_string()), (8, "u_gone".to_string())])])];
    let table = MappingTable::from_config(&cfg);
    let program = Program::new(1, &table.uniform_names(), &vec![0, 1, 2, -1]);
    let mut state = ControllerState::new();
    let events = vec![
        CcEvent { key: CcKey { device_id: 1, channel: 1, cc: 7 }, value: 10 },
        CcEvent { key: CcKey { device_id: 1, channel: 1, cc: 8 }, value: 20 },
    ];
    state.merge(&table, &events);
    let frame = compose(&program, &table, &state, 640, 480, 1500);
    assert_eq!(frame.width, 640);
    assert_eq!(frame.height, 480);
    assert_eq!(frame.elapsed_ms, 1500);
    assert_eq!(frame.controls.len(), 1);
    assert_eq!(frame.controls[0].name, "u_fader");
    assert_eq!(frame.controls[0].location, 2);
    assert_eq!(frame.controls[0].value, 10);
}

#[test]
fn uniform_missing_from_program_is_not_written() {
    let cfg = vec![(1, vec![(1, vec![(7, "u_fader".to_string())])])];
    let table = MappingTable::from_config(&cfg);
    let program = Program::new(1, &names(&["u_resolution", "u_time"]), &vec![0, 1]);
    let mut state = ControllerState::new();
    state.merge(&table, &vec![CcEvent { key: CcKey { device_id: 1, channel: 1, cc: 7 }, value: 3 }]);
    let frame = compose(&program, &table, &state, 1, 1, 0);
    assert!(frame.controls.is_empty());
}
