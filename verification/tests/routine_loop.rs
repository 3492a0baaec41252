use theramin::events::Event;
use theramin::events::EventType;
use theramin::midi::MidiMsg;
use theramin::routine::gui_devices_from_states;
use theramin::routine::ClickOutcome;
use theramin::routine::EventOutcome;
use theramin::routine::Msg;
use theramin::routine::State;

fn on(pitch: u8) -> MidiMsg {
    MidiMsg { status: 0x90, pitch, velocity: 127 }
}

fn off(pitch: u8) -> MidiMsg {
    MidiMsg { status: 0x80, pitch, velocity: 127 }
}

fn names(n: usize) -> Vec<String> {
    (0..n).map(|i| format!("mouse{}", i)).collect()
}

fn motion(device: u32, value: i32) -> Event {
    Event { ev_type: EventType::Relmotion, device, item: 0, value, minval: 0, maxval: 0 }
}

fn hold(device: u32, down: bool) -> Event {
    let value = if down { 1 } else { 0 };
    Event { ev_type: EventType::Button, device, item: 0, value, minval: 0, maxval: 0 }
}

fn disconnect(device: u32) -> Event {
    Event { ev_type: EventType::Disconnect, device, item: 0, value: 0, minval: 0, maxval: 0 }
}

#[test]
fn fresh_registry_is_unselected() {
    let s = State::new(names(3));
    let devs = gui_devices_from_states(&s.dev_states);
    assert_eq!(devs.len(), 3);
    for (i, d) in devs.iter().enumerate() {
        assert_eq!(d.id, i);
        assert_eq!(d.name, format!("mouse{}", i));
        assert!(!d.selected);
        assert!(!d.disconnected);
    }
    assert_eq!(s.selected_count(), 0);
}

#[test]
fn toggle_selects_and_deselects() {
    let mut s = State::new(names(2));
    match s.click_dev(0) {
        ClickOutcome::Selected { name } => assert_eq!(name, "mouse0"),
        _ => panic!("expected a selection"),
    }
    assert_eq!(s.selected_count(), 1);
    let devs = gui_devices_from_states(&s.dev_states);
    assert!(devs[0].selected);
    assert!(!devs[1].selected);
    match s.click_dev(0) {
        ClickOutcome::Deselected { flush } => assert_eq!(flush, vec![]),
        _ => panic!("expected a deselection"),
    }
    assert_eq!(s.selected_count(), 0);
    assert!(!gui_devices_from_states(&s.dev_states)[0].selected);
}

#[test]
fn toggle_off_while_sounding_flushes_one_note_off() {
    let mut s = State::new(names(1));
    s.click_dev(0);
    // fresh mapper: 128 notes of width 50, position 3200 -> pitch 64
    match s.handle_event(hold(0, true)) {
        EventOutcome::Playing { device, out } => {
            assert_eq!(device, 0);
            assert_eq!(out, vec![on(64)]);
        },
        _ => panic!("expected a button outcome"),
    }
    match s.click_dev(0) {
        ClickOutcome::Deselected { flush } => assert_eq!(flush, vec![off(64)]),
        _ => panic!("expected a deselection"),
    }
}

#[test]
fn click_out_of_range_is_ignored() {
    let mut s = State::new(names(1));
    assert!(matches!(s.click_dev(5), ClickOutcome::Ignored));
    assert_eq!(s.selected_count(), 0);
}

#[test]
fn slots_follow_device_order_of_selected() {
    let mut s = State::new(names(3));
    s.click_dev(2);
    s.click_dev(0);
    assert_eq!(s.selected_count(), 2);
    // device 0 publishes to slot 0, device 2 to slot 1
    match s.handle_event(motion(0, 10)) {
        EventOutcome::Motion { slot, .. } => assert_eq!(slot, 0),
        _ => panic!("expected a motion outcome"),
    }
    match s.handle_event(motion(2, 10)) {
        EventOutcome::Motion { slot, .. } => assert_eq!(slot, 1),
        _ => panic!("expected a motion outcome"),
    }
    // deselecting device 0 moves device 2 up to slot 0
    s.click_dev(0);
    match s.handle_event(motion(2, 10)) {
        EventOutcome::Motion { slot, .. } => assert_eq!(slot, 0),
        _ => panic!("expected a motion outcome"),
    }
}

#[test]
fn scenario_motion_on_one_device_leaves_the_other_slot_alone() {
    let mut s = State::new(names(2));
    s.click_dev(0);
    s.click_dev(1);
    // both voices start at position 3200
    match s.handle_event(motion(0, 10)) {
        EventOutcome::Motion { device, slot, pos, max_pos, .. } => {
            assert_eq!(device, 0);
            assert_eq!(slot, 0);
            assert_eq!(pos, 3210);
            assert_eq!(max_pos, 6400);
        },
        _ => panic!("expected a motion outcome"),
    }
    // device 1's position is untouched: its next move starts from 3200
    match s.handle_event(motion(1, 5)) {
        EventOutcome::Motion { device, slot, pos, .. } => {
            assert_eq!(device, 1);
            assert_eq!(slot, 1);
            assert_eq!(pos, 3205);
        },
        _ => panic!("expected a motion outcome"),
    }
}

#[test]
fn motion_plays_only_while_button_held() {
    let mut s = State::new(names(1));
    s.click_dev(0);
    match s.handle_event(motion(0, 100)) {
        EventOutcome::Motion { out, .. } => assert_eq!(out, vec![]),
        _ => panic!("expected a motion outcome"),
    }
    // the hold button comes down at position 3300: note 66 starts sounding
    match s.handle_event(hold(0, true)) {
        EventOutcome::Playing { out, .. } => assert_eq!(out, vec![on(66)]),
        _ => panic!("expected a button outcome"),
    }
    match s.handle_event(motion(0, 100)) {
        EventOutcome::Motion { out, pos, .. } => {
            assert_eq!(pos, 3400);
            assert_eq!(out, vec![off(66), on(68)]);
        },
        _ => panic!("expected a motion outcome"),
    }
    // letting go releases the moved-to note
    match s.handle_event(hold(0, false)) {
        EventOutcome::Playing { out, .. } => assert_eq!(out, vec![off(68)]),
        _ => panic!("expected a button outcome"),
    }
}

#[test]
fn motion_within_one_note_does_not_retrigger() {
    let mut s = State::new(names(1));
    s.click_dev(0);
    s.handle_event(hold(0, true));
    // 3200 -> 3210 stays inside note 64: no messages at all
    match s.handle_event(motion(0, 10)) {
        EventOutcome::Motion { out, .. } => assert_eq!(out, vec![]),
        _ => panic!("expected a motion outcome"),
    }
}

#[test]
fn events_for_unselected_or_unknown_devices_are_dropped() {
    let mut s = State::new(names(2));
    s.click_dev(0);
    assert!(matches!(s.handle_event(motion(1, 10)), EventOutcome::Ignored));
    assert!(matches!(s.handle_event(motion(7, 10)), EventOutcome::Ignored));
    assert!(matches!(s.handle_event(hold(1, true)), EventOutcome::Ignored));
}

#[test]
fn other_axes_buttons_and_kinds_are_dropped() {
    let mut s = State::new(names(1));
    s.click_dev(0);
    let y_motion = Event {
        ev_type: EventType::Relmotion,
        device: 0,
        item: 1,
        value: 10,
        minval: 0,
        maxval: 0,
    };
    assert!(matches!(s.handle_event(y_motion), EventOutcome::Ignored));
    let right_button =
        Event { ev_type: EventType::Button, device: 0, item: 1, value: 1, minval: 0, maxval: 0 };
    assert!(matches!(s.handle_event(right_button), EventOutcome::Ignored));
    let abs =
        Event { ev_type: EventType::Absmotion, device: 0, item: 0, value: 9, minval: 0, maxval: 0 };
    assert!(matches!(s.handle_event(abs), EventOutcome::Ignored));
    let scroll =
        Event { ev_type: EventType::Scroll, device: 0, item: 0, value: 1, minval: 0, maxval: 0 };
    assert!(matches!(s.handle_event(scroll), EventOutcome::Ignored));
}

#[test]
fn disconnect_tears_down_and_flushes() {
    let mut s = State::new(names(2));
    s.click_dev(0);
    s.click_dev(1);
    s.handle_event(hold(0, true));
    match s.handle_event(disconnect(0)) {
        EventOutcome::Disconnected { device, flush } => {
            assert_eq!(device, 0);
            assert_eq!(flush, vec![off(64)]);
        },
        _ => panic!("expected a disconnect outcome"),
    }
    let devs = gui_devices_from_states(&s.dev_states);
    assert!(!devs[0].selected);
    assert!(devs[0].disconnected);
    assert!(devs[1].selected);
    // device 1 moved up to slot 0
    match s.handle_event(motion(1, 10)) {
        EventOutcome::Motion { slot, .. } => assert_eq!(slot, 0),
        _ => panic!("expected a motion outcome"),
    }
}

#[test]
fn disconnect_of_unselected_device_marks_it_only() {
    let mut s = State::new(names(1));
    match s.handle_event(disconnect(0)) {
        EventOutcome::Disconnected { device, flush } => {
            assert_eq!(device, 0);
            assert_eq!(flush, vec![]);
        },
        _ => panic!("expected a disconnect outcome"),
    }
    assert!(gui_devices_from_states(&s.dev_states)[0].disconnected);
}

#[test]
fn scenario_rescan_flushes_sounding_device_before_rebuild() {
    let mut s = State::new(names(2));
    s.click_dev(0);
    s.handle_event(hold(0, true));
    // device 1 selected but silent: no flush for it
    s.click_dev(1);
    let flushes = s.teardown_all();
    assert_eq!(flushes, vec![(0, off(64))]);
    assert_eq!(s.selected_count(), 0);
    // the registry is then rebuilt wholesale from a fresh enumeration
    let rebuilt = State::new(names(3));
    assert_eq!(rebuilt.selected_count(), 0);
    assert_eq!(gui_devices_from_states(&rebuilt.dev_states).len(), 3);
}

#[test]
fn teardown_of_quiet_registry_flushes_nothing() {
    let mut s = State::new(names(2));
    s.click_dev(1);
    let flushes = s.teardown_all();
    assert_eq!(flushes, vec![]);
}

#[test]
fn commands_carry_their_payload() {
    let msg = Msg::ClickDev(3);
    match msg {
        Msg::ClickDev(i) => assert_eq!(i, 3),
        Msg::FindNewDevices => panic!("wrong command"),
    }
}
