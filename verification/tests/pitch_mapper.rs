use theramin::input::InputHandler;

fn on(pitch: u8) -> theramin::midi::MidiMsg {
    theramin::midi::MidiMsg { status: 0x90, pitch, velocity: 127 }
}

fn off(pitch: u8) -> theramin::midi::MidiMsg {
    theramin::midi::MidiMsg { status: 0x80, pitch, velocity: 127 }
}

#[test]
fn scenario_three_notes_boundaries() {
    // num_notes=3, note_width=10, lowest_pitch=60: boundaries [10,20,30]
    let mut h = InputHandler::with_range(60, 3, 10);
    assert_eq!(h.max_pos(), 30);
    // drive to position 0 first (construction starts at the midpoint)
    h.handle_rel_move(-1000);
    assert_eq!(h.pos(), 0);
    let p = h.handle_rel_move(15);
    assert_eq!(h.pos(), 15);
    assert_eq!(p, 61);
    let p = h.handle_rel_move(25);
    assert_eq!(h.pos(), 29);
    assert_eq!(p, 62);
}

#[test]
fn clamps_low_to_zero() {
    let mut h = InputHandler::new(50);
    let p = h.handle_rel_move(i32::MIN);
    assert_eq!(h.pos(), 0);
    assert_eq!(p, 0);
    // another step below zero stays at zero
    h.handle_rel_move(-1);
    assert_eq!(h.pos(), 0);
}

#[test]
fn clamps_high_to_max_pos_minus_one() {
    let mut h = InputHandler::new(50);
    assert_eq!(h.max_pos(), 128 * 50);
    let p = h.handle_rel_move(i32::MAX);
    assert_eq!(h.pos(), 128 * 50 - 1);
    assert_eq!(p, 127);
    h.handle_rel_move(1);
    assert_eq!(h.pos(), 128 * 50 - 1);
}

#[test]
fn pitch_stays_in_range() {
    let mut h = InputHandler::with_range(100, 28, 3);
    let moves: [i32; 8] = [-5, 40, -1000, 7, 7, 7, 100000, -3];
    for m in moves {
        let p = h.handle_rel_move(m);
        assert!((100..128).contains(&p));
        assert_eq!(p, h.pitch_from_pos());
    }
}

#[test]
fn pitch_formula_matches_position() {
    let mut h = InputHandler::with_range(10, 5, 7);
    h.handle_rel_move(-1000); // position 0
    let mut pos: u32 = 0;
    loop {
        assert_eq!(h.pitch_from_pos(), 10 + (pos / 7) as u8);
        if pos == h.max_pos() - 1 {
            break;
        }
        h.handle_rel_move(1);
        pos += 1;
        assert_eq!(h.pos(), pos);
    }
}

#[test]
fn single_note_mapper() {
    let mut h = InputHandler::with_range(127, 1, 1);
    assert_eq!(h.max_pos(), 1);
    assert_eq!(h.pos(), 0);
    assert_eq!(h.pitch_from_pos(), 127);
    let p = h.handle_rel_move(100);
    assert_eq!(p, 127);
    assert_eq!(h.pos(), 0);
}

#[test]
fn new_covers_full_midi_range() {
    let mut h = InputHandler::new(50);
    assert_eq!(h.num_notes(), 128);
    assert_eq!(h.max_pos(), 6400);
    assert_eq!(h.pos(), 3200);
    assert_eq!(h.pitch_from_pos(), 64);
    assert!(!h.playing);
    h.handle_rel_move(-1000);
    h.playing = true;
    h.reset();
    assert_eq!(h.pos(), 3200);
    assert!(!h.playing);
}

#[test]
fn midpoint_start_keeps_unused_messages_out() {
    // sanity: moving without the button held never touches an emitter;
    // the mapper alone reports pitches
    let mut h = InputHandler::new(50);
    let mut m = theramin::midi::MidiHandler::new();
    let p = h.handle_rel_move(75);
    assert_eq!(h.pos(), 3275);
    assert_eq!(p, 65);
    // the button comes down afterwards: exactly one note-on for the new pitch
    let out = m.play(p);
    assert_eq!(out, vec![on(65)]);
    let _ = off(65);
}
