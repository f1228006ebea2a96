use midkb_bind::config::CCBindMode;
use midkb_bind::config::CCConfig;
use midkb_bind::config::CCDirectionConfig;
use midkb_bind::config::CCTarget;
use midkb_bind::config::Config;
use midkb_bind::config::MouseAxis;
use midkb_bind::config::NoteBinding;
use midkb_bind::handler::CCDirection;
use midkb_bind::handler::ChannelVoiceEvent;
use midkb_bind::handler::MidiInputHandler;
use midkb_bind::handler::OutputAction;
use midkb_bind::handler::ReleaseOutcome;

fn config(
    cc: Vec<(u8, CCDirectionConfig)>,
    notes: Vec<(u8, u16)>,
    channel_filter: Option<u8>,
) -> Config {
    Config {
        cc: CCConfig { cc },
        notes: NoteBinding { notes },
        midi_device: String::new(),
        channel_filter,
    }
}

fn empty_config() -> Config {
    config(vec![], vec![], None)
}

fn note_on(channel: u8, note: u8, velocity: u8) -> ChannelVoiceEvent {
    ChannelVoiceEvent::NoteOn { channel, note, velocity }
}

fn note_off(channel: u8, note: u8) -> ChannelVoiceEvent {
    ChannelVoiceEvent::NoteOff { channel, note, velocity: 64 }
}

fn control_change(channel: u8, control: u8, value: u8) -> ChannelVoiceEvent {
    ChannelVoiceEvent::ControlChange { channel, control, value }
}

#[test]
fn first_sighting_infers_clockwise() {
    let mut handler = MidiInputHandler::new(empty_config());
    assert_eq!(handler.handle_cc(7, 64), CCDirection::Clockwise);
}

#[test]
fn direction_follows_last_two_values() {
    let mut handler = MidiInputHandler::new(empty_config());
    handler.handle_cc(7, 64);
    assert_eq!(handler.handle_cc(7, 70), CCDirection::Clockwise);
    assert_eq!(handler.handle_cc(7, 60), CCDirection::CounterClockwise);
    assert_eq!(handler.handle_cc(7, 61), CCDirection::Clockwise);
}

#[test]
fn equal_values_infer_counter_clockwise() {
    let mut handler = MidiInputHandler::new(empty_config());
    handler.handle_cc(3, 50);
    assert_eq!(handler.handle_cc(3, 50), CCDirection::CounterClockwise);
}

#[test]
fn independent_controls_have_independent_history() {
    let mut handler = MidiInputHandler::new(empty_config());
    handler.handle_cc(3, 100);
    assert_eq!(handler.handle_cc(4, 5), CCDirection::Clockwise);
}

#[test]
fn aliased_notes_give_one_press_and_one_release_edge() {
    let cfg = config(vec![], vec![(60, 12), (61, 12)], None);
    let mut handler = MidiInputHandler::new(cfg);
    assert_eq!(handler.handle_midi_msg(note_on(0, 60, 100)), vec![OutputAction::Press(12)]);
    assert_eq!(handler.handle_midi_msg(note_on(0, 61, 100)), vec![]);
    assert_eq!(handler.handle_midi_msg(note_off(0, 60)), vec![]);
    assert_eq!(handler.handle_midi_msg(note_off(0, 61)), vec![OutputAction::Release(12)]);
}

#[test]
fn note_press_and_release_edges_direct() {
    let mut handler = MidiInputHandler::new(empty_config());
    assert!(handler.handle_note_press(60, 12));
    assert!(!handler.handle_note_press(61, 12));
    assert_eq!(handler.handle_note_release(60, 12), ReleaseOutcome::StillHeld);
    assert_eq!(handler.handle_note_release(61, 12), ReleaseOutcome::ReleaseEdge);
}

#[test]
fn release_of_untracked_key_is_idempotent() {
    let cfg = config(vec![], vec![(60, 12)], None);
    let mut handler = MidiInputHandler::new(cfg);
    assert_eq!(handler.handle_midi_msg(note_off(0, 60)), vec![]);
    assert_eq!(handler.handle_midi_msg(note_off(0, 60)), vec![]);
    assert_eq!(handler.handle_note_release(60, 12), ReleaseOutcome::Untracked);
    assert_eq!(handler.handle_note_release(60, 12), ReleaseOutcome::Untracked);
}

#[test]
fn velocity_zero_note_on_acts_as_note_off() {
    let cfg = config(vec![], vec![(60, 12)], None);
    let mut with_zero_velocity = MidiInputHandler::new(cfg.clone());
    let mut with_note_off = MidiInputHandler::new(cfg);

    assert_eq!(
        with_zero_velocity.handle_midi_msg(note_on(0, 60, 100)),
        vec![OutputAction::Press(12)]
    );
    assert_eq!(
        with_note_off.handle_midi_msg(note_on(0, 60, 100)),
        vec![OutputAction::Press(12)]
    );

    assert_eq!(
        with_zero_velocity.handle_midi_msg(note_on(0, 60, 0)),
        vec![OutputAction::Release(12)]
    );
    assert_eq!(with_note_off.handle_midi_msg(note_off(0, 60)), vec![OutputAction::Release(12)]);
}

#[test]
fn channel_filter_drops_other_channels() {
    let toggle = CCDirectionConfig {
        bind_mode: CCBindMode::Toggle,
        counter_clockwise: None,
        clockwise: None,
        toggle_key: Some(200),
    };
    // 1-based filter channel 3 is 0-based channel 2.
    let cfg = config(vec![(5, toggle)], vec![(60, 12)], Some(3));
    let mut handler = MidiInputHandler::new(cfg);

    assert_eq!(handler.handle_midi_msg(note_on(0, 60, 100)), vec![]);
    assert_eq!(handler.handle_midi_msg(control_change(0, 5, 127)), vec![]);
    assert_eq!(handler.handle_midi_msg(note_off(1, 60)), vec![]);

    // The filtered control-change must not have touched the rotation
    // tracker: on the matching channel, control 5 is still unseen, so
    // the toggle still fires on its raw value.
    assert_eq!(
        handler.handle_midi_msg(control_change(2, 5, 127)),
        vec![OutputAction::Press(200)]
    );
    assert_eq!(handler.handle_midi_msg(note_on(2, 60, 100)), vec![OutputAction::Press(12)]);
}

#[test]
fn channel_filter_tracker_untouched() {
    let cfg = config(vec![], vec![], Some(3));
    let mut handler = MidiInputHandler::new(cfg);
    assert_eq!(handler.handle_midi_msg(control_change(0, 9, 100)), vec![]);
    // Had 100 been recorded, 50 would infer counter-clockwise; a first
    // sighting infers clockwise.
    assert_eq!(handler.handle_cc(9, 50), CCDirection::Clockwise);
}

#[test]
fn toggle_scenario() {
    let toggle = CCDirectionConfig {
        bind_mode: CCBindMode::Toggle,
        counter_clockwise: None,
        clockwise: None,
        toggle_key: Some(200),
    };
    let cfg = config(vec![(5, toggle)], vec![], None);
    let mut handler = MidiInputHandler::new(cfg);
    assert_eq!(
        handler.handle_midi_msg(control_change(0, 5, 127)),
        vec![OutputAction::Press(200)]
    );
    assert_eq!(
        handler.handle_midi_msg(control_change(0, 5, 0)),
        vec![OutputAction::Release(200)]
    );
    assert_eq!(handler.handle_midi_msg(control_change(0, 5, 64)), vec![]);
}

#[test]
fn toggle_without_key_does_nothing() {
    let toggle = CCDirectionConfig {
        bind_mode: CCBindMode::Toggle,
        counter_clockwise: None,
        clockwise: None,
        toggle_key: None,
    };
    let cfg = config(vec![(5, toggle)], vec![], None);
    let mut handler = MidiInputHandler::new(cfg);
    assert_eq!(handler.handle_midi_msg(control_change(0, 5, 127)), vec![]);
    assert_eq!(handler.handle_midi_msg(control_change(0, 5, 0)), vec![]);
}

#[test]
fn mouse_scenario() {
    let mouse = CCDirectionConfig {
        bind_mode: CCBindMode::Mouse,
        counter_clockwise: Some(CCTarget::Axis(MouseAxis::MinusX)),
        clockwise: Some(CCTarget::Axis(MouseAxis::PlusX)),
        toggle_key: None,
    };
    let cfg = config(vec![(2, mouse)], vec![], None);
    let mut handler = MidiInputHandler::new(cfg);
    // First sighting: clockwise, so +X.
    assert_eq!(
        handler.handle_midi_msg(control_change(0, 2, 10)),
        vec![OutputAction::MoveMouse(10, 0)]
    );
    // 5 <= 10: counter-clockwise, so -X.
    assert_eq!(
        handler.handle_midi_msg(control_change(0, 2, 5)),
        vec![OutputAction::MoveMouse(-10, 0)]
    );
}

#[test]
fn mouse_vertical_axes() {
    let mouse = CCDirectionConfig {
        bind_mode: CCBindMode::Mouse,
        counter_clockwise: Some(CCTarget::Axis(MouseAxis::MinusY)),
        clockwise: Some(CCTarget::Axis(MouseAxis::PlusY)),
        toggle_key: None,
    };
    let cfg = config(vec![(2, mouse)], vec![], None);
    let mut handler = MidiInputHandler::new(cfg);
    assert_eq!(
        handler.handle_midi_msg(control_change(0, 2, 10)),
        vec![OutputAction::MoveMouse(0, 10)]
    );
    assert_eq!(
        handler.handle_midi_msg(control_change(0, 2, 5)),
        vec![OutputAction::MoveMouse(0, -10)]
    );
}

#[test]
fn mouse_with_non_axis_target_moves_zero() {
    let mouse = CCDirectionConfig {
        bind_mode: CCBindMode::Mouse,
        counter_clockwise: None,
        clockwise: Some(CCTarget::Key(70)),
        toggle_key: None,
    };
    let cfg = config(vec![(2, mouse)], vec![], None);
    let mut handler = MidiInputHandler::new(cfg);
    // A zero delta is still emitted: a valid no-op.
    assert_eq!(
        handler.handle_midi_msg(control_change(0, 2, 10)),
        vec![OutputAction::MoveMouse(0, 0)]
    );
    assert_eq!(
        handler.handle_midi_msg(control_change(0, 2, 5)),
        vec![OutputAction::MoveMouse(0, 0)]
    );
}

#[test]
fn keyboard_binding_taps_by_direction() {
    let keyboard = CCDirectionConfig {
        bind_mode: CCBindMode::Keyboard,
        counter_clockwise: Some(CCTarget::Key(60)),
        clockwise: Some(CCTarget::Key(70)),
        toggle_key: None,
    };
    let cfg = config(vec![(1, keyboard)], vec![], None);
    let mut handler = MidiInputHandler::new(cfg);
    assert_eq!(
        handler.handle_midi_msg(control_change(0, 1, 10)),
        vec![OutputAction::Press(70)]
    );
    assert_eq!(
        handler.handle_midi_msg(control_change(0, 1, 5)),
        vec![OutputAction::Press(60)]
    );
}

#[test]
fn keyboard_binding_without_direction_key_does_nothing() {
    let keyboard = CCDirectionConfig {
        bind_mode: CCBindMode::Keyboard,
        counter_clockwise: None,
        clockwise: None,
        toggle_key: Some(99),
    };
    let cfg = config(vec![(1, keyboard)], vec![], None);
    let mut handler = MidiInputHandler::new(cfg);
    assert_eq!(handler.handle_midi_msg(control_change(0, 1, 10)), vec![]);
    assert_eq!(handler.handle_midi_msg(control_change(0, 1, 5)), vec![]);
}

#[test]
fn unbound_control_still_records_history() {
    let mut handler = MidiInputHandler::new(empty_config());
    assert_eq!(handler.handle_midi_msg(control_change(0, 9, 50)), vec![]);
    // 40 <= 50: the 50 was recorded even though control 9 is unbound.
    assert_eq!(handler.handle_cc(9, 40), CCDirection::CounterClockwise);
}

#[test]
fn unmapped_note_is_dropped() {
    let cfg = config(vec![], vec![(60, 12)], None);
    let mut handler = MidiInputHandler::new(cfg);
    assert_eq!(handler.handle_midi_msg(note_on(0, 61, 100)), vec![]);
    assert_eq!(handler.handle_midi_msg(note_off(0, 61)), vec![]);
}

#[test]
fn other_channel_voice_events_are_dropped() {
    let cfg = config(vec![], vec![(60, 12)], None);
    let mut handler = MidiInputHandler::new(cfg);
    assert_eq!(handler.handle_midi_msg(ChannelVoiceEvent::Other { channel: 0 }), vec![]);
}

#[test]
fn repeated_note_on_gives_no_second_press() {
    let cfg = config(vec![], vec![(60, 12)], None);
    let mut handler = MidiInputHandler::new(cfg);
    assert_eq!(handler.handle_midi_msg(note_on(0, 60, 100)), vec![OutputAction::Press(12)]);
    assert_eq!(handler.handle_midi_msg(note_on(0, 60, 90)), vec![]);
    assert_eq!(handler.handle_midi_msg(note_off(0, 60)), vec![OutputAction::Release(12)]);
}
