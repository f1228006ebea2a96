use midkb_bind::config::CCBindMode;
use midkb_bind::config::CCConfig;
use midkb_bind::config::CCDirectionConfig;
use midkb_bind::config::CCTarget;
use midkb_bind::config::MouseAxis;
use midkb_bind::config::NoteBinding;
use midkb_bind::config::parse_key_code;
use midkb_bind::config::resolve_target;

fn keyboard_binding(ccw: Option<CCTarget>, cw: Option<CCTarget>) -> CCDirectionConfig {
    CCDirectionConfig {
        bind_mode: CCBindMode::Keyboard,
        counter_clockwise: ccw,
        clockwise: cw,
        toggle_key: None,
    }
}

#[test]
fn get_key_finds_first_match() {
    let binding = NoteBinding { notes: vec![(60, 12), (61, 12), (62, 30)] };
    assert_eq!(binding.get_key(60), Some(12));
    assert_eq!(binding.get_key(61), Some(12));
    assert_eq!(binding.get_key(62), Some(30));
    assert_eq!(binding.get_key(63), None);
}

#[test]
fn get_key_empty_table() {
    let binding = NoteBinding { notes: vec![] };
    assert_eq!(binding.get_key(0), None);
    assert_eq!(binding.get_key(127), None);
}

#[test]
fn get_dir_config_finds_binding() {
    let cfg = CCConfig {
        cc: vec![
            (1, keyboard_binding(Some(CCTarget::Key(60)), Some(CCTarget::Key(70)))),
            (2, keyboard_binding(None, None)),
        ],
    };
    let found = cfg.get_dir_config(1).expect("binding for control 1");
    assert_eq!(found.clockwise, Some(CCTarget::Key(70)));
    assert_eq!(found.counter_clockwise, Some(CCTarget::Key(60)));
    assert!(cfg.get_dir_config(2).is_some());
    assert!(cfg.get_dir_config(3).is_none());
}

#[test]
fn resolve_target_axis_tokens() {
    assert_eq!(resolve_target(b"x"), Some(CCTarget::Axis(MouseAxis::PlusX)));
    assert_eq!(resolve_target(b"-x"), Some(CCTarget::Axis(MouseAxis::MinusX)));
    assert_eq!(resolve_target(b"y"), Some(CCTarget::Axis(MouseAxis::PlusY)));
    assert_eq!(resolve_target(b"-y"), Some(CCTarget::Axis(MouseAxis::MinusY)));
}

#[test]
fn resolve_target_key_codes() {
    assert_eq!(resolve_target(b"0"), Some(CCTarget::Key(0)));
    assert_eq!(resolve_target(b"60"), Some(CCTarget::Key(60)));
    assert_eq!(resolve_target(b"00060"), Some(CCTarget::Key(60)));
    assert_eq!(resolve_target(b"65535"), Some(CCTarget::Key(65535)));
}

#[test]
fn resolve_target_rejects_garbage() {
    assert_eq!(resolve_target(b""), None);
    assert_eq!(resolve_target(b"65536"), None);
    assert_eq!(resolve_target(b"999999999999999999999"), None);
    assert_eq!(resolve_target(b"12a"), None);
    assert_eq!(resolve_target(b"x "), None);
    assert_eq!(resolve_target(b"-z"), None);
    assert_eq!(resolve_target(b"-60"), None);
}

#[test]
fn parse_key_code_bounds() {
    assert_eq!(parse_key_code(b"468"), Some(468));
    assert_eq!(parse_key_code(b"65535"), Some(65535));
    assert_eq!(parse_key_code(b"65536"), None);
    assert_eq!(parse_key_code(b""), None);
    assert_eq!(parse_key_code(b" 7"), None);
}
