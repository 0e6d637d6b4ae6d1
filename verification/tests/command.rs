use rp2350_hid_bridge::command::{command_from_fields, trim_bytes, CommandFields, HidCommand};

fn fields() -> CommandFields {
    CommandFields {
        code: 0,
        modifier: 0,
        x: 0,
        y: 0,
        buttons: 0,
        button: 0,
        wheel: 0,
        keys: [0; 6],
        ms: 0,
        count: 1,
    }
}

#[test]
fn trims_ascii_whitespace_without_allocating() {
    assert_eq!(
        trim_bytes(b" \r\n\t{\"type\":\"delay\",\"ms\":1}\n"),
        br#"{"type":"delay","ms":1}"#
    );
    assert_eq!(trim_bytes(b"   "), b"");
}

#[test]
fn trim_keeps_inner_blanks_and_empty_input() {
    assert_eq!(trim_bytes(b""), b"");
    assert_eq!(trim_bytes(b"\x00a b\x1f"), b"a b");
    assert_eq!(trim_bytes(b"abc"), b"abc");
    let once = trim_bytes(b"\t x \r\n");
    assert_eq!(trim_bytes(once), once);
}

#[test]
fn mouse_fields_clamp_relative_axes() {
    let f = CommandFields { x: 200, y: -200, buttons: 3, ..fields() };
    match command_from_fields("mouse", &f) {
        Some(HidCommand::Mouse { x, y, buttons }) => {
            assert_eq!(x, 127);
            assert_eq!(y, -128);
            assert_eq!(buttons, 3);
        }
        _ => panic!("expected mouse command"),
    }
    let f = CommandFields { x: -5, y: 127, ..fields() };
    assert_eq!(
        command_from_fields("mouse", &f),
        Some(HidCommand::Mouse { x: -5, y: 127, buttons: 0 })
    );
}

#[test]
fn click_at_fields_default_button_and_count() {
    let f = CommandFields { x: 120, y: 240, button: 0, count: 0, ..fields() };
    match command_from_fields("click_at", &f) {
        Some(HidCommand::ClickAt { x, y, button, count }) => {
            assert_eq!(x, 120);
            assert_eq!(y, 240);
            assert_eq!(button, 1);
            assert_eq!(count, 1);
        }
        _ => panic!("expected click_at command"),
    }
    let f = CommandFields { x: 1, y: 2, button: 2, count: 3, ..fields() };
    assert_eq!(
        command_from_fields("click_at", &f),
        Some(HidCommand::ClickAt { x: 1, y: 2, button: 2, count: 3 })
    );
}

#[test]
fn every_command_name_maps_to_its_command() {
    let f = CommandFields {
        code: 4,
        modifier: 2,
        x: 2699,
        y: 314,
        buttons: 1,
        button: 4,
        wheel: -3,
        keys: [4, 5, 6, 0, 0, 0],
        ms: 100,
        count: 2,
    };
    assert_eq!(command_from_fields("key", &f), Some(HidCommand::Key { code: 4, modifier: 2 }));
    assert_eq!(command_from_fields("key_release", &f), Some(HidCommand::KeyRelease));
    assert_eq!(
        command_from_fields("keypress", &f),
        Some(HidCommand::KeyPress { code: 4, modifier: 2 })
    );
    assert_eq!(command_from_fields("click", &f), Some(HidCommand::Click { button: 4 }));
    assert_eq!(
        command_from_fields("move_to", &f),
        Some(HidCommand::MoveTo { x: 2699, y: 314 })
    );
    assert_eq!(command_from_fields("scroll", &f), Some(HidCommand::Scroll { wheel: -3 }));
    assert_eq!(
        command_from_fields("combo", &f),
        Some(HidCommand::Combo { keys: [4, 5, 6, 0, 0, 0], modifier: 2 })
    );
    assert_eq!(command_from_fields("delay", &f), Some(HidCommand::Delay { ms: 100 }));
}

#[test]
fn click_defaults_to_left_button() {
    assert_eq!(
        command_from_fields("click", &fields()),
        Some(HidCommand::Click { button: 1 })
    );
}

#[test]
fn unknown_command_names_are_refused() {
    assert_eq!(command_from_fields("jump", &fields()), None);
    assert_eq!(command_from_fields("", &fields()), None);
    assert_eq!(command_from_fields("Mouse", &fields()), None);
    assert_eq!(command_from_fields("key ", &fields()), None);
    assert_eq!(command_from_fields("keypres", &fields()), None);
}
