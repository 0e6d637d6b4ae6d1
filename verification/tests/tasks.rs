use rp2350_hid_bridge::command::HidCommand;
use rp2350_hid_bridge::tasks::{
    command_actions, hidpp_read_waits_for_ready, led_actions, HidAction, HidppReadOutcome,
    KeyboardReport, LedAction, LedEvent, MouseReport,
};

fn kb(modifier: u8, keycodes: [u8; 6]) -> HidAction {
    HidAction::Keyboard(KeyboardReport { modifier, reserved: 0, leds: 0, keycodes })
}

fn ms(buttons: u8, x: i8, y: i8, wheel: i8) -> HidAction {
    HidAction::Mouse(MouseReport { buttons, x, y, wheel, pan: 0 })
}

fn total_move(actions: &[HidAction]) -> (i64, i64) {
    let mut dx = 0i64;
    let mut dy = 0i64;
    for a in actions {
        if let HidAction::Mouse(m) = a {
            dx += m.x as i64;
            dy += m.y as i64;
        }
    }
    (dx, dy)
}

#[test]
fn keyboard_commands() {
    assert_eq!(
        command_actions(&HidCommand::Key { code: 4, modifier: 1 }),
        vec![kb(1, [4, 0, 0, 0, 0, 0])]
    );
    assert_eq!(command_actions(&HidCommand::KeyRelease), vec![kb(0, [0; 6])]);
    assert_eq!(
        command_actions(&HidCommand::KeyPress { code: 44, modifier: 2 }),
        vec![kb(2, [44, 0, 0, 0, 0, 0]), HidAction::WaitMs(50), kb(0, [0; 6])]
    );
    assert_eq!(
        command_actions(&HidCommand::Combo { keys: [4, 5, 6, 0, 0, 0], modifier: 1 }),
        vec![kb(1, [4, 5, 6, 0, 0, 0]), HidAction::WaitMs(30), kb(0, [0; 6])]
    );
}

#[test]
fn relative_mouse_commands() {
    assert_eq!(
        command_actions(&HidCommand::Mouse { x: 50, y: -3, buttons: 1 }),
        vec![ms(1, 50, -3, 0)]
    );
    assert_eq!(command_actions(&HidCommand::Scroll { wheel: 5 }), vec![ms(0, 0, 0, 5)]);
    assert_eq!(
        command_actions(&HidCommand::Click { button: 2 }),
        vec![ms(2, 0, 0, 0), HidAction::WaitMs(50), ms(0, 0, 0, 0)]
    );
    assert_eq!(command_actions(&HidCommand::Delay { ms: 100 }), vec![HidAction::WaitMs(100)]);
}

#[test]
fn move_to_homes_then_moves_exactly_to_target() {
    let actions = command_actions(&HidCommand::MoveTo { x: 2699, y: 314 });
    assert_eq!(actions[..50], vec![ms(0, -127, -127, 0); 50][..]);
    assert_eq!(actions[50], HidAction::WaitMs(50));
    assert_eq!(*actions.last().unwrap(), HidAction::WaitMs(200));
    let approach = &actions[51..actions.len() - 1];
    // 2699 = 21 * 127 + 32: 22 steps on x; 314 = 2 * 127 + 60: 3 steps on y.
    assert_eq!(approach.len(), 22);
    assert_eq!(approach[0], ms(0, 127, 127, 0));
    assert_eq!(approach[2], ms(0, 127, 60, 0));
    assert_eq!(approach[3], ms(0, 127, 0, 0));
    assert_eq!(approach[21], ms(0, 32, 0, 0));
    assert_eq!(total_move(approach), (2699, 314));
    assert_eq!(total_move(&actions), (2699 - 6350, 314 - 6350));
}

#[test]
fn move_to_clamps_coordinates() {
    let actions = command_actions(&HidCommand::MoveTo { x: -40, y: 9000 });
    let approach = &actions[51..actions.len() - 1];
    assert_eq!(total_move(approach), (0, 8000));
    let origin = command_actions(&HidCommand::MoveTo { x: 0, y: 0 });
    assert_eq!(origin.len(), 52);
}

#[test]
fn click_at_moves_then_clicks_count_times() {
    let actions = command_actions(&HidCommand::ClickAt { x: 127, y: 0, button: 1, count: 2 });
    let moved = command_actions(&HidCommand::MoveTo { x: 127, y: 0 });
    assert_eq!(actions[..moved.len()], moved[..]);
    assert_eq!(
        actions[moved.len()..],
        [
            ms(1, 0, 0, 0),
            HidAction::WaitMs(50),
            ms(0, 0, 0, 0),
            HidAction::WaitMs(100),
            ms(1, 0, 0, 0),
            HidAction::WaitMs(50),
            ms(0, 0, 0, 0)
        ][..]
    );
    let none = command_actions(&HidCommand::ClickAt { x: 127, y: 0, button: 1, count: 0 });
    assert_eq!(none, moved);
}

#[test]
fn led_flashes_only_for_queued_commands() {
    assert!(led_actions(LedEvent::Heartbeat).is_empty());
    let flash = led_actions(LedEvent::CommandQueued);
    let one = [LedAction::On, LedAction::WaitMs(30), LedAction::Off, LedAction::WaitMs(30)];
    assert_eq!(flash.len(), 12);
    for chunk in flash.chunks(4) {
        assert_eq!(chunk, one);
    }
}

#[test]
fn hidpp_drain_waits_only_when_disabled() {
    assert!(hidpp_read_waits_for_ready(HidppReadOutcome::Disabled));
    assert!(!hidpp_read_waits_for_ready(HidppReadOutcome::Received));
    assert!(!hidpp_read_waits_for_ready(HidppReadOutcome::BufferOverflow));
    assert!(!hidpp_read_waits_for_ready(HidppReadOutcome::Sync));
}
