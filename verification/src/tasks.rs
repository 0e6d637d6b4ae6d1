use vstd::prelude::*;
use crate::command::HidCommand;

verus! {

/// A boot-protocol-shaped keyboard input report.
#[derive(Clone, Copy, Debug, PartialEq, Eq)]
pub struct KeyboardReport {
    pub modifier: u8,
    pub reserved: u8,
    pub leds: u8,
    pub keycodes: [u8; 6],
}

/// A relative mouse input report.
#[derive(Clone, Copy, Debug, PartialEq, Eq, Structural)]
pub struct MouseReport {
    pub buttons: u8,
    pub x: i8,
    pub y: i8,
    pub wheel: i8,
    pub pan: i8,
}

/// One step of carrying out a command: send a keyboard report, send a mouse
/// report, or wait.
#[derive(Clone, Copy, Debug, PartialEq, Eq)]
pub enum HidAction {
    Keyboard(KeyboardReport),
    Mouse(MouseReport),
    WaitMs(u64),
}

/// How long a key stays down for `keypress`.
pub const KEY_HOLD_MS: u64 = 50;

/// How long the keys of a `combo` stay down.
pub const COMBO_HOLD_MS: u64 = 30;

/// How long a mouse button stays down for a click.
pub const CLICK_HOLD_MS: u64 = 50;

/// The pause between two clicks of `click_at`.
pub const CLICK_GAP_MS: u64 = 100;

/// How many full-speed moves towards the top-left corner home the cursor.
pub const HOME_STEPS: usize = 50;

/// The pause after homing the cursor.
pub const HOME_SETTLE_MS: u64 = 50;

/// The pause after reaching an absolute position.
pub const MOVE_SETTLE_MS: u64 = 200;

/// Absolute coordinates are clamped into `0..=MAX_COORD`.
pub const MAX_COORD: i32 = 8000;

/// The largest relative move of one report.
pub const MAX_STEP: i32 = 127;

pub open spec fn key_down(code: u8, modifier: u8) -> KeyboardReport {
    KeyboardReport { modifier, reserved: 0, leds: 0, keycodes: [code, 0, 0, 0, 0, 0] }
}

pub open spec fn keys_down(keys: [u8; 6], modifier: u8) -> KeyboardReport {
    KeyboardReport { modifier, reserved: 0, leds: 0, keycodes: keys }
}

pub open spec fn all_keys_up() -> KeyboardReport {
    KeyboardReport { modifier: 0, reserved: 0, leds: 0, keycodes: [0, 0, 0, 0, 0, 0] }
}

pub open spec fn mouse(buttons: u8, x: i8, y: i8, wheel: i8) -> MouseReport {
    MouseReport { buttons, x, y, wheel, pan: 0 }
}

/// Press `button`, hold it, release every button.
pub open spec fn click_plan(button: u8) -> Seq<HidAction> {
    seq![
        HidAction::Mouse(mouse(button, 0, 0, 0)),
        HidAction::WaitMs(CLICK_HOLD_MS),
        HidAction::Mouse(mouse(0, 0, 0, 0)),
    ]
}

/// `n` clicks of `button`, a pause between each two.
pub open spec fn clicks_plan(button: u8, n: nat) -> Seq<HidAction>
    decreases n,
{
    if n == 0 {
        Seq::empty()
    } else if n == 1 {
        click_plan(button)
    } else {
        clicks_plan(button, (n - 1) as nat) + seq![HidAction::WaitMs(CLICK_GAP_MS)] + click_plan(button)
    }
}

/// An absolute coordinate clamped into `0..=MAX_COORD`.
pub open spec fn clamp_coord(v: i32) -> i32 {
    if v < 0 {
        0
    } else if v > MAX_COORD {
        MAX_COORD
    } else {
        v
    }
}

pub open spec fn min_step(v: nat) -> nat {
    if v < MAX_STEP {
        v
    } else {
        MAX_STEP as nat
    }
}

/// The report that moves the cursor into the top-left corner at full speed.
pub open spec fn home_report() -> MouseReport {
    mouse(0, -127i8, -127i8, 0)
}

/// `HOME_STEPS` full-speed moves up and left, then a pause.
pub open spec fn home_plan() -> Seq<HidAction> {
    Seq::new(HOME_STEPS as nat, |i: int| HidAction::Mouse(home_report())) + seq![
        HidAction::WaitMs(HOME_SETTLE_MS),
    ]
}

/// Moves right by `dx` and down by `dy` in steps of at most `MAX_STEP` per
/// axis, each axis going at full step until it has arrived.
pub open spec fn approach_plan(dx: nat, dy: nat) -> Seq<HidAction>
    decreases dx + dy,
{
    if dx == 0 && dy == 0 {
        Seq::empty()
    } else {
        let sx = min_step(dx);
        let sy = min_step(dy);
        seq![HidAction::Mouse(mouse(0, sx as i8, sy as i8, 0))] + approach_plan(
            (dx - sx) as nat,
            (dy - sy) as nat,
        )
    }
}

/// Home the cursor, move it to the clamped absolute position, pause.
pub open spec fn move_to_plan(x: i32, y: i32) -> Seq<HidAction> {
    home_plan() + approach_plan(clamp_coord(x) as nat, clamp_coord(y) as nat) + seq![
        HidAction::WaitMs(MOVE_SETTLE_MS),
    ]
}

/// The actions that carry out `cmd`, in order.
pub open spec fn command_plan(cmd: HidCommand) -> Seq<HidAction> {
    match cmd {
        HidCommand::Key { code, modifier } => seq![HidAction::Keyboard(key_down(code, modifier))],
        HidCommand::KeyRelease => seq![HidAction::Keyboard(all_keys_up())],
        HidCommand::KeyPress { code, modifier } => seq![
            HidAction::Keyboard(key_down(code, modifier)),
            HidAction::WaitMs(KEY_HOLD_MS),
            HidAction::Keyboard(all_keys_up()),
        ],
        HidCommand::Mouse { x, y, buttons } => seq![HidAction::Mouse(mouse(buttons, x, y, 0))],
        HidCommand::Click { button } => click_plan(button),
        HidCommand::MoveTo { x, y } => move_to_plan(x, y),
        HidCommand::ClickAt { x, y, button, count } => move_to_plan(x, y) + clicks_plan(
            button,
            count as nat,
        ),
        HidCommand::Scroll { wheel } => seq![HidAction::Mouse(mouse(0, 0, 0, wheel))],
        HidCommand::Combo { keys, modifier } => seq![
            HidAction::Keyboard(keys_down(keys, modifier)),
            HidAction::WaitMs(COMBO_HOLD_MS),
            HidAction::Keyboard(all_keys_up()),
        ],
        HidCommand::Delay { ms } => seq![HidAction::WaitMs(ms as u64)],
    }
}

/// How far the mouse reports of `plan` move the cursor right, in total.
pub open spec fn moved_x(plan: Seq<HidAction>) -> int
    decreases plan.len(),
{
    if plan.len() == 0 {
        0
    } else {
        (match plan[0] {
            HidAction::Mouse(m) => m.x as int,
            _ => 0,
        }) + moved_x(plan.drop_first())
    }
}

/// How far the mouse reports of `plan` move the cursor down, in total.
pub open spec fn moved_y(plan: Seq<HidAction>) -> int
    decreases plan.len(),
{
    if plan.len() == 0 {
        0
    } else {
        (match plan[0] {
            HidAction::Mouse(m) => m.y as int,
            _ => 0,
        }) + moved_y(plan.drop_first())
    }
}

proof fn lemma_moved_concat(a: Seq<HidAction>, b: Seq<HidAction>)
    ensures
        moved_x(a + b) == moved_x(a) + moved_x(b),
        moved_y(a + b) == moved_y(a) + moved_y(b),
    decreases a.len(),
{
    if a.len() == 0 {
        assert(a + b =~= b);
    } else {
        assert((a + b).drop_first() =~= a.drop_first() + b);
        lemma_moved_concat(a.drop_first(), b);
    }
}

proof fn lemma_home_moves(n: nat)
    ensures
        moved_x(Seq::new(n, |i: int| HidAction::Mouse(home_report()))) == -127 * n,
        moved_y(Seq::new(n, |i: int| HidAction::Mouse(home_report()))) == -127 * n,
    decreases n,
{
    if n > 0 {
        let s = Seq::new(n, |i: int| HidAction::Mouse(home_report()));
        assert(s.drop_first() =~= Seq::new((n - 1) as nat, |i: int| HidAction::Mouse(home_report())));
        lemma_home_moves((n - 1) as nat);
    }
}

proof fn lemma_approach(dx: nat, dy: nat)
    ensures
        moved_x(approach_plan(dx, dy)) == dx,
        moved_y(approach_plan(dx, dy)) == dy,
        forall|k: int|
            0 <= k < approach_plan(dx, dy).len() ==> (#[trigger] approach_plan(dx, dy)[k] matches HidAction::Mouse(m) && m.buttons == 0 && 0 <= m.x <= MAX_STEP && 0 <= m.y <= MAX_STEP
                && m.wheel == 0 && m.pan == 0),
    decreases dx + dy,
{
    if dx != 0 || dy != 0 {
        let sx = min_step(dx);
        let sy = min_step(dy);
        let rest = approach_plan((dx - sx) as nat, (dy - sy) as nat);
        let head = seq![HidAction::Mouse(mouse(0, sx as i8, sy as i8, 0))];
        lemma_approach((dx - sx) as nat, (dy - sy) as nat);
        lemma_moved_concat(head, rest);
        assert(head.drop_first() =~= Seq::<HidAction>::empty());
        assert(sx <= 127 && sy <= 127);
        assert((sx as i8) as int == sx);
        assert((sy as i8) as int == sy);
        assert(moved_x(Seq::<HidAction>::empty()) == 0);
        assert(moved_y(Seq::<HidAction>::empty()) == 0);
        assert(moved_x(head) == sx);
        assert(moved_y(head) == sy);
        assert(approach_plan(dx, dy) == head + rest);
        assert forall|k: int| 0 <= k < approach_plan(dx, dy).len() implies (#[trigger] approach_plan(dx, dy)[k] matches HidAction::Mouse(m) && m.buttons == 0 && 0 <= m.x <= MAX_STEP && 0
            <= m.y <= MAX_STEP && m.wheel == 0 && m.pan == 0) by {
            if k > 0 {
                assert(approach_plan(dx, dy)[k] == rest[k - 1]);
            }
        }
    }
}

/// `move_to` and `click_at` first push the cursor into the top-left corner
/// with full-speed moves, then move it by exactly the clamped target
/// coordinates in steps of at most `MAX_STEP`, with no button down.
pub proof fn law_move_to_reaches_target(x: i32, y: i32)
    ensures
        0 <= clamp_coord(x) <= MAX_COORD,
        0 <= clamp_coord(y) <= MAX_COORD,
        move_to_plan(x, y) == home_plan() + approach_plan(clamp_coord(x) as nat, clamp_coord(y) as nat)
            + seq![HidAction::WaitMs(MOVE_SETTLE_MS)],
        moved_x(home_plan()) == -127 * HOME_STEPS,
        moved_y(home_plan()) == -127 * HOME_STEPS,
        moved_x(approach_plan(clamp_coord(x) as nat, clamp_coord(y) as nat)) == clamp_coord(x),
        moved_y(approach_plan(clamp_coord(x) as nat, clamp_coord(y) as nat)) == clamp_coord(y),
        moved_x(move_to_plan(x, y)) == clamp_coord(x) - 127 * HOME_STEPS,
        moved_y(move_to_plan(x, y)) == clamp_coord(y) - 127 * HOME_STEPS,
        forall|k: int|
            0 <= k < approach_plan(clamp_coord(x) as nat, clamp_coord(y) as nat).len() ==> (
            #[trigger] approach_plan(clamp_coord(x) as nat, clamp_coord(y) as nat)[k] matches HidAction::Mouse(m) && m.buttons == 0 && 0 <= m.x <= MAX_STEP && 0 <= m.y <= MAX_STEP),
{
    let homes = Seq::new(HOME_STEPS as nat, |i: int| HidAction::Mouse(home_report()));
    let settle = seq![HidAction::WaitMs(HOME_SETTLE_MS)];
    let done = seq![HidAction::WaitMs(MOVE_SETTLE_MS)];
    let approach = approach_plan(clamp_coord(x) as nat, clamp_coord(y) as nat);
    lemma_home_moves(HOME_STEPS as nat);
    lemma_moved_concat(homes, settle);
    assert(settle.drop_first() =~= Seq::<HidAction>::empty());
    assert(done.drop_first() =~= Seq::<HidAction>::empty());
    assert(moved_x(Seq::<HidAction>::empty()) == 0);
    assert(moved_y(Seq::<HidAction>::empty()) == 0);
    assert(moved_x(settle) == 0 && moved_y(settle) == 0);
    assert(moved_x(done) == 0 && moved_y(done) == 0);
    assert(home_plan() == homes + settle);
    lemma_approach(clamp_coord(x) as nat, clamp_coord(y) as nat);
    lemma_moved_concat(home_plan(), approach);
    lemma_moved_concat(home_plan() + approach, done);
}

/// Number of reports needed to move by `d` in steps of at most 127.
pub open spec fn steps_for(d: nat) -> nat {
    ((d + 126) / 127) as nat
}

proof fn lemma_approach_len(dx: nat, dy: nat)
    ensures
        approach_plan(dx, dy).len() == if steps_for(dx) < steps_for(dy) {
            steps_for(dy)
        } else {
            steps_for(dx)
        },
    decreases dx + dy,
{
    if dx != 0 || dy != 0 {
        let sx = min_step(dx);
        let sy = min_step(dy);
        lemma_approach_len((dx - sx) as nat, (dy - sy) as nat);
        assert(dx > 0 ==> steps_for((dx - sx) as nat) + 1 == steps_for(dx));
        assert(dx == 0 ==> steps_for((dx - sx) as nat) == 0 && steps_for(dx) == 0);
        assert(dy > 0 ==> steps_for((dy - sy) as nat) + 1 == steps_for(dy));
        assert(dy == 0 ==> steps_for((dy - sy) as nat) == 0 && steps_for(dy) == 0);
    } else {
        assert(steps_for(0) == 0);
    }
}

/// The move along one axis in step `k` of approaching a distance `d`:
/// full steps of 127 until less is left, then the rest, then nothing.
pub open spec fn step_move(d: int, k: int) -> int {
    if d - 127 * k >= 127 {
        127
    } else if d - 127 * k > 0 {
        d - 127 * k
    } else {
        0
    }
}

proof fn lemma_approach_steps(dx: nat, dy: nat)
    ensures
        forall|k: int|
            0 <= k < approach_plan(dx, dy).len() ==> (#[trigger] approach_plan(dx, dy)[k] matches HidAction::Mouse(m) && m.x == step_move(dx as int, k) && m.y == step_move(dy as int, k)),
    decreases dx + dy,
{
    if dx != 0 || dy != 0 {
        let sx = min_step(dx);
        let sy = min_step(dy);
        let rest = approach_plan((dx - sx) as nat, (dy - sy) as nat);
        lemma_approach_steps((dx - sx) as nat, (dy - sy) as nat);
        assert((sx as i8) as int == sx);
        assert((sy as i8) as int == sy);
        assert forall|k: int| 0 <= k < approach_plan(dx, dy).len() implies (#[trigger] approach_plan(dx, dy)[k] matches HidAction::Mouse(m) && m.x == step_move(dx as int, k) && m.y == step_move(dy as int, k)) by {
            if k > 0 {
                assert(approach_plan(dx, dy)[k] == rest[k - 1]);
                assert(step_move((dx - sx) as int, k - 1) == step_move(dx as int, k));
                assert(step_move((dy - sy) as int, k - 1) == step_move(dy as int, k));
            }
        }
    }
}

/// `move_to` sends, in order: 50 reports that each move up and left by 127
/// with no button down, a 50 ms pause, then reports with no button down
/// that each move right and down by 0 to 127 and together move by exactly
/// the target clamped into 0..=8000 (as many as the longer axis needs in
/// steps of 127), and finally a 200 ms pause.
pub proof fn law_move_to_plan(x: i32, y: i32)
    ensures
        ({
            let p = command_plan(HidCommand::MoveTo { x, y });
            let tx: int = if x < 0 { 0 } else if x > 8000 { 8000 } else { x as int };
            let ty: int = if y < 0 { 0 } else if y > 8000 { 8000 } else { y as int };
            let nx: int = (tx + 126) / 127;
            let ny: int = (ty + 126) / 127;
            let n: int = if nx < ny { ny } else { nx };
            &&& p.len() == 52 + n
            &&& forall|k: int| 0 <= k < 50 ==> is_mouse_report(#[trigger] p[k], 0, -127, -127, 0)
            &&& is_wait(p[50], 50)
            &&& forall|k: int|
                51 <= k < 51 + n ==> (#[trigger] p[k] matches HidAction::Mouse(m) && m.buttons == 0
                    && 0 <= m.x <= 127 && 0 <= m.y <= 127 && m.wheel == 0 && m.pan == 0)
            &&& forall|k: int|
                0 <= k < n ==> (#[trigger] p[51 + k] matches HidAction::Mouse(m) && m.x == step_move(tx, k)
                    && m.y == step_move(ty, k))
            &&& moved_x(p.subrange(51, 51 + n)) == tx
            &&& moved_y(p.subrange(51, 51 + n)) == ty
            &&& is_wait(p[51 + n], 200)
        }),
{
    let p = command_plan(HidCommand::MoveTo { x, y });
    let cx = clamp_coord(x) as nat;
    let cy = clamp_coord(y) as nat;
    let homes = Seq::new(HOME_STEPS as nat, |i: int| HidAction::Mouse(home_report()));
    let a = approach_plan(cx, cy);
    lemma_approach(cx, cy);
    lemma_approach_len(cx, cy);
    lemma_approach_steps(cx, cy);
    assert(p == homes + seq![HidAction::WaitMs(HOME_SETTLE_MS)] + a + seq![HidAction::WaitMs(MOVE_SETTLE_MS)]);
    let n = a.len() as int;
    assert(p.subrange(51, 51 + n) =~= a);
    assert forall|k: int| 0 <= k < 50 implies is_mouse_report(#[trigger] p[k], 0, -127, -127, 0) by {
        assert(p[k] == homes[k]);
    }
    assert forall|k: int| 51 <= k < 51 + n implies (#[trigger] p[k] matches HidAction::Mouse(m) && m.buttons
        == 0 && 0 <= m.x <= 127 && 0 <= m.y <= 127 && m.wheel == 0 && m.pan == 0) by {
        assert(p[k] == a[k - 51]);
    }
    assert forall|k: int| 0 <= k < n implies (#[trigger] p[51 + k] matches HidAction::Mouse(m) && m.x
        == step_move(cx as int, k) && m.y == step_move(cy as int, k)) by {
        assert(p[51 + k] == a[k]);
    }
}

/// Every command that presses keys or a mouse button ends by releasing
/// them all: `keypress`, `combo` and `key_release` end with an all-keys-up
/// report, `click` and a `click_at` of at least one click with a
/// no-buttons mouse report. Only `key` leaves a key down.
pub proof fn law_commands_end_released(cmd: HidCommand)
    ensures
        (cmd is KeyPress || cmd is Combo || cmd is KeyRelease) ==> command_plan(cmd).last()
            == HidAction::Keyboard(all_keys_up()),
        (cmd is Click || (cmd matches HidCommand::ClickAt { count, .. } && count > 0)) ==> command_plan(
            cmd,
        ).last() == HidAction::Mouse(mouse(0, 0, 0, 0)),
{
    match cmd {
        HidCommand::ClickAt { x, y, button, count } => {
            if count > 0 {
                lemma_clicks_end_released(button, count as nat);
            }
        },
        _ => {},
    }
}

proof fn lemma_clicks_end_released(button: u8, n: nat)
    requires
        n > 0,
    ensures
        clicks_plan(button, n).len() > 0,
        clicks_plan(button, n).last() == HidAction::Mouse(mouse(0, 0, 0, 0)),
    decreases n,
{
    if n > 1 {
        lemma_clicks_end_released(button, (n - 1) as nat);
    }
}

/// The report of a key going down alone with `modifier`.
pub open spec fn is_single_key_report(a: HidAction, code: u8, modifier: u8) -> bool {
    a matches HidAction::Keyboard(r) && r.modifier == modifier && r.reserved == 0 && r.leds == 0
        && r.keycodes@ == seq![code, 0u8, 0u8, 0u8, 0u8, 0u8]
}

/// The report of every key and modifier up.
pub open spec fn is_release_report(a: HidAction) -> bool {
    a matches HidAction::Keyboard(r) && r.modifier == 0 && r.reserved == 0 && r.leds == 0
        && r.keycodes@ == seq![0u8, 0u8, 0u8, 0u8, 0u8, 0u8]
}

/// A mouse report with the given buttons, motion and wheel.
pub open spec fn is_mouse_report(a: HidAction, buttons: u8, x: int, y: int, wheel: int) -> bool {
    a matches HidAction::Mouse(m) && m.buttons == buttons && m.x == x && m.y == y && m.wheel
        == wheel && m.pan == 0
}

/// A pause of exactly `ms` milliseconds.
pub open spec fn is_wait(a: HidAction, ms: int) -> bool {
    a matches HidAction::WaitMs(v) && v == ms
}

/// What the commands without cursor positioning send, action by action:
/// `key` one report with the key down; `key_release` one report with all
/// keys up; `keypress` the key down, 50 ms, all keys up; `combo` the six
/// keys down, 30 ms, all keys up; `mouse` one report with its motion and
/// buttons; `scroll` one report with its wheel amount and nothing else;
/// `click` the button down, 50 ms, all buttons up; `delay` one pause of
/// exactly its milliseconds and no report.
pub proof fn law_simple_command_plans(cmd: HidCommand)
    ensures
        cmd matches HidCommand::Key { code, modifier } ==> command_plan(cmd).len() == 1
            && is_single_key_report(command_plan(cmd)[0], code, modifier),
        cmd is KeyRelease ==> command_plan(cmd).len() == 1 && is_release_report(command_plan(cmd)[0]),
        cmd matches HidCommand::KeyPress { code, modifier } ==> command_plan(cmd).len() == 3
            && is_single_key_report(command_plan(cmd)[0], code, modifier)
            && is_wait(command_plan(cmd)[1], 50)
            && is_release_report(command_plan(cmd)[2]),
        cmd matches HidCommand::Combo { keys, modifier } ==> command_plan(cmd).len() == 3
            && (command_plan(cmd)[0] matches HidAction::Keyboard(r) && r.modifier == modifier
            && r.reserved == 0 && r.leds == 0 && r.keycodes@ == keys@)
            && is_wait(command_plan(cmd)[1], 30)
            && is_release_report(command_plan(cmd)[2]),
        cmd matches HidCommand::Mouse { x, y, buttons } ==> command_plan(cmd).len() == 1
            && is_mouse_report(command_plan(cmd)[0], buttons, x as int, y as int, 0),
        cmd matches HidCommand::Scroll { wheel } ==> command_plan(cmd).len() == 1
            && is_mouse_report(command_plan(cmd)[0], 0, 0, 0, wheel as int),
        cmd matches HidCommand::Click { button } ==> command_plan(cmd).len() == 3
            && is_mouse_report(command_plan(cmd)[0], button, 0, 0, 0)
            && is_wait(command_plan(cmd)[1], 50)
            && is_mouse_report(command_plan(cmd)[2], 0, 0, 0, 0),
        cmd matches HidCommand::Delay { ms } ==> command_plan(cmd).len() == 1
            && is_wait(command_plan(cmd)[0], ms as int),
{
    match cmd {
        HidCommand::Key { code, modifier } => {
            assert(key_down(code, modifier).keycodes@ =~= seq![code, 0u8, 0u8, 0u8, 0u8, 0u8]);
        },
        HidCommand::KeyPress { code, modifier } => {
            assert(key_down(code, modifier).keycodes@ =~= seq![code, 0u8, 0u8, 0u8, 0u8, 0u8]);
            assert(all_keys_up().keycodes@ =~= seq![0u8, 0u8, 0u8, 0u8, 0u8, 0u8]);
        },
        _ => {
            assert(all_keys_up().keycodes@ =~= seq![0u8, 0u8, 0u8, 0u8, 0u8, 0u8]);
        },
    }
}

proof fn lemma_clicks_shape(button: u8, n: nat)
    ensures
        clicks_plan(button, n).len() == if n == 0 { 0 } else { 4 * n - 1 },
        forall|k: int|
            0 <= k < n ==> is_mouse_report(#[trigger] clicks_plan(button, n)[4 * k], button, 0, 0, 0)
                && is_wait(clicks_plan(button, n)[4 * k + 1], 50)
                && is_mouse_report(clicks_plan(button, n)[4 * k + 2], 0, 0, 0, 0),
        forall|k: int| 0 <= k < n - 1 ==> is_wait(#[trigger] clicks_plan(button, n)[4 * k + 3], 100),
    decreases n,
{
    if n > 1 {
        let prev = clicks_plan(button, (n - 1) as nat);
        lemma_clicks_shape(button, (n - 1) as nat);
        let p = clicks_plan(button, n);
        assert(p == prev + seq![HidAction::WaitMs(CLICK_GAP_MS)] + click_plan(button));
        assert forall|k: int| 0 <= k < n implies is_mouse_report(
            #[trigger] p[4 * k],
            button,
            0,
            0,
            0,
        ) && is_wait(p[4 * k + 1], 50) && is_mouse_report(p[4 * k + 2], 0, 0, 0, 0) by {
            if k < n - 1 {
                assert(p[4 * k] == prev[4 * k]);
                assert(p[4 * k + 1] == prev[4 * k + 1]);
                assert(p[4 * k + 2] == prev[4 * k + 2]);
            } else {
                assert(p[4 * k] == click_plan(button)[0]);
                assert(p[4 * k + 1] == click_plan(button)[1]);
                assert(p[4 * k + 2] == click_plan(button)[2]);
            }
        }
        assert forall|k: int| 0 <= k < n - 1 implies is_wait(#[trigger] p[4 * k + 3], 100) by {
            if k < n - 2 {
                assert(p[4 * k + 3] == prev[4 * k + 3]);
            } else {
                assert(4 * k + 3 == prev.len());
            }
        }
    }
}

/// `click_at` first does exactly what `move_to` does for the same
/// coordinates, then clicks `count` times, no more and no fewer: each click
/// is the button down, 50 ms, all buttons up, with 100 ms between two
/// clicks, and nothing else follows.
pub proof fn law_click_at_clicks_count_times(x: i32, y: i32, button: u8, count: u8)
    ensures
        ({
            let p = command_plan(HidCommand::ClickAt { x, y, button, count });
            let m = command_plan(HidCommand::MoveTo { x, y });
            &&& p.len() == m.len() + (if count == 0 { 0 } else { 4 * count - 1 })
            &&& p.subrange(0, m.len() as int) == m
            &&& forall|k: int|
                0 <= k < count ==> is_mouse_report(#[trigger] p[m.len() + 4 * k], button, 0, 0, 0)
                    && is_wait(p[m.len() + 4 * k + 1], 50)
                    && is_mouse_report(p[m.len() + 4 * k + 2], 0, 0, 0, 0)
            &&& forall|k: int| 0 <= k < count - 1 ==> is_wait(#[trigger] p[m.len() + 4 * k + 3], 100)
        }),
{
    let p = command_plan(HidCommand::ClickAt { x, y, button, count });
    let m = command_plan(HidCommand::MoveTo { x, y });
    let c = clicks_plan(button, count as nat);
    lemma_clicks_shape(button, count as nat);
    assert(p == m + c);
    assert(p.subrange(0, m.len() as int) =~= m);
    assert forall|k: int| 0 <= k < count implies is_mouse_report(
        #[trigger] p[m.len() + 4 * k],
        button,
        0,
        0,
        0,
    ) && is_wait(p[m.len() + 4 * k + 1], 50) && is_mouse_report(p[m.len() + 4 * k + 2], 0, 0, 0, 0) by {
        assert(p[m.len() + 4 * k] == c[4 * k]);
        assert(p[m.len() + 4 * k + 1] == c[4 * k + 1]);
        assert(p[m.len() + 4 * k + 2] == c[4 * k + 2]);
    }
    assert forall|k: int| 0 <= k < count - 1 implies is_wait(#[trigger] p[m.len() + 4 * k + 3], 100) by {
        assert(p[m.len() + 4 * k + 3] == c[4 * k + 3]);
    }
}

fn release_report() -> (r: KeyboardReport)
    ensures
        r == all_keys_up(),
{
    KeyboardReport { modifier: 0, reserved: 0, leds: 0, keycodes: [0u8, 0, 0, 0, 0, 0] }
}

/// Appends one click of `button` to `actions`.
fn click_mouse(actions: &mut Vec<HidAction>, button: u8)
    ensures
        final(actions)@ == old(actions)@ + click_plan(button),
{
    actions.push(HidAction::Mouse(MouseReport { buttons: button, x: 0, y: 0, wheel: 0, pan: 0 }));
    actions.push(HidAction::WaitMs(CLICK_HOLD_MS));
    actions.push(HidAction::Mouse(MouseReport { buttons: 0, x: 0, y: 0, wheel: 0, pan: 0 }));
    assert(actions@ =~= old(actions)@ + click_plan(button));
}

fn clamp_to_screen(v: i32) -> (r: i32)
    ensures
        r == clamp_coord(v),
{
    if v < 0 {
        0
    } else if v > MAX_COORD {
        MAX_COORD
    } else {
        v
    }
}

/// Appends the moves that bring the cursor to the absolute position
/// `(x, y)` to `actions`.
fn move_mouse_to(actions: &mut Vec<HidAction>, x: i32, y: i32)
    ensures
        final(actions)@ == old(actions)@ + move_to_plan(x, y),
{
    let x = clamp_to_screen(x);
    let y = clamp_to_screen(y);
    let ghost start = actions@;
    let mut i: usize = 0;
    while i < HOME_STEPS
        invariant
            i <= HOME_STEPS,
            actions@ == start + Seq::new(i as nat, |k: int| HidAction::Mouse(home_report())),
        decreases HOME_STEPS - i,
    {
        actions.push(HidAction::Mouse(MouseReport { buttons: 0, x: -127, y: -127, wheel: 0, pan: 0 }));
        i = i + 1;
        assert(actions@ =~= start + Seq::new(i as nat, |k: int| HidAction::Mouse(home_report())));
    }
    actions.push(HidAction::WaitMs(HOME_SETTLE_MS));
    assert(actions@ =~= start + home_plan());
    let ghost homed = actions@;
    let mut remaining_x = x;
    let mut remaining_y = y;
    while remaining_x > 0 || remaining_y > 0
        invariant
            0 <= remaining_x <= MAX_COORD,
            0 <= remaining_y <= MAX_COORD,
            actions@ + approach_plan(remaining_x as nat, remaining_y as nat) == homed + approach_plan(
                x as nat,
                y as nat,
            ),
        decreases remaining_x + remaining_y,
    {
        let dx: i32 = if remaining_x < MAX_STEP { remaining_x } else { MAX_STEP };
        let dy: i32 = if remaining_y < MAX_STEP { remaining_y } else { MAX_STEP };
        let ghost before = actions@;
        let ghost rest = approach_plan((remaining_x - dx) as nat, (remaining_y - dy) as nat);
        assert(approach_plan(remaining_x as nat, remaining_y as nat) == seq![
            HidAction::Mouse(mouse(0, dx as i8, dy as i8, 0)),
        ] + rest);
        actions.push(HidAction::Mouse(MouseReport { buttons: 0, x: dx as i8, y: dy as i8, wheel: 0, pan: 0 }));
        remaining_x = remaining_x - dx;
        remaining_y = remaining_y - dy;
        assert(actions@ + rest =~= before + (seq![HidAction::Mouse(mouse(0, dx as i8, dy as i8, 0))] + rest));
    }
    assert(approach_plan(0, 0) == Seq::<HidAction>::empty());
    assert(actions@ =~= homed + approach_plan(x as nat, y as nat));
    actions.push(HidAction::WaitMs(MOVE_SETTLE_MS));
    assert(actions@ =~= start + move_to_plan(x, y));
}

/// The actions that carry out `cmd`: the keyboard and mouse reports to send
/// and the pauses between them, in order.
pub fn command_actions(cmd: &HidCommand) -> (actions: Vec<HidAction>)
    ensures
        actions@ == command_plan(*cmd),
{
    let mut actions: Vec<HidAction> = Vec::new();
    match *cmd {
        HidCommand::Key { code, modifier } => {
            actions.push(HidAction::Keyboard(KeyboardReport { modifier, reserved: 0, leds: 0, keycodes: [code, 0, 0, 0, 0, 0] }));
        },
        HidCommand::KeyRelease => {
            actions.push(HidAction::Keyboard(release_report()));
        },
        HidCommand::KeyPress { code, modifier } => {
            actions.push(HidAction::Keyboard(KeyboardReport { modifier, reserved: 0, leds: 0, keycodes: [code, 0, 0, 0, 0, 0] }));
            actions.push(HidAction::WaitMs(KEY_HOLD_MS));
            actions.push(HidAction::Keyboard(release_report()));
        },
        HidCommand::Mouse { x, y, buttons } => {
            actions.push(HidAction::Mouse(MouseReport { buttons, x, y, wheel: 0, pan: 0 }));
        },
        HidCommand::Click { button } => {
            click_mouse(&mut actions, button);
        },
        HidCommand::MoveTo { x, y } => {
            move_mouse_to(&mut actions, x, y);
        },
        HidCommand::ClickAt { x, y, button, count } => {
            move_mouse_to(&mut actions, x, y);
            let ghost moved = actions@;
            let mut i: u8 = 0;
            while i < count
                invariant
                    i <= count,
                    actions@ == moved + clicks_plan(button, i as nat),
                decreases count - i,
            {
                if i > 0 {
                    actions.push(HidAction::WaitMs(CLICK_GAP_MS));
                }
                click_mouse(&mut actions, button);
                i = i + 1;
                assert(actions@ =~= moved + clicks_plan(button, i as nat));
            }
        },
        HidCommand::Scroll { wheel } => {
            actions.push(HidAction::Mouse(MouseReport { buttons: 0, x: 0, y: 0, wheel, pan: 0 }));
        },
        HidCommand::Combo { keys, modifier } => {
            actions.push(HidAction::Keyboard(KeyboardReport { modifier, reserved: 0, leds: 0, keycodes: keys }));
            actions.push(HidAction::WaitMs(COMBO_HOLD_MS));
            actions.push(HidAction::Keyboard(release_report()));
        },
        HidCommand::Delay { ms } => {
            actions.push(HidAction::WaitMs(ms as u64));
        },
    }
    assert(actions@ =~= command_plan(*cmd));
    actions
}

/// What woke the status LED loop.
#[derive(Clone, Copy, Debug, PartialEq, Eq, Structural)]
pub enum LedEvent {
    /// The one-second heartbeat elapsed.
    Heartbeat,
    /// A command was queued.
    CommandQueued,
}

/// One step of driving the status LED.
#[derive(Clone, Copy, Debug, PartialEq, Eq, Structural)]
pub enum LedAction {
    On,
    Off,
    WaitMs(u64),
}

/// How long the LED stays on, and then off, in each flash.
pub const FLASH_MS: u64 = 30;

/// How many times the LED flashes for a queued command.
pub const FLASH_COUNT: usize = 3;

/// Step `k` of the flashing pattern: on, wait, off, wait.
pub open spec fn flash_step(k: int) -> LedAction {
    if k % 4 == 0 {
        LedAction::On
    } else if k % 4 == 2 {
        LedAction::Off
    } else {
        LedAction::WaitMs(FLASH_MS)
    }
}

/// What the LED does after the heartbeat toggle, for `event`.
pub open spec fn led_plan(event: LedEvent) -> Seq<LedAction> {
    match event {
        LedEvent::Heartbeat => Seq::empty(),
        LedEvent::CommandQueued => Seq::new((4 * FLASH_COUNT) as nat, |k: int| flash_step(k)),
    }
}

/// The LED steps that follow `event`: nothing for a heartbeat, three short
/// flashes for a queued command.
pub fn led_actions(event: LedEvent) -> (actions: Vec<LedAction>)
    ensures
        actions@ == led_plan(event),
{
    let mut actions: Vec<LedAction> = Vec::new();
    match event {
        LedEvent::Heartbeat => {},
        LedEvent::CommandQueued => {
            let mut i: usize = 0;
            while i < FLASH_COUNT
                invariant
                    i <= FLASH_COUNT,
                    actions@ == Seq::new((4 * i) as nat, |k: int| flash_step(k)),
                decreases FLASH_COUNT - i,
            {
                actions.push(LedAction::On);
                actions.push(LedAction::WaitMs(FLASH_MS));
                actions.push(LedAction::Off);
                actions.push(LedAction::WaitMs(FLASH_MS));
                i = i + 1;
                assert(actions@ =~= Seq::new((4 * i) as nat, |k: int| flash_step(k)));
            }
        },
    }
    assert(actions@ =~= led_plan(event));
    actions
}

/// A heartbeat leaves the LED alone; a queued command flashes it three
/// times: on, 30 ms, off, 30 ms, three times over.
pub proof fn law_led_flashes(event: LedEvent)
    ensures
        event == LedEvent::Heartbeat ==> led_plan(event).len() == 0,
        event == LedEvent::CommandQueued ==> led_plan(event) == seq![
            LedAction::On, LedAction::WaitMs(30), LedAction::Off, LedAction::WaitMs(30),
            LedAction::On, LedAction::WaitMs(30), LedAction::Off, LedAction::WaitMs(30),
            LedAction::On, LedAction::WaitMs(30), LedAction::Off, LedAction::WaitMs(30),
        ],
{
    if event == LedEvent::CommandQueued {
        assert(led_plan(event) =~= seq![
            LedAction::On, LedAction::WaitMs(30), LedAction::Off, LedAction::WaitMs(30),
            LedAction::On, LedAction::WaitMs(30), LedAction::Off, LedAction::WaitMs(30),
            LedAction::On, LedAction::WaitMs(30), LedAction::Off, LedAction::WaitMs(30),
        ]);
    }
}

/// How a read on the HID++ interface ended.
#[derive(Clone, Copy, Debug, PartialEq, Eq, Structural)]
pub enum HidppReadOutcome {
    /// A report arrived; it is dropped.
    Received,
    /// The interface is not configured.
    Disabled,
    /// The report did not fit the buffer.
    BufferOverflow,
    /// Report boundaries were lost.
    Sync,
}

/// Whether the HID++ drain waits for the interface to be configured before
/// it reads again: only after a read found it disabled.
pub fn hidpp_read_waits_for_ready(outcome: HidppReadOutcome) -> (wait: bool)
    ensures
        wait == (outcome == HidppReadOutcome::Disabled),
{
    match outcome {
        HidppReadOutcome::Disabled => true,
        _ => false,
    }
}

} // verus!
