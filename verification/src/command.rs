use vstd::prelude::*;
use vstd::string::StringSliceAdditionalSpecFns;

verus! {

/// A command that the bridge turns into USB HID keyboard or mouse reports.
#[allow(inconsistent_fields)]
#[derive(Clone, Copy, Debug, PartialEq, Eq)]
pub enum HidCommand {
    Key { code: u8, modifier: u8 },
    KeyRelease,
    KeyPress { code: u8, modifier: u8 },
    Mouse { x: i8, y: i8, buttons: u8 },
    Click { button: u8 },
    MoveTo { x: i32, y: i32 },
    ClickAt { x: i32, y: i32, button: u8, count: u8 },
    Scroll { wheel: i8 },
    Combo { keys: [u8; 6], modifier: u8 },
    Delay { ms: u16 },
}

/// A byte that surrounding-whitespace trimming drops: ASCII space and every
/// control byte below it.
pub open spec fn is_blank(b: u8) -> bool {
    b <= 0x20
}

/// Number of blank bytes at the front of `s`.
pub open spec fn leading_blanks(s: Seq<u8>) -> nat
    decreases s.len(),
{
    if s.len() > 0 && is_blank(s[0]) {
        1 + leading_blanks(s.drop_first())
    } else {
        0
    }
}

/// Number of blank bytes at the back of `s`.
pub open spec fn trailing_blanks(s: Seq<u8>) -> nat
    decreases s.len(),
{
    if s.len() > 0 && is_blank(s.last()) {
        1 + trailing_blanks(s.drop_last())
    } else {
        0
    }
}

/// `s` without its leading blanks.
pub open spec fn trim_front(s: Seq<u8>) -> Seq<u8> {
    s.subrange(leading_blanks(s) as int, s.len() as int)
}

/// `s` without its leading and trailing blanks.
pub open spec fn trimmed(s: Seq<u8>) -> Seq<u8> {
    let r = trim_front(s);
    r.subrange(0, r.len() - trailing_blanks(r))
}

/// `s[start..end]` is what is left of `s` once its blank edges are cut.
pub open spec fn is_trim_window(s: Seq<u8>, start: int, end: int) -> bool {
    &&& 0 <= start <= end <= s.len()
    &&& forall|i: int| 0 <= i < start ==> is_blank(#[trigger] s[i])
    &&& forall|i: int| end <= i < s.len() ==> is_blank(#[trigger] s[i])
    &&& start < end ==> !is_blank(s[start]) && !is_blank(s[end - 1])
}

proof fn lemma_leading_blanks(s: Seq<u8>, k: int)
    requires
        0 <= k <= s.len(),
        forall|i: int| 0 <= i < k ==> is_blank(#[trigger] s[i]),
        k == s.len() || !is_blank(s[k]),
    ensures
        leading_blanks(s) == k,
    decreases k,
{
    if k > 0 {
        let t = s.drop_first();
        assert forall|i: int| 0 <= i < k - 1 implies is_blank(#[trigger] t[i]) by {
            assert(t[i] == s[i + 1]);
        }
        lemma_leading_blanks(t, k - 1);
    }
}

proof fn lemma_trailing_blanks(s: Seq<u8>, k: int)
    requires
        0 <= k <= s.len(),
        forall|i: int| s.len() - k <= i < s.len() ==> is_blank(#[trigger] s[i]),
        k == s.len() || !is_blank(s[s.len() - k - 1]),
    ensures
        trailing_blanks(s) == k,
    decreases k,
{
    if k > 0 {
        let t = s.drop_last();
        assert forall|i: int| t.len() - (k - 1) <= i < t.len() implies is_blank(#[trigger] t[i]) by {
            assert(t[i] == s[i]);
        }
        lemma_trailing_blanks(t, k - 1);
    }
}

/// Any window that cuts exactly the blank edges is the trimmed sequence.
pub proof fn lemma_trim_window(s: Seq<u8>, start: int, end: int)
    requires
        is_trim_window(s, start, end),
    ensures
        trimmed(s) == s.subrange(start, end),
{
    if start < end {
        lemma_leading_blanks(s, start);
    } else {
        lemma_leading_blanks(s, s.len() as int);
    }
    let r = trim_front(s);
    if start < end {
        assert forall|i: int| r.len() - (s.len() - end) <= i < r.len() implies is_blank(#[trigger] r[i]) by {
            assert(r[i] == s[start + i]);
        }
        assert(r[r.len() - (s.len() - end) - 1] == s[end - 1]);
        lemma_trailing_blanks(r, s.len() - end);
        assert(trimmed(s) =~= s.subrange(start, end));
    } else {
        lemma_trailing_blanks(r, 0);
        assert(trimmed(s) =~= s.subrange(start, end));
    }
}

proof fn lemma_leading_blanks_props(s: Seq<u8>)
    ensures
        leading_blanks(s) <= s.len(),
        forall|i: int| 0 <= i < leading_blanks(s) ==> is_blank(#[trigger] s[i]),
        leading_blanks(s) < s.len() ==> !is_blank(s[leading_blanks(s) as int]),
    decreases s.len(),
{
    if s.len() > 0 && is_blank(s[0]) {
        let t = s.drop_first();
        lemma_leading_blanks_props(t);
        assert forall|i: int| 0 <= i < leading_blanks(s) implies is_blank(#[trigger] s[i]) by {
            if i > 0 {
                assert(s[i] == t[i - 1]);
            }
        }
        if leading_blanks(s) < s.len() {
            assert(s[leading_blanks(s) as int] == t[leading_blanks(t) as int]);
        }
    }
}

proof fn lemma_trailing_blanks_props(s: Seq<u8>)
    ensures
        trailing_blanks(s) <= s.len(),
        forall|i: int| s.len() - trailing_blanks(s) <= i < s.len() ==> is_blank(#[trigger] s[i]),
        trailing_blanks(s) < s.len() ==> !is_blank(s[s.len() - trailing_blanks(s) - 1]),
    decreases s.len(),
{
    if s.len() > 0 && is_blank(s.last()) {
        let t = s.drop_last();
        lemma_trailing_blanks_props(t);
        assert forall|i: int| s.len() - trailing_blanks(s) <= i < s.len() implies is_blank(
            #[trigger] s[i],
        ) by {
            if i < s.len() - 1 {
                assert(s[i] == t[i]);
            }
        }
        if trailing_blanks(s) < s.len() {
            assert(s[s.len() - trailing_blanks(s) - 1] == t[t.len() - trailing_blanks(t) - 1]);
        }
    }
}

/// Trimming yields a sequence with no blank byte at either end, cut out of
/// the input with only blank bytes around it.
pub proof fn law_trim_window(s: Seq<u8>)
    ensures
        exists|start: int, end: int|
            {
                &&& 0 <= start <= end <= s.len()
                &&& forall|i: int| 0 <= i < start ==> #[trigger] s[i] <= 0x20
                &&& forall|i: int| end <= i < s.len() ==> #[trigger] s[i] <= 0x20
                &&& start < end ==> s[start] > 0x20 && s[end - 1] > 0x20
                &&& trimmed(s) == s.subrange(start, end)
            },
{
    lemma_leading_blanks_props(s);
    let start = leading_blanks(s) as int;
    let r = trim_front(s);
    lemma_trailing_blanks_props(r);
    let end = start + r.len() - trailing_blanks(r);
    assert forall|i: int| end <= i < s.len() implies is_blank(#[trigger] s[i]) by {
        assert(s[i] == r[i - start]);
    }
    if start < end {
        assert(s[start] == r[0]);
        assert(s[end - 1] == r[r.len() - trailing_blanks(r) - 1]);
    }
    assert(is_trim_window(s, start, end));
    assert(trimmed(s) =~= s.subrange(start, end));
    assert({
        &&& 0 <= start <= end <= s.len()
        &&& forall|i: int| 0 <= i < start ==> #[trigger] s[i] <= 0x20
        &&& forall|i: int| end <= i < s.len() ==> #[trigger] s[i] <= 0x20
        &&& start < end ==> s[start] > 0x20 && s[end - 1] > 0x20
        &&& trimmed(s) == s.subrange(start, end)
    });
}

/// Trimming twice is trimming once.
pub proof fn law_trim_idempotent(s: Seq<u8>)
    ensures
        trimmed(trimmed(s)) == trimmed(s),
{
    law_trim_window(s);
    let (start, end) = choose|start: int, end: int|
        is_trim_window(s, start, end) && trimmed(s) == s.subrange(start, end);
    let t = trimmed(s);
    assert(is_trim_window(t, 0, t.len() as int)) by {
        if t.len() > 0 {
            assert(t[0] == s[start]);
            assert(t[t.len() - 1] == s[end - 1]);
        }
    }
    lemma_trim_window(t, 0, t.len() as int);
    assert(t.subrange(0, t.len() as int) =~= t);
}

/// Returns `data` without its leading and trailing ASCII whitespace and
/// control bytes, as a view into `data`.
pub fn trim_bytes(data: &[u8]) -> (out: &[u8])
    ensures
        out@ == trimmed(data@),
        exists|start: int, end: int|
            is_trim_window(data@, start, end) && out@ == data@.subrange(start, end),
{
    let len = data.len();
    let mut start: usize = 0;
    while start < len && data[start] <= 0x20
        invariant
            len == data@.len(),
            start <= len,
            forall|i: int| 0 <= i < start ==> is_blank(#[trigger] data@[i]),
        decreases len - start,
    {
        start = start + 1;
    }
    let mut end: usize = len;
    while end > start && data[end - 1] <= 0x20
        invariant
            len == data@.len(),
            start <= end <= len,
            forall|i: int| end <= i < len ==> is_blank(#[trigger] data@[i]),
        decreases end,
    {
        end = end - 1;
    }
    proof {
        lemma_trim_window(data@, start as int, end as int);
    }
    vstd::slice::slice_subrange(data, start, end)
}


/// The numeric fields of one JSON command line, each already holding its
/// default where the line left it out (`count` defaults to 1, all others to 0).
#[derive(Clone, Copy, Debug)]
pub struct CommandFields {
    pub code: u8,
    pub modifier: u8,
    pub x: i32,
    pub y: i32,
    pub buttons: u8,
    pub button: u8,
    pub wheel: i8,
    pub keys: [u8; 6],
    pub ms: u16,
    pub count: u8,
}

fn bytes_equal(a: &[u8], b: &[u8]) -> (r: bool)
    ensures
        r == (a@ == b@),
{
    if a.len() != b.len() {
        return false;
    }
    let mut i: usize = 0;
    while i < a.len()
        invariant
            a@.len() == b@.len(),
            i <= a@.len(),
            forall|j: int| 0 <= j < i ==> a@[j] == b@[j],
        decreases a@.len() - i,
    {
        if a[i] != b[i] {
            return false;
        }
        i = i + 1;
    }
    assert(a@ =~= b@);
    true
}

/// The value of a relative mouse axis once clamped into the `i8` range of a
/// HID mouse report.
pub open spec fn clamp_axis(v: i32) -> i8 {
    if v < -128 {
        -128i8
    } else if v > 127 {
        127i8
    } else {
        v as i8
    }
}

/// A click names a button; 0 means the left one (1).
pub open spec fn button_or_left(button: u8) -> u8 {
    if button == 0 {
        1
    } else {
        button
    }
}

/// A repeated click happens at least once.
pub open spec fn count_or_once(count: u8) -> u8 {
    if count == 0 {
        1
    } else {
        count
    }
}

/// The command that a line with type name `name` (its UTF-8 bytes) and the
/// numeric `fields` stands for, or `None` for an unknown type name.
pub open spec fn command_for(name: Seq<u8>, f: CommandFields) -> Option<HidCommand> {
    if name == "key".spec_bytes() {
        Some(HidCommand::Key { code: f.code, modifier: f.modifier })
    } else if name == "key_release".spec_bytes() {
        Some(HidCommand::KeyRelease)
    } else if name == "keypress".spec_bytes() {
        Some(HidCommand::KeyPress { code: f.code, modifier: f.modifier })
    } else if name == "mouse".spec_bytes() {
        Some(HidCommand::Mouse { x: clamp_axis(f.x), y: clamp_axis(f.y), buttons: f.buttons })
    } else if name == "click".spec_bytes() {
        Some(HidCommand::Click { button: button_or_left(f.button) })
    } else if name == "move_to".spec_bytes() {
        Some(HidCommand::MoveTo { x: f.x, y: f.y })
    } else if name == "click_at".spec_bytes() {
        Some(
            HidCommand::ClickAt {
                x: f.x,
                y: f.y,
                button: button_or_left(f.button),
                count: count_or_once(f.count),
            },
        )
    } else if name == "scroll".spec_bytes() {
        Some(HidCommand::Scroll { wheel: f.wheel })
    } else if name == "combo".spec_bytes() {
        Some(HidCommand::Combo { keys: f.keys, modifier: f.modifier })
    } else if name == "delay".spec_bytes() {
        Some(HidCommand::Delay { ms: f.ms })
    } else {
        None
    }
}

/// Whether `name` is one of the ten command type names.
pub open spec fn is_command_name(name: Seq<u8>) -> bool {
    ||| name == "key".spec_bytes()
    ||| name == "key_release".spec_bytes()
    ||| name == "keypress".spec_bytes()
    ||| name == "mouse".spec_bytes()
    ||| name == "click".spec_bytes()
    ||| name == "move_to".spec_bytes()
    ||| name == "click_at".spec_bytes()
    ||| name == "scroll".spec_bytes()
    ||| name == "combo".spec_bytes()
    ||| name == "delay".spec_bytes()
}

fn clamp_to_i8(v: i32) -> (r: i8)
    ensures
        r == clamp_axis(v),
{
    if v < -128 {
        -128
    } else if v > 127 {
        127
    } else {
        v as i8
    }
}

/// The button a click presses: 0 stands for the left one.
pub fn default_button(button: u8) -> (r: u8)
    ensures
        r == button_or_left(button),
{
    if button == 0 {
        1
    } else {
        button
    }
}

/// How many times a click is repeated: at least once.
pub fn default_count_value(count: u8) -> (r: u8)
    ensures
        r == count_or_once(count),
{
    if count == 0 {
        1
    } else {
        count
    }
}

/// Turns the type name and the numeric fields of a command line into the
/// command it stands for; `None` where the type name is none of the ten.
pub fn command_from_fields(cmd_type: &str, fields: &CommandFields) -> (r: Option<HidCommand>)
    ensures
        r == command_for(cmd_type.spec_bytes(), *fields),
        r.is_some() <==> is_command_name(cmd_type.spec_bytes()),
{
    let t = cmd_type.as_bytes();
    let f = *fields;
    if bytes_equal(t, "key".as_bytes()) {
        Some(HidCommand::Key { code: f.code, modifier: f.modifier })
    } else if bytes_equal(t, "key_release".as_bytes()) {
        Some(HidCommand::KeyRelease)
    } else if bytes_equal(t, "keypress".as_bytes()) {
        Some(HidCommand::KeyPress { code: f.code, modifier: f.modifier })
    } else if bytes_equal(t, "mouse".as_bytes()) {
        Some(HidCommand::Mouse { x: clamp_to_i8(f.x), y: clamp_to_i8(f.y), buttons: f.buttons })
    } else if bytes_equal(t, "click".as_bytes()) {
        Some(HidCommand::Click { button: default_button(f.button) })
    } else if bytes_equal(t, "move_to".as_bytes()) {
        Some(HidCommand::MoveTo { x: f.x, y: f.y })
    } else if bytes_equal(t, "click_at".as_bytes()) {
        Some(
            HidCommand::ClickAt {
                x: f.x,
                y: f.y,
                button: default_button(f.button),
                count: default_count_value(f.count),
            },
        )
    } else if bytes_equal(t, "scroll".as_bytes()) {
        Some(HidCommand::Scroll { wheel: f.wheel })
    } else if bytes_equal(t, "combo".as_bytes()) {
        Some(HidCommand::Combo { keys: f.keys, modifier: f.modifier })
    } else if bytes_equal(t, "delay".as_bytes()) {
        Some(HidCommand::Delay { ms: f.ms })
    } else {
        None
    }
}

/// A `click` or `click_at` always presses some button, the left one where
/// the line named none (or 0); a `click_at` clicks at least once, exactly
/// `count` times where the line gave a count other than 0; a `mouse` command
/// moves by the given amount where it fits a report and saturates otherwise.
pub proof fn law_command_defaults(name: Seq<u8>, f: CommandFields)
    ensures
        command_for(name, f) matches Some(HidCommand::Click { button }) ==> button != 0 && (f.button
            != 0 ==> button == f.button),
        command_for(name, f) matches Some(HidCommand::ClickAt { button, count, .. }) ==> button != 0
            && count != 0 && (f.button != 0 ==> button == f.button) && (f.count != 0 ==> count
            == f.count),
        command_for(name, f) matches Some(HidCommand::Mouse { x, y, .. }) ==> (-128 <= f.x <= 127
            ==> x == f.x) && (f.x < -128 ==> x == -128) && (f.x > 127 ==> x == 127) && (-128
            <= f.y <= 127 ==> y == f.y) && (f.y < -128 ==> y == -128) && (f.y > 127 ==> y == 127),
{
}

proof fn lemma_bytes_differ(a: &str, b: &str)
    requires
        a@ != b@,
    ensures
        a.spec_bytes() != b.spec_bytes(),
{
    vstd::utf8::encode_utf8_decode_utf8(a@);
    vstd::utf8::encode_utf8_decode_utf8(b@);
}

proof fn lemma_names_distinct()
    ensures
        "key".spec_bytes() != "key_release".spec_bytes(),
        "key".spec_bytes() != "keypress".spec_bytes(),
        "key".spec_bytes() != "mouse".spec_bytes(),
        "key".spec_bytes() != "click".spec_bytes(),
        "key".spec_bytes() != "move_to".spec_bytes(),
        "key".spec_bytes() != "click_at".spec_bytes(),
        "key".spec_bytes() != "scroll".spec_bytes(),
        "key".spec_bytes() != "combo".spec_bytes(),
        "key".spec_bytes() != "delay".spec_bytes(),
        "key_release".spec_bytes() != "keypress".spec_bytes(),
        "key_release".spec_bytes() != "mouse".spec_bytes(),
        "key_release".spec_bytes() != "click".spec_bytes(),
        "key_release".spec_bytes() != "move_to".spec_bytes(),
        "key_release".spec_bytes() != "click_at".spec_bytes(),
        "key_release".spec_bytes() != "scroll".spec_bytes(),
        "key_release".spec_bytes() != "combo".spec_bytes(),
        "key_release".spec_bytes() != "delay".spec_bytes(),
        "keypress".spec_bytes() != "mouse".spec_bytes(),
        "keypress".spec_bytes() != "click".spec_bytes(),
        "keypress".spec_bytes() != "move_to".spec_bytes(),
        "keypress".spec_bytes() != "click_at".spec_bytes(),
        "keypress".spec_bytes() != "scroll".spec_bytes(),
        "keypress".spec_bytes() != "combo".spec_bytes(),
        "keypress".spec_bytes() != "delay".spec_bytes(),
        "mouse".spec_bytes() != "click".spec_bytes(),
        "mouse".spec_bytes() != "move_to".spec_bytes(),
        "mouse".spec_bytes() != "click_at".spec_bytes(),
        "mouse".spec_bytes() != "scroll".spec_bytes(),
        "mouse".spec_bytes() != "combo".spec_bytes(),
        "mouse".spec_bytes() != "delay".spec_bytes(),
        "click".spec_bytes() != "move_to".spec_bytes(),
        "click".spec_bytes() != "click_at".spec_bytes(),
        "click".spec_bytes() != "scroll".spec_bytes(),
        "click".spec_bytes() != "combo".spec_bytes(),
        "click".spec_bytes() != "delay".spec_bytes(),
        "move_to".spec_bytes() != "click_at".spec_bytes(),
        "move_to".spec_bytes() != "scroll".spec_bytes(),
        "move_to".spec_bytes() != "combo".spec_bytes(),
        "move_to".spec_bytes() != "delay".spec_bytes(),
        "click_at".spec_bytes() != "scroll".spec_bytes(),
        "click_at".spec_bytes() != "combo".spec_bytes(),
        "click_at".spec_bytes() != "delay".spec_bytes(),
        "scroll".spec_bytes() != "combo".spec_bytes(),
        "scroll".spec_bytes() != "delay".spec_bytes(),
        "combo".spec_bytes() != "delay".spec_bytes(),
{
    reveal_strlit("key");
    reveal_strlit("key_release");
    reveal_strlit("keypress");
    reveal_strlit("mouse");
    reveal_strlit("click");
    reveal_strlit("move_to");
    reveal_strlit("click_at");
    reveal_strlit("scroll");
    reveal_strlit("combo");
    reveal_strlit("delay");
    assert("key"@.len() == 3 && "key"@[0] == 'k' && "key"@[1] == 'e');
    assert("key_release"@.len() == 11 && "key_release"@[0] == 'k' && "key_release"@[1] == 'e');
    assert("keypress"@.len() == 8 && "keypress"@[0] == 'k' && "keypress"@[1] == 'e');
    assert("mouse"@.len() == 5 && "mouse"@[0] == 'm' && "mouse"@[1] == 'o');
    assert("click"@.len() == 5 && "click"@[0] == 'c' && "click"@[1] == 'l');
    assert("move_to"@.len() == 7 && "move_to"@[0] == 'm' && "move_to"@[1] == 'o');
    assert("click_at"@.len() == 8 && "click_at"@[0] == 'c' && "click_at"@[1] == 'l');
    assert("scroll"@.len() == 6 && "scroll"@[0] == 's' && "scroll"@[1] == 'c');
    assert("combo"@.len() == 5 && "combo"@[0] == 'c' && "combo"@[1] == 'o');
    assert("delay"@.len() == 5 && "delay"@[0] == 'd' && "delay"@[1] == 'e');
    lemma_bytes_differ("key", "key_release");
    lemma_bytes_differ("key", "keypress");
    lemma_bytes_differ("key", "mouse");
    lemma_bytes_differ("key", "click");
    lemma_bytes_differ("key", "move_to");
    lemma_bytes_differ("key", "click_at");
    lemma_bytes_differ("key", "scroll");
    lemma_bytes_differ("key", "combo");
    lemma_bytes_differ("key", "delay");
    lemma_bytes_differ("key_release", "keypress");
    lemma_bytes_differ("key_release", "mouse");
    lemma_bytes_differ("key_release", "click");
    lemma_bytes_differ("key_release", "move_to");
    lemma_bytes_differ("key_release", "click_at");
    lemma_bytes_differ("key_release", "scroll");
    lemma_bytes_differ("key_release", "combo");
    lemma_bytes_differ("key_release", "delay");
    lemma_bytes_differ("keypress", "mouse");
    lemma_bytes_differ("keypress", "click");
    lemma_bytes_differ("keypress", "move_to");
    lemma_bytes_differ("keypress", "click_at");
    lemma_bytes_differ("keypress", "scroll");
    lemma_bytes_differ("keypress", "combo");
    lemma_bytes_differ("keypress", "delay");
    lemma_bytes_differ("mouse", "click");
    lemma_bytes_differ("mouse", "move_to");
    lemma_bytes_differ("mouse", "click_at");
    lemma_bytes_differ("mouse", "scroll");
    lemma_bytes_differ("mouse", "combo");
    lemma_bytes_differ("mouse", "delay");
    lemma_bytes_differ("click", "move_to");
    lemma_bytes_differ("click", "click_at");
    lemma_bytes_differ("click", "scroll");
    lemma_bytes_differ("click", "combo");
    lemma_bytes_differ("click", "delay");
    lemma_bytes_differ("move_to", "click_at");
    lemma_bytes_differ("move_to", "scroll");
    lemma_bytes_differ("move_to", "combo");
    lemma_bytes_differ("move_to", "delay");
    lemma_bytes_differ("click_at", "scroll");
    lemma_bytes_differ("click_at", "combo");
    lemma_bytes_differ("click_at", "delay");
    lemma_bytes_differ("scroll", "combo");
    lemma_bytes_differ("scroll", "delay");
    lemma_bytes_differ("combo", "delay");
}

/// What each command type name stands for, field by field: `key` and
/// `keypress` carry the key code and modifier unchanged; `key_release`
/// carries nothing; `mouse` carries the buttons unchanged and each axis
/// saturated into -128..=127; `click` carries the button, 1 where it was 0;
/// `move_to` carries the coordinates unchanged; `click_at` carries the
/// coordinates unchanged and the button and count, each 1 where it was 0;
/// `scroll` carries the wheel amount unchanged, sign included; `combo`
/// carries the six key codes and the modifier unchanged; `delay` carries the
/// milliseconds unchanged.
pub proof fn law_command_names(f: CommandFields)
    ensures
        command_for("key".spec_bytes(), f) == Some(HidCommand::Key { code: f.code, modifier: f.modifier }),
        command_for("key_release".spec_bytes(), f) == Some(HidCommand::KeyRelease),
        command_for("keypress".spec_bytes(), f) == Some(
            HidCommand::KeyPress { code: f.code, modifier: f.modifier },
        ),
        command_for("mouse".spec_bytes(), f) matches Some(HidCommand::Mouse { x, y, buttons })
            && buttons == f.buttons
            && x as int == (if f.x < -128 { -128 } else if f.x > 127 { 127 } else { f.x as int })
            && y as int == (if f.y < -128 { -128 } else if f.y > 127 { 127 } else { f.y as int }),
        command_for("click".spec_bytes(), f) == Some(
            HidCommand::Click { button: if f.button == 0 { 1 } else { f.button } },
        ),
        command_for("move_to".spec_bytes(), f) == Some(HidCommand::MoveTo { x: f.x, y: f.y }),
        command_for("click_at".spec_bytes(), f) == Some(
            HidCommand::ClickAt {
                x: f.x,
                y: f.y,
                button: if f.button == 0 { 1 } else { f.button },
                count: if f.count == 0 { 1 } else { f.count },
            },
        ),
        command_for("scroll".spec_bytes(), f) == Some(HidCommand::Scroll { wheel: f.wheel }),
        command_for("combo".spec_bytes(), f) == Some(
            HidCommand::Combo { keys: f.keys, modifier: f.modifier },
        ),
        command_for("delay".spec_bytes(), f) == Some(HidCommand::Delay { ms: f.ms }),
{
    lemma_names_distinct();
}

/// A type name other than the ten command names is no command.
pub proof fn law_unknown_names(name: Seq<u8>, f: CommandFields)
    requires
        name != "key".spec_bytes(),
        name != "key_release".spec_bytes(),
        name != "keypress".spec_bytes(),
        name != "mouse".spec_bytes(),
        name != "click".spec_bytes(),
        name != "move_to".spec_bytes(),
        name != "click_at".spec_bytes(),
        name != "scroll".spec_bytes(),
        name != "combo".spec_bytes(),
        name != "delay".spec_bytes(),
    ensures
        command_for(name, f) is None,
{
}

} // verus!
