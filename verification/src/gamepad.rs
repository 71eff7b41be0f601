//! Gamepad input: the snapshot handed to the frontend, the decoding of the
//! raw HID report of pads that the platform APIs cannot read, and the rules
//! that merge both.
//!
//! The raw report is a standard 27-byte layout:
//!
//!   bytes 0–1 : 13 buttons + 3 pad bits  (bit0 = Button 1 … bit12 = Button 13)
//!   byte 2    : hat switch in the LOW nibble (0=N,2=E,4=S,6=W, 15=centered)
//!   byte 3    : left stick X   (8-bit, center 0x7F)
//!   byte 4    : left stick Y   (8-bit, center 0x7F)
//!   byte 5/6  : Z/Rz (right stick) — unused here
//!   bytes 7+  : vendor-specific — unused here
//!
//! Direction codes match the game core: 0 up, 1 left, 2 down, 3 right.

use vstd::prelude::*;

use std::sync::{Arc, Mutex};

verus! {

pub const DIR_UP: u8 = 0;

pub const DIR_LEFT: u8 = 1;

pub const DIR_DOWN: u8 = 2;

pub const DIR_RIGHT: u8 = 3;

/// Left-stick deadzone in raw 8-bit units (0..255), center 127.
pub const STICK_DEADZONE: i32 = 40;

/// Raw stick value at rest.
pub const STICK_CENTER: i32 = 127;

/// If true, a low `ly` (near 0) means "up". Most HID gamepads report up as 0;
/// flip to false if the stick is vertically inverted on a given device.
pub const STICK_Y_UP_IS_LOW: bool = true;

/// Start button bit (Button 10).
pub const BTN_START: u16 = 0x200;

/// Select/Back button bit (Button 9).
pub const BTN_BACK: u16 = 0x100;

/// Shortest report that carries buttons, hat and left stick.
pub const MIN_REPORT_LEN: usize = 7;

/// Names of the 13 buttons of the SHANWAN "PS3/PC Gamepad", Button 1 first.
pub const BTN_NAMES: [&'static str; 13] = [
    "Triangle",
    "Circle",
    "Cross",
    "Square",
    "L1",
    "R1",
    "L2",
    "R2",
    "Select",
    "Start",
    "L3",
    "R3",
    "Home",
];

/// Four-way direction of a raw hat nibble: the diagonals and the centre give
/// none.
pub open spec fn hat_dir_of(hat: u8) -> Option<u8> {
    if hat == 0 {
        Some(DIR_UP)
    } else if hat == 2 {
        Some(DIR_RIGHT)
    } else if hat == 4 {
        Some(DIR_DOWN)
    } else if hat == 6 {
        Some(DIR_LEFT)
    } else {
        None
    }
}

pub open spec fn abs_of(v: int) -> int {
    if v < 0 {
        -v
    } else {
        v
    }
}

/// Direction of the left stick: the dominant axis once past the deadzone on
/// either axis (a tie goes to the vertical axis), none while both axes rest.
pub open spec fn stick_dir_of(lx: int, ly: int) -> Option<u8> {
    let dx = lx - STICK_CENTER;
    let dy = if STICK_Y_UP_IS_LOW {
        STICK_CENTER - ly
    } else {
        ly - STICK_CENTER
    };
    if abs_of(dx) < STICK_DEADZONE && abs_of(dy) < STICK_DEADZONE {
        None
    } else if abs_of(dx) > abs_of(dy) {
        Some(if dx > 0 { DIR_RIGHT } else { DIR_LEFT })
    } else {
        Some(if dy > 0 { DIR_UP } else { DIR_DOWN })
    }
}

/// Stick values from which the offsets to the centre and their magnitudes
/// can be computed in `i32`.
pub open spec fn stick_values_ok(lx: i32, ly: i32) -> bool {
    &&& lx > i32::MIN + STICK_CENTER
    &&& ly < i32::MAX + STICK_CENTER
    &&& ly > i32::MIN + STICK_CENTER
}

/// Is button `b` (1-based) pressed in the bitmap `buttons`?
pub open spec fn button_pressed(buttons: u16, b: int) -> bool {
    buttons & (1u16 << ((b - 1) as u16)) != 0
}

/// Direction of a digital d-pad, checking up, down, left, right in that order.
pub open spec fn dpad_dir_of(up: bool, down: bool, left: bool, right: bool) -> Option<u8> {
    if up {
        Some(DIR_UP)
    } else if down {
        Some(DIR_DOWN)
    } else if left {
        Some(DIR_LEFT)
    } else if right {
        Some(DIR_RIGHT)
    } else {
        None
    }
}

/// The stick gives no direction exactly while both offsets from the centre
/// stay inside the deadzone; otherwise it gives the direction of the larger
/// offset (up when the vertical one is at least as large), up being a low
/// raw `ly`.
pub proof fn lemma_stick_direction(lx: int, ly: int)
    ensures
        stick_dir_of(lx, ly) is None <==> (-40 < lx - 127 < 40 && -40 < 127 - ly < 40),
        stick_dir_of(lx, ly) == Some(DIR_RIGHT) <==> (lx - 127 >= 40 || ly - 127 >= 40 || 127 - ly >= 40
            || lx - 127 <= -40) && lx - 127 > 0 && abs_of(lx - 127) > abs_of(127 - ly),
        stick_dir_of(lx, ly) == Some(DIR_UP) <==> (abs_of(lx - 127) >= 40 || abs_of(127 - ly) >= 40)
            && abs_of(lx - 127) <= abs_of(127 - ly) && ly < 127,
{
}

/// One decoded raw report.
#[derive(Clone, Copy, PartialEq, Eq, Debug, Structural)]
pub struct RawState {
    /// 4-way decoded hat (0=up,1=left,2=down,3=right).
    pub hat: Option<u8>,
    /// Raw hat nibble 0..15 (15 = centered).
    pub hat_raw: u8,
    pub lx: i32,
    pub ly: i32,
    pub buttons: u16,
}

/// Map a raw HID hat-switch nibble to a 4-way direction (diagonals -> None).
fn hat_to_dir(hat: u8) -> (d: Option<u8>)
    ensures
        d == hat_dir_of(hat),
{
    match hat {
        0 => Some(DIR_UP),
        2 => Some(DIR_RIGHT),
        4 => Some(DIR_DOWN),
        6 => Some(DIR_LEFT),
        _ => None,
    }
}

fn abs_i32(v: i32) -> (a: i32)
    requires
        v > i32::MIN,
    ensures
        a == abs_of(v as int),
{
    if v < 0 {
        -v
    } else {
        v
    }
}

impl RawState {
    /// Decode a raw report; reports shorter than [`MIN_REPORT_LEN`] bytes
    /// carry no input and give none.
    pub fn from_report(report: &[u8]) -> (s: Option<RawState>)
        ensures
            report@.len() < MIN_REPORT_LEN <==> s is None,
            s matches Some(st) ==> {
                &&& st.hat_raw == report@[2] & 0x0f
                &&& st.hat == hat_dir_of(st.hat_raw)
                &&& st.lx == report@[3] as i32
                &&& st.ly == report@[4] as i32
                &&& st.buttons == (report@[0] as u16) | ((report@[1] as u16) << 8u16)
            },
    {
        if report.len() < MIN_REPORT_LEN {
            return None;
        }
        let hat_raw = report[2] & 0x0F;
        Some(
            RawState {
                hat: hat_to_dir(hat_raw),
                hat_raw,
                lx: report[3] as i32,
                ly: report[4] as i32,
                buttons: report[0] as u16 | ((report[1] as u16) << 8),
            },
        )
    }

    /// Direction from the stick (dominant axis past the deadzone), None if neutral.
    pub fn stick_dir(&self) -> (d: Option<u8>)
        requires
            stick_values_ok(self.lx, self.ly),
        ensures
            d == stick_dir_of(self.lx as int, self.ly as int),
    {
        let cx = STICK_CENTER;
        let dx = self.lx - cx;
        let dy = if STICK_Y_UP_IS_LOW {
            cx - self.ly  // up = low value => positive dy means up

        } else {
            self.ly - cx
        };
        let ax = abs_i32(dx);
        let ay = abs_i32(dy);
        if ax < STICK_DEADZONE && ay < STICK_DEADZONE {
            return None;
        }
        if ax > ay {
            Some(
                if dx > 0 {
                    DIR_RIGHT
                } else {
                    DIR_LEFT
                },
            )
        } else {
            Some(
                if dy > 0 {
                    DIR_UP
                } else {
                    DIR_DOWN
                },
            )
        }
    }

    pub fn start(&self) -> (b: bool)
        ensures
            b == (self.buttons & BTN_START != 0),
    {
        self.buttons & BTN_START != 0
    }

    pub fn back(&self) -> (b: bool)
        ensures
            b == (self.buttons & BTN_BACK != 0),
    {
        self.buttons & BTN_BACK != 0
    }
}

/// The snapshot handed to the frontend.
///
/// `kind` tells the frontend how to interpret it: 0 = no pad, 1 = raw-HID
/// (frontend maps `buttons`/`hat`/`stick_*`), 2 = GameController framework,
/// 3 = gilrs. `dir` is `None` while the stick/d-pad is centered.
#[derive(Clone, Copy, PartialEq, Eq, Debug, Structural)]
pub struct GamepadState {
    pub dir: Option<u8>,
    pub start: bool,
    pub back: bool,
    pub connected: bool,
    pub kind: u8,
    pub buttons: u16,
    pub hat: u8,
    pub stick_x: i32,
    pub stick_y: i32,
}

/// The snapshot of no pad at all.
pub open spec fn idle_state() -> GamepadState {
    GamepadState {
        dir: None,
        start: false,
        back: false,
        connected: false,
        kind: 0,
        buttons: 0,
        hat: 0,
        stick_x: 0,
        stick_y: 0,
    }
}

impl Default for GamepadState {
    fn default() -> (s: GamepadState)
        ensures
            s == idle_state(),
    {
        GamepadState {
            dir: None,
            start: false,
            back: false,
            connected: false,
            kind: 0,
            buttons: 0,
            hat: 0,
            stick_x: 0,
            stick_y: 0,
        }
    }
}

impl GamepadState {
    /// Merge a raw-HID report into the snapshot: the raw fields are copied
    /// and the kind becomes raw-HID; the direction falls back to the hat,
    /// then the stick, when none was read otherwise; Start and Back are
    /// or-ed in.
    pub fn merge_raw(&mut self, s: &RawState)
        requires
            stick_values_ok(s.lx, s.ly),
        ensures
            *final(self) == (GamepadState {
                kind: 1,
                buttons: s.buttons,
                hat: s.hat_raw,
                stick_x: s.lx,
                stick_y: s.ly,
                dir: if old(self).dir is None {
                    if s.hat is Some {
                        s.hat
                    } else {
                        stick_dir_of(s.lx as int, s.ly as int)
                    }
                } else {
                    old(self).dir
                },
                start: old(self).start || (s.buttons & BTN_START != 0),
                back: old(self).back || (s.buttons & BTN_BACK != 0),
                ..*old(self)
            }),
    {
        self.kind = 1;
        self.buttons = s.buttons;
        self.hat = s.hat_raw;
        self.stick_x = s.lx;
        self.stick_y = s.ly;
        if self.dir.is_none() {
            self.dir = match s.hat {
                Some(d) => Some(d),
                None => s.stick_dir(),
            };
        }
        self.start = self.start || s.start();
        self.back = self.back || s.back();
    }

    /// A raw pad whose reports still flow keeps the snapshot connected, and
    /// marks it raw-HID when nothing else claimed it.
    pub fn keep_raw_connected(&mut self)
        ensures
            *final(self) == (GamepadState {
                connected: true,
                kind: if old(self).kind == 0 { 1 } else { old(self).kind },
                ..*old(self)
            }),
    {
        self.connected = true;
        if self.kind == 0 {
            self.kind = 1;
        }
    }
}

#[verifier::external_type_specification]
#[verifier::external_body]
#[verifier::reject_recursive_types(T)]
pub struct ExMutex<T: ?Sized>(Mutex<T>);

/// `std::sync::Mutex::lock` on the shared snapshot, then a copy of what it
/// holds. The value is whatever the input thread stored last, so nothing is
/// claimed of it; a lock poisoned by a panicking writer is read all the same
/// (`PoisonError::into_inner`). The call waits while the input thread holds
/// the lock; the hub never holds it itself.
#[verifier::external_body]
fn read_shared(shared: &Arc<Mutex<GamepadState>>) -> GamepadState {
    *shared.lock().unwrap_or_else(std::sync::PoisonError::into_inner)
}

/// Shared, thread-safe snapshot read by the frontend's `gamepad_state`
/// command; the input thread stores into the same mutex.
pub struct GamepadHub {
    shared: Arc<Mutex<GamepadState>>,
}

impl GamepadHub {
    pub fn new(shared: Arc<Mutex<GamepadState>>) -> (hub: GamepadHub)
        ensures
            hub.shared() == shared,
    {
        GamepadHub { shared }
    }

    /// The mutex the hub reads.
    pub closed spec fn shared(&self) -> Arc<Mutex<GamepadState>> {
        self.shared
    }

    /// The latest snapshot stored by the input thread.
    pub fn snapshot(&self) -> GamepadState {
        read_shared(&self.shared)
    }
}

/// Direction of a digital d-pad: up, then down, then left, then right.
pub fn dpad_direction(up: bool, down: bool, left: bool, right: bool) -> (d: Option<u8>)
    ensures
        d == dpad_dir_of(up, down, left, right),
{
    if up {
        return Some(DIR_UP);
    }
    if down {
        return Some(DIR_DOWN);
    }
    if left {
        return Some(DIR_LEFT);
    }
    if right {
        return Some(DIR_RIGHT);
    }
    None
}

/// The buttons (1-based, ascending) pressed in a report's button bitmap.
pub fn pressed_buttons(buttons: u16) -> (pressed: Vec<u8>)
    ensures
        forall|i: int| 0 <= i < pressed@.len() ==> 1 <= #[trigger] pressed@[i] <= 13,
        forall|i: int, j: int| 0 <= i < j < pressed@.len() ==> pressed@[i] < pressed@[j],
        forall|b: int| 1 <= b <= 13 ==> (pressed@.contains(b as u8) <==> button_pressed(buttons, b)),
{
    let mut pressed: Vec<u8> = Vec::new();
    for b in 1..14u8
        invariant
            forall|i: int| 0 <= i < pressed@.len() ==> 1 <= #[trigger] pressed@[i] < b,
            forall|i: int, j: int| 0 <= i < j < pressed@.len() ==> pressed@[i] < pressed@[j],
            forall|k: int| 1 <= k < b ==> (pressed@.contains(k as u8) <==> button_pressed(buttons, k)),
    {
        let ghost before = pressed@;
        let mask: u16 = 1u16 << ((b - 1) as u16);
        assert(mask == 1u16 << ((b as int - 1) as u16));
        if buttons & mask != 0 {
            pressed.push(b);
        }
        assert forall|k: int| 1 <= k < b + 1 implies (pressed@.contains(k as u8) <==> button_pressed(
            buttons,
            k,
        )) by {
            if k < b {
                if pressed@.contains(k as u8) {
                    let i = choose|i: int| 0 <= i < pressed@.len() && pressed@[i] == k as u8;
                    if i < before.len() {
                        assert(before[i] == k as u8);
                    }
                }
                if before.contains(k as u8) {
                    let i = choose|i: int| 0 <= i < before.len() && before[i] == k as u8;
                    assert(pressed@[i] == k as u8);
                }
            } else {
                if buttons & mask != 0 {
                    assert(pressed@[pressed@.len() - 1] == b);
                } else if pressed@.contains(k as u8) {
                    let i = choose|i: int| 0 <= i < pressed@.len() && pressed@[i] == k as u8;
                    assert(pressed@[i] < b);
                }
            }
        }
    }
    pressed
}

/// Name of button `b` (1-based) of the pad, or `?`.
pub open spec fn button_name_text(b: u8) -> Seq<char> {
    if 1 <= b <= 13 {
        BTN_NAMES@[b - 1]@
    } else {
        "?"@
    }
}

/// Label of a raw hat nibble, diagonals included.
pub open spec fn hat_label_text(hat: u8) -> Seq<char> {
    if hat == 0 {
        "up"@
    } else if hat == 1 {
        "NE"@
    } else if hat == 2 {
        "right"@
    } else if hat == 3 {
        "SE"@
    } else if hat == 4 {
        "down"@
    } else if hat == 5 {
        "SW"@
    } else if hat == 6 {
        "left"@
    } else if hat == 7 {
        "NW"@
    } else if hat == 15 {
        "center"@
    } else {
        "?"@
    }
}

/// Does a HID usage page and usage describe a gamepad-like device? The
/// Generic Desktop page (1) with usage joystick (4), gamepad (5) or
/// multi-axis controller (8).
pub open spec fn gamepad_usage(page: u16, usage: u16) -> bool {
    page == 1 && (usage == 4 || usage == 5 || usage == 8)
}

/// The decimal digit `d` as text.
pub open spec fn digit_text(d: int) -> Seq<char> {
    if d == 0 {
        "0"@
    } else if d == 1 {
        "1"@
    } else if d == 2 {
        "2"@
    } else if d == 3 {
        "3"@
    } else if d == 4 {
        "4"@
    } else if d == 5 {
        "5"@
    } else if d == 6 {
        "6"@
    } else if d == 7 {
        "7"@
    } else if d == 8 {
        "8"@
    } else {
        "9"@
    }
}

/// The hexadecimal digit `d` as text, in lower case.
pub open spec fn hex_digit_text(d: int) -> Seq<char> {
    if d < 10 {
        digit_text(d)
    } else if d == 10 {
        "a"@
    } else if d == 11 {
        "b"@
    } else if d == 12 {
        "c"@
    } else if d == 13 {
        "d"@
    } else if d == 14 {
        "e"@
    } else {
        "f"@
    }
}

/// A byte in decimal, without leading zeros.
pub open spec fn decimal_text(n: u8) -> Seq<char> {
    if n >= 100 {
        digit_text((n / 100) as int) + digit_text(((n / 10) % 10) as int) + digit_text((n % 10) as int)
    } else if n >= 10 {
        digit_text((n / 10) as int) + digit_text((n % 10) as int)
    } else {
        digit_text(n as int)
    }
}

/// A byte as two lower-case hexadecimal digits.
pub open spec fn hex_text(b: u8) -> Seq<char> {
    hex_digit_text((b / 16) as int) + hex_digit_text((b % 16) as int)
}

/// The texts of `parts` with `sep` between each two.
pub open spec fn joined(parts: Seq<Seq<char>>, sep: Seq<char>) -> Seq<char>
    decreases parts.len(),
{
    if parts.len() == 0 {
        Seq::empty()
    } else if parts.len() == 1 {
        parts[0]
    } else {
        joined(parts.drop_last(), sep) + sep + parts.last()
    }
}

/// The entries `number(name)` of the buttons among 1..=`k` pressed in
/// `buttons`, in ascending order.
pub open spec fn button_entries(buttons: u16, k: nat) -> Seq<Seq<char>>
    decreases k,
{
    if k == 0 {
        Seq::empty()
    } else {
        let prev = button_entries(buttons, (k - 1) as nat);
        if button_pressed(buttons, k as int) {
            prev.push(decimal_text(k as u8) + "("@ + button_name_text(k as u8) + ")"@)
        } else {
            prev
        }
    }
}

/// The button bitmap of a raw report.
pub open spec fn report_buttons(r: Seq<u8>) -> u16 {
    (r[0] as u16) | ((r[1] as u16) << 8u16)
}

/// The line that describes a raw report: the pressed buttons (or `-`), the
/// hat nibble and its label, the left stick, and every byte in hexadecimal.
pub open spec fn report_text(r: Seq<u8>) -> Seq<char> {
    let entries = button_entries(report_buttons(r), 13);
    let hat = r[2] & 0x0f;
    "btns["@ + (if entries.len() == 0 {
        "-"@
    } else {
        joined(entries, ", "@)
    }) + "]  hat="@ + decimal_text(hat) + "("@ + hat_label_text(hat) + ")  stick=("@ + decimal_text(
        r[3],
    ) + ","@ + decimal_text(r[4]) + ")\n    raw: "@ + joined(r.map_values(|b: u8| hex_text(b)), " "@)
}

/// Name of button `b` (1-based) of the pad, or `?`.
pub fn button_name(b: u8) -> (name: &'static str)
    ensures
        name@ == button_name_text(b),
{
    if 1 <= b && b <= 13 {
        BTN_NAMES[(b - 1) as usize]
    } else {
        "?"
    }
}

/// Label of a raw hat nibble, diagonals included.
pub fn hat_label(hat: u8) -> (label: &'static str)
    ensures
        label@ == hat_label_text(hat),
{
    match hat {
        0 => "up",
        1 => "NE",
        2 => "right",
        3 => "SE",
        4 => "down",
        5 => "SW",
        6 => "left",
        7 => "NW",
        15 => "center",
        _ => "?",
    }
}

/// Does a HID device with this usage page and usage look like a gamepad?
pub fn is_gamepad_usage(page: u16, usage: u16) -> (b: bool)
    ensures
        b == gamepad_usage(page, usage),
{
    page == 0x0001 && (usage == 0x0004 || usage == 0x0005 || usage == 0x0008)
}

fn push_digit(s: &mut String, d: u8)
    requires
        d < 10,
    ensures
        final(s)@ == old(s)@ + digit_text(d as int),
{
    match d {
        0 => s.append("0"),
        1 => s.append("1"),
        2 => s.append("2"),
        3 => s.append("3"),
        4 => s.append("4"),
        5 => s.append("5"),
        6 => s.append("6"),
        7 => s.append("7"),
        8 => s.append("8"),
        _ => s.append("9"),
    }
}

fn push_hex_digit(s: &mut String, d: u8)
    requires
        d < 16,
    ensures
        final(s)@ == old(s)@ + hex_digit_text(d as int),
{
    match d {
        10 => s.append("a"),
        11 => s.append("b"),
        12 => s.append("c"),
        13 => s.append("d"),
        14 => s.append("e"),
        15 => s.append("f"),
        _ => push_digit(s, d),
    }
}

fn push_decimal(s: &mut String, n: u8)
    ensures
        final(s)@ == old(s)@ + decimal_text(n),
{
    let ghost start = s@;
    if n >= 100 {
        push_digit(s, n / 100);
        push_digit(s, (n / 10) % 10);
        push_digit(s, n % 10);
        assert(s@ =~= start + decimal_text(n));
    } else if n >= 10 {
        push_digit(s, n / 10);
        push_digit(s, n % 10);
        assert(s@ =~= start + decimal_text(n));
    } else {
        push_digit(s, n);
    }
}

fn push_hex(s: &mut String, b: u8)
    ensures
        final(s)@ == old(s)@ + hex_text(b),
{
    let ghost start = s@;
    push_hex_digit(s, b / 16);
    push_hex_digit(s, b % 16);
    assert(s@ =~= start + hex_text(b));
}

/// The line that describes a raw report (see [`report_text`]).
pub fn report_line(r: &[u8]) -> (line: String)
    requires
        r@.len() >= 5,
    ensures
        line@ == report_text(r@),
{
    let buttons: u16 = r[0] as u16 | ((r[1] as u16) << 8);
    let mut entries = String::new();
    let mut any = false;
    for b in 1..14u8
        invariant
            buttons == report_buttons(r@),
            any == (button_entries(buttons, (b - 1) as nat).len() > 0),
            any ==> entries@ == joined(button_entries(buttons, (b - 1) as nat), ", "@),
            !any ==> entries@ == Seq::<char>::empty(),
    {
        let ghost prev = button_entries(buttons, (b - 1) as nat);
        let ghost before = entries@;
        let mask: u16 = 1u16 << ((b - 1) as u16);
        assert(mask == 1u16 << ((b as int - 1) as u16));
        if buttons & mask != 0 {
            let ghost entry = decimal_text(b) + "("@ + button_name_text(b) + ")"@;
            if any {
                entries.append(", ");
            }
            push_decimal(&mut entries, b);
            entries.append("(");
            entries.append(button_name(b));
            entries.append(")");
            assert(prev.push(entry).drop_last() =~= prev);
            if any {
                assert(entries@ =~= joined(prev, ", "@) + ", "@ + entry);
            } else {
                assert(entries@ =~= entry);
            }
            assert(button_entries(buttons, b as nat) == prev.push(entry));
            any = true;
        }
    }
    let mut line = String::new();
    line.append("btns[");
    if any {
        line.append(entries.as_str());
    } else {
        line.append("-");
    }
    line.append("]  hat=");
    let hat = r[2] & 0x0F;
    push_decimal(&mut line, hat);
    line.append("(");
    line.append(hat_label(hat));
    line.append(")  stick=(");
    push_decimal(&mut line, r[3]);
    line.append(",");
    push_decimal(&mut line, r[4]);
    line.append(")\n    raw: ");
    let ghost head = line@;
    let ghost hexes = r@.map_values(|b: u8| hex_text(b));
    for i in 0..r.len()
        invariant
            hexes == r@.map_values(|b: u8| hex_text(b)),
            line@ == head + joined(hexes.take(i as int), " "@),
    {
        let ghost before = line@;
        if i > 0 {
            line.append(" ");
        }
        push_hex(&mut line, r[i]);
        assert(hexes.take(i + 1).drop_last() =~= hexes.take(i as int));
        if i > 0 {
            assert(line@ =~= head + (joined(hexes.take(i as int), " "@) + " "@ + hexes[i as int]));
        } else {
            assert(hexes.take(1)[0] == hexes[0]);
            assert(line@ =~= head + hexes[0]);
        }
    }
    assert(hexes.take(r@.len() as int) =~= hexes);
    line
}

} // verus!
