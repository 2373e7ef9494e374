//! Mouse events, and the bytes that a terminal program reads for them.

use vstd::prelude::*;

use crate::keys::KeyModifiers;
use crate::text;

verus! {

#[derive(Debug, Clone, Copy, PartialEq, Eq, Structural)]
pub enum MouseButton {
    Left,
    Right,
    Middle,
}

#[derive(Debug, Clone, Copy, PartialEq, Eq, Structural)]
pub enum MouseEventKind {
    Down(MouseButton),
    Up(MouseButton),
    Drag(MouseButton),
    Moved,
    ScrollDown,
    ScrollUp,
    ScrollLeft,
    ScrollRight,
}

/// Which mouse events a terminal program asked for.
#[derive(Debug, Clone, Copy, PartialEq, Eq, Structural)]
pub enum MouseProtocolMode {
    Off,
    Press,
    PressRelease,
    ButtonMotion,
    AnyMotion,
}

/// How a terminal program wants mouse events written.
#[derive(Debug, Clone, Copy, PartialEq, Eq, Structural)]
pub enum MouseProtocolEncoding {
    Default,
    Utf8,
    Sgr,
}

pub open spec fn button_number(button: MouseButton) -> nat {
    match button {
        MouseButton::Left => 0,
        MouseButton::Middle => 1,
        MouseButton::Right => 2,
    }
}

pub open spec fn mode_reports_release(mode: MouseProtocolMode) -> bool {
    mode == MouseProtocolMode::PressRelease || mode == MouseProtocolMode::ButtonMotion || mode
        == MouseProtocolMode::AnyMotion
}

pub open spec fn mode_reports_drag(mode: MouseProtocolMode) -> bool {
    mode == MouseProtocolMode::ButtonMotion || mode == MouseProtocolMode::AnyMotion
}

/// The number of an event, where the mode reports it.
pub open spec fn event_number(
    kind: MouseEventKind,
    mode: MouseProtocolMode,
    encoding: MouseProtocolEncoding,
) -> Option<nat> {
    match kind {
        MouseEventKind::Down(button) => Some(button_number(button)),
        MouseEventKind::Up(button) => if mode_reports_release(mode) {
            Some(
                if encoding == MouseProtocolEncoding::Sgr {
                    button_number(button)
                } else {
                    3
                },
            )
        } else {
            None
        },
        MouseEventKind::Drag(button) => if mode_reports_drag(mode) {
            Some(button_number(button) + 32)
        } else {
            None
        },
        MouseEventKind::Moved => if mode == MouseProtocolMode::AnyMotion {
            Some(35)
        } else {
            None
        },
        MouseEventKind::ScrollUp => Some(64),
        MouseEventKind::ScrollDown => Some(65),
        MouseEventKind::ScrollLeft => Some(66),
        MouseEventKind::ScrollRight => Some(67),
    }
}

/// What held modifiers add to the number of an event.
pub open spec fn modifier_bits(modifiers: KeyModifiers) -> nat {
    let shift: nat = if modifiers.shift {
        4
    } else {
        0
    };
    let alt: nat = if modifiers.alt {
        8
    } else {
        0
    };
    let control: nat = if modifiers.control {
        16
    } else {
        0
    };
    shift + alt + control
}

/// A position counted from one, as far as the counter goes.
pub open spec fn one_based(n: u16) -> nat {
    if n < 0xffff {
        (n + 1) as nat
    } else {
        0xffff
    }
}

/// The sequence of an event in decimal notation.
pub open spec fn sgr_text(code: nat, x: nat, y: nat, release: bool) -> Seq<char> {
    "\x1b[<"@ + text::decimal(code) + ";"@ + text::decimal(x) + ";"@ + text::decimal(y) + (
    if release {
        "m"@
    } else {
        "M"@
    })
}

/// The sequence of an event with a byte per number; nothing where a number is
/// too large.
pub open spec fn byte_sequence(code: nat, x: nat, y: nat) -> Option<Seq<u8>> {
    if code + 32 <= 0xff && x + 32 <= 0xff && y + 32 <= 0xff {
        Some(
            Seq::<u8>::empty().push(0x1b).push(0x5b).push(0x4d).push((code + 32) as u8).push(
                (x + 32) as u8,
            ).push((y + 32) as u8),
        )
    } else {
        None
    }
}

/// Whether a number can be written as a character.
pub open spec fn has_char(n: nat) -> bool {
    n + 32 <= 0xffff && vstd::utf8::is_scalar((n + 32) as u32)
}

pub open spec fn char_of(n: nat) -> char {
    (n + 32) as char
}

/// The sequence of an event with a character per number; nothing where a
/// number has no character.
pub open spec fn char_sequence(code: nat, x: nat, y: nat) -> Option<Seq<char>> {
    if has_char(code) && has_char(x) && has_char(y) {
        Some("\x1b[M"@.push(char_of(code)).push(char_of(x)).push(char_of(y)))
    } else {
        None
    }
}

/// What a terminal program reads for a mouse event, where it asked for it.
pub open spec fn mouse_bytes(
    kind: MouseEventKind,
    row: u16,
    col: u16,
    modifiers: KeyModifiers,
    mode: MouseProtocolMode,
    encoding: MouseProtocolEncoding,
) -> Option<Seq<u8>> {
    match event_number(kind, mode, encoding) {
        None => None,
        Some(number) => {
            let code = number + modifier_bits(modifiers);
            let x = one_based(col);
            let y = one_based(row);
            match encoding {
                MouseProtocolEncoding::Sgr => Some(
                    vstd::utf8::encode_utf8(sgr_text(code, x, y, kind is Up)),
                ),
                MouseProtocolEncoding::Default => byte_sequence(code, x, y),
                MouseProtocolEncoding::Utf8 => match char_sequence(code, x, y) {
                    Some(chars) => Some(vstd::utf8::encode_utf8(chars)),
                    None => None,
                },
            }
        },
    }
}

pub fn button_code(button: MouseButton) -> (code: u16)
    ensures
        code == button_number(button),
{
    match button {
        MouseButton::Left => 0,
        MouseButton::Middle => 1,
        MouseButton::Right => 2,
    }
}

pub fn reports_release(mode: MouseProtocolMode) -> (yes: bool)
    ensures
        yes == mode_reports_release(mode),
{
    matches!(
        mode,
        MouseProtocolMode::PressRelease
            | MouseProtocolMode::ButtonMotion
            | MouseProtocolMode::AnyMotion
    )
}

pub fn reports_drag(mode: MouseProtocolMode) -> (yes: bool)
    ensures
        yes == mode_reports_drag(mode),
{
    matches!(mode, MouseProtocolMode::ButtonMotion | MouseProtocolMode::AnyMotion)
}

fn event_code(kind: MouseEventKind, mode: MouseProtocolMode, encoding: MouseProtocolEncoding) -> (code:
    Option<u16>)
    ensures
        code is Some <==> event_number(kind, mode, encoding) is Some,
        code matches Some(n) ==> event_number(kind, mode, encoding) == Some(n as nat) && n <= 67,
{
    match kind {
        MouseEventKind::Down(button) => Some(button_code(button)),
        MouseEventKind::Up(button) => if reports_release(mode) {
            Some(
                match encoding {
                    MouseProtocolEncoding::Sgr => button_code(button),
                    MouseProtocolEncoding::Default | MouseProtocolEncoding::Utf8 => 3,
                },
            )
        } else {
            None
        },
        MouseEventKind::Drag(button) => if reports_drag(mode) {
            Some(button_code(button) + 32)
        } else {
            None
        },
        MouseEventKind::Moved => if mode == MouseProtocolMode::AnyMotion {
            Some(35)
        } else {
            None
        },
        MouseEventKind::ScrollUp => Some(64),
        MouseEventKind::ScrollDown => Some(65),
        MouseEventKind::ScrollLeft => Some(66),
        MouseEventKind::ScrollRight => Some(67),
    }
}

fn sgr_mouse_sequence(code: u16, x: u16, y: u16, release: bool) -> (bytes: Vec<u8>)
    ensures
        bytes@ == vstd::utf8::encode_utf8(sgr_text(code as nat, x as nat, y as nat, release)),
{
    let mut out = "\x1b[<".to_owned();
    text::push_decimal(&mut out, code as u64);
    out.append(";");
    text::push_decimal(&mut out, x as u64);
    out.append(";");
    text::push_decimal(&mut out, y as u64);
    if release {
        out.append("m");
    } else {
        out.append("M");
    }
    text::bytes_of(&out)
}

fn default_mouse_sequence(code: u16, x: u16, y: u16) -> (bytes: Option<Vec<u8>>)
    ensures
        bytes is Some <==> byte_sequence(code as nat, x as nat, y as nat) is Some,
        bytes matches Some(b) ==> Some(b@) == byte_sequence(code as nat, x as nat, y as nat),
{
    if code > 223 || x > 223 || y > 223 {
        return None;
    }
    let mut bytes: Vec<u8> = Vec::new();
    bytes.push(0x1b);
    bytes.push(0x5b);
    bytes.push(0x4d);
    bytes.push((code + 32) as u8);
    bytes.push((x + 32) as u8);
    bytes.push((y + 32) as u8);
    Some(bytes)
}

fn push_utf8_mouse_value(out: &mut String, value: u16) -> (pushed: bool)
    ensures
        pushed == has_char(value as nat),
        pushed ==> final(out)@ == old(out)@.push(char_of(value as nat)),
        !pushed ==> final(out)@ == old(out)@,
{
    match value.checked_add(32) {
        Some(code) => match char::from_u32(code as u32) {
            Some(c) => {
                out.push(c);
                true
            },
            None => false,
        },
        None => false,
    }
}

fn utf8_mouse_sequence(code: u16, x: u16, y: u16) -> (bytes: Option<Vec<u8>>)
    ensures
        bytes is Some <==> char_sequence(code as nat, x as nat, y as nat) is Some,
        bytes matches Some(b) ==> b@ == vstd::utf8::encode_utf8(
            char_sequence(code as nat, x as nat, y as nat)->0,
        ),
{
    let mut out = "\x1b[M".to_owned();
    if push_utf8_mouse_value(&mut out, code) && push_utf8_mouse_value(&mut out, x)
        && push_utf8_mouse_value(&mut out, y) {
        Some(text::bytes_of(&out))
    } else {
        None
    }
}

/// The bytes that a terminal program reads for a mouse event; nothing for an
/// event that it did not ask for or that its encoding cannot express.
pub fn mouse_event_to_bytes(
    kind: MouseEventKind,
    row: u16,
    col: u16,
    modifiers: KeyModifiers,
    mode: MouseProtocolMode,
    encoding: MouseProtocolEncoding,
) -> (bytes: Option<Vec<u8>>)
    ensures
        bytes is Some <==> mouse_bytes(kind, row, col, modifiers, mode, encoding) is Some,
        bytes matches Some(b) ==> Some(b@) == mouse_bytes(
            kind,
            row,
            col,
            modifiers,
            mode,
            encoding,
        ),
{
    let mut code: u16 = match event_code(kind, mode, encoding) {
        Some(code) => code,
        None => {
            return None;
        },
    };
    if modifiers.shift {
        code = code + 4;
    }
    if modifiers.alt {
        code = code + 8;
    }
    if modifiers.control {
        code = code + 16;
    }
    let x = col.saturating_add(1);
    let y = row.saturating_add(1);
    let release = matches!(kind, MouseEventKind::Up(_));
    match encoding {
        MouseProtocolEncoding::Sgr => Some(sgr_mouse_sequence(code, x, y, release)),
        MouseProtocolEncoding::Default => default_mouse_sequence(code, x, y),
        MouseProtocolEncoding::Utf8 => utf8_mouse_sequence(code, x, y),
    }
}

/// Whether this is the number of an event without modifiers: the buttons are
/// numbered from left to right, a drag adds 32, and the wheel counts from 64 on. A
/// release is told from a press only where the encoding has another way to say so.
pub open spec fn is_event_number(
    kind: MouseEventKind,
    encoding: MouseProtocolEncoding,
    number: nat,
) -> bool {
    ||| kind == MouseEventKind::Down(MouseButton::Left) && number == 0
    ||| kind == MouseEventKind::Down(MouseButton::Middle) && number == 1
    ||| kind == MouseEventKind::Down(MouseButton::Right) && number == 2
    ||| kind == MouseEventKind::Drag(MouseButton::Left) && number == 32
    ||| kind == MouseEventKind::Drag(MouseButton::Middle) && number == 33
    ||| kind == MouseEventKind::Drag(MouseButton::Right) && number == 34
    ||| kind == MouseEventKind::Moved && number == 35
    ||| kind == MouseEventKind::ScrollUp && number == 64
    ||| kind == MouseEventKind::ScrollDown && number == 65
    ||| kind == MouseEventKind::ScrollLeft && number == 66
    ||| kind == MouseEventKind::ScrollRight && number == 67
    ||| kind is Up && !(encoding is Sgr) && number == 3
    ||| kind == MouseEventKind::Up(MouseButton::Left) && encoding is Sgr && number == 0
    ||| kind == MouseEventKind::Up(MouseButton::Middle) && encoding is Sgr && number == 1
    ||| kind == MouseEventKind::Up(MouseButton::Right) && encoding is Sgr && number == 2
}

/// A program is told of a press and of the wheel in every mode; of a release unless
/// it asked for presses alone; of a drag where it asked for motion; and of the
/// mouse moving where it asked for all motion. Held modifiers add 4, 8 and 16 to
/// the number of the event, and the column stands before the row, both counted
/// from one.
pub proof fn events_tell_what_happened_where(
    kind: MouseEventKind,
    row: u16,
    col: u16,
    modifiers: KeyModifiers,
    mode: MouseProtocolMode,
    encoding: MouseProtocolEncoding,
    number: nat,
)
    requires
        is_event_number(kind, encoding, number),
        row < 0xffff,
        col < 0xffff,
    ensures
        ({
            let bytes = mouse_bytes(kind, row, col, modifiers, mode, encoding);
            let asked = {
                &&& kind is Up ==> mode is PressRelease || mode is ButtonMotion || mode is AnyMotion
                &&& kind is Drag ==> mode is ButtonMotion || mode is AnyMotion
                &&& kind is Moved ==> mode is AnyMotion
            };
            let code: nat = number + (if modifiers.shift {
                4nat
            } else {
                0
            }) + (if modifiers.alt {
                8nat
            } else {
                0
            }) + (if modifiers.control {
                16nat
            } else {
                0
            });
            let x = (col + 1) as nat;
            let y = (row + 1) as nat;
            &&& !asked ==> bytes is None
            &&& asked && encoding is Sgr ==> bytes == Some(
                vstd::utf8::encode_utf8(
                    seq!['\x1b', '[', '<'] + text::decimal(code) + seq![';'] + text::decimal(x)
                        + seq![';'] + text::decimal(y) + seq![
                        if kind is Up {
                            'm'
                        } else {
                            'M'
                        },
                    ],
                ),
            )
            &&& asked && encoding is Default ==> bytes == (if x <= 223 && y <= 223 {
                Some(
                    seq![
                        0x1bu8,
                        0x5bu8,
                        0x4du8,
                        (code + 32) as u8,
                        (x + 32) as u8,
                        (y + 32) as u8,
                    ],
                )
            } else {
                None
            })
            &&& asked && encoding is Utf8 && x < 0xd7e0 && y < 0xd7e0 ==> bytes == Some(
                vstd::utf8::encode_utf8(
                    seq![
                        '\x1b',
                        '[',
                        'M',
                        (code + 32) as char,
                        (x + 32) as char,
                        (y + 32) as char,
                    ],
                ),
            )
        }),
{
    reveal_strlit("\x1b[<");
    reveal_strlit(";");
    reveal_strlit("m");
    reveal_strlit("M");
    reveal_strlit("\x1b[M");
    assert("\x1b[<"@ =~= seq!['\x1b', '[', '<']);
    assert(";"@ =~= seq![';']);
    assert("m"@ =~= seq!['m']);
    assert("M"@ =~= seq!['M']);
    assert("\x1b[M"@ =~= seq!['\x1b', '[', 'M']);
    let code = number + modifier_bits(modifiers);
    let x = one_based(col);
    let y = one_based(row);
    if encoding is Utf8 && x < 0xd7e0 && y < 0xd7e0 {
        assert(vstd::utf8::is_scalar((code + 32) as u32));
        assert(vstd::utf8::is_scalar((x + 32) as u32));
        assert(vstd::utf8::is_scalar((y + 32) as u32));
        assert("\x1b[M"@.push(char_of(code)).push(char_of(x)).push(char_of(y)) =~= seq![
            '\x1b',
            '[',
            'M',
            (code + 32) as char,
            (x + 32) as char,
            (y + 32) as char,
        ]);
    }
    if byte_sequence(code, x, y) is Some {
        assert(byte_sequence(code, x, y)->0 =~= seq![
            0x1bu8,
            0x5bu8,
            0x4du8,
            (code + 32) as u8,
            (x + 32) as u8,
            (y + 32) as u8,
        ]);
    }
}

} // verus!
