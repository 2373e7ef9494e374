//! Keys, and the bytes that a terminal program reads for them.

use vstd::prelude::*;

use crate::text;

verus! {

/// A key of the keyboard.
#[derive(Debug, Clone, Copy, PartialEq, Eq, Structural)]
pub enum KeyCode {
    Backspace,
    Enter,
    Left,
    Right,
    Up,
    Down,
    Home,
    End,
    PageUp,
    PageDown,
    Tab,
    BackTab,
    Delete,
    Insert,
    F(u8),
    Char(char),
    Null,
    Esc,
    /// A key that has no sequence of its own.
    Other,
}

/// The modifier keys held down.
#[derive(Debug, Clone, Copy, PartialEq, Eq, Structural)]
pub struct KeyModifiers {
    pub shift: bool,
    pub control: bool,
    pub alt: bool,
}

#[derive(Debug, Clone, Copy, PartialEq, Eq, Structural)]
pub struct KeyEvent {
    pub code: KeyCode,
    pub modifiers: KeyModifiers,
}

impl KeyModifiers {
    pub fn none() -> (modifiers: KeyModifiers)
        ensures
            modifiers == (KeyModifiers { shift: false, control: false, alt: false }),
    {
        KeyModifiers { shift: false, control: false, alt: false }
    }
}

/// The number that stands for held modifiers in a key sequence.
pub open spec fn modifier_number(modifiers: KeyModifiers) -> nat {
    let shift: nat = if modifiers.shift {
        1
    } else {
        0
    };
    let alt: nat = if modifiers.alt {
        2
    } else {
        0
    };
    let control: nat = if modifiers.control {
        4
    } else {
        0
    };
    1 + shift + alt + control
}

/// Whether any modifier is held.
pub open spec fn modified(modifiers: KeyModifiers) -> bool {
    modifiers.shift || modifiers.alt || modifiers.control
}

/// The control character of a character typed with the control key.
pub open spec fn control_char(c: char) -> Option<char> {
    let c = text::ascii_lower(c);
    if 'a' <= c <= 'z' {
        Some((c as u32 - 0x60) as char)
    } else if c == ' ' || c == '@' || c == '2' {
        Some('\x00')
    } else if c == '[' || c == '3' {
        Some('\x1b')
    } else if c == '\\' || c == '4' {
        Some('\x1c')
    } else if c == ']' || c == '5' {
        Some('\x1d')
    } else if c == '^' || c == '6' {
        Some('\x1e')
    } else if c == '_' || c == '/' || c == '-' || c == '7' {
        Some('\x1f')
    } else if c == '?' || c == '8' {
        Some('\x7f')
    } else {
        None
    }
}

/// A sequence behind an escape character where the alt key is held.
pub open spec fn alt_text(inner: Seq<char>, alt: bool) -> Seq<char> {
    if alt {
        seq!['\x1b'] + inner
    } else {
        inner
    }
}

/// A control sequence that ends in a letter, with the modifiers held.
pub open spec fn modified_letter(last: char, modifiers: KeyModifiers) -> Seq<char> {
    "\x1b[1;"@ + text::decimal(modifier_number(modifiers)) + seq![last]
}

/// The sequence of a cursor key.
pub open spec fn cursor_text(last: char, modifiers: KeyModifiers, application_cursor: bool) -> Seq<
    char,
> {
    if modified(modifiers) {
        modified_letter(last, modifiers)
    } else if application_cursor {
        "\x1bO"@ + seq![last]
    } else {
        "\x1b["@ + seq![last]
    }
}

/// The sequence of a key that goes by a number.
pub open spec fn numbered_text(number: nat, modifiers: KeyModifiers) -> Seq<char> {
    if modified(modifiers) {
        "\x1b["@ + text::decimal(number) + ";"@ + text::decimal(modifier_number(modifiers)) + "~"@
    } else {
        "\x1b["@ + text::decimal(number) + "~"@
    }
}

/// The letter of one of the first four function keys.
pub open spec fn function_letter(number: u8) -> Option<char> {
    if number == 1 {
        Some('P')
    } else if number == 2 {
        Some('Q')
    } else if number == 3 {
        Some('R')
    } else if number == 4 {
        Some('S')
    } else {
        None
    }
}

/// The number of one of the other function keys.
pub open spec fn function_number(number: u8) -> Option<nat> {
    if number == 5 {
        Some(15)
    } else if 6 <= number <= 10 {
        Some((number + 11) as nat)
    } else if number == 11 {
        Some(23)
    } else if number == 12 {
        Some(24)
    } else {
        None
    }
}

/// The sequence of a function key; there are twelve.
pub open spec fn function_text(number: u8, modifiers: KeyModifiers) -> Option<Seq<char>> {
    match function_letter(number) {
        Some(last) => Some(
            if modified(modifiers) {
                modified_letter(last, modifiers)
            } else {
                "\x1bO"@ + seq![last]
            },
        ),
        None => match function_number(number) {
            Some(n) => Some(numbered_text(n, modifiers)),
            None => None,
        },
    }
}

/// The sequence of the backspace key: with control, the one that deletes a word.
pub open spec fn backspace_text(modifiers: KeyModifiers) -> Seq<char> {
    alt_text(
        if modifiers.control {
            seq!['\x17']
        } else {
            seq!['\x7f']
        },
        modifiers.alt,
    )
}

/// What a terminal program reads for a key, where the key has a sequence.
pub open spec fn key_text(key: KeyEvent, application_cursor: bool) -> Option<Seq<char>> {
    let modifiers = key.modifiers;
    match key.code {
        KeyCode::Char(c) => if modifiers.control {
            match control_char(c) {
                Some(control) => Some(alt_text(seq![control], modifiers.alt)),
                None => None,
            }
        } else {
            Some(alt_text(seq![c], modifiers.alt))
        },
        KeyCode::Backspace => Some(backspace_text(modifiers)),
        KeyCode::Enter => Some(alt_text(seq!['\r'], modifiers.alt)),
        KeyCode::Tab => Some(alt_text(seq!['\t'], modifiers.alt)),
        KeyCode::BackTab => Some("\x1b[Z"@),
        KeyCode::Esc => Some("\x1b"@),
        KeyCode::Left => Some(cursor_text('D', modifiers, application_cursor)),
        KeyCode::Right => Some(cursor_text('C', modifiers, application_cursor)),
        KeyCode::Up => Some(cursor_text('A', modifiers, application_cursor)),
        KeyCode::Down => Some(cursor_text('B', modifiers, application_cursor)),
        KeyCode::Home => Some(cursor_text('H', modifiers, application_cursor)),
        KeyCode::End => Some(cursor_text('F', modifiers, application_cursor)),
        KeyCode::PageUp => Some(numbered_text(5, modifiers)),
        KeyCode::PageDown => Some(numbered_text(6, modifiers)),
        KeyCode::Delete => Some(numbered_text(3, modifiers)),
        KeyCode::Insert => Some(numbered_text(2, modifiers)),
        KeyCode::F(number) => function_text(number, modifiers),
        KeyCode::Null => Some("\0"@),
        KeyCode::Other => None,
    }
}

pub fn ctrl_byte(c: char) -> (byte: Option<u8>)
    ensures
        byte is Some <==> control_char(c) is Some,
        byte matches Some(b) ==> b < 128 && control_char(c) == Some(b as char),
{
    let code = c as u32;
    let lower: u32 = if 0x41 <= code && code <= 0x5a {
        code + 32
    } else {
        code
    };
    if 0x61 <= lower && lower <= 0x7a {
        Some((lower - 0x60) as u8)
    } else {
        match c {
            ' ' | '@' | '2' => Some(0x00),
            '[' | '3' => Some(0x1b),
            '\\' | '4' => Some(0x1c),
            ']' | '5' => Some(0x1d),
            '^' | '6' => Some(0x1e),
            '_' | '/' | '-' | '7' => Some(0x1f),
            '?' | '8' => Some(0x7f),
            _ => None,
        }
    }
}

pub fn modifier_code(modifiers: KeyModifiers) -> (code: Option<u8>)
    ensures
        code is Some <==> modified(modifiers),
        code matches Some(n) ==> n == modifier_number(modifiers),
{
    let mut code: u8 = 1;
    if modifiers.shift {
        code = code + 1;
    }
    if modifiers.alt {
        code = code + 2;
    }
    if modifiers.control {
        code = code + 4;
    }
    if code == 1 {
        None
    } else {
        Some(code)
    }
}

fn with_alt(inner: String, alt: bool) -> (out: String)
    ensures
        out@ == alt_text(inner@, alt),
{
    if alt {
        let mut out = String::new();
        out.push('\x1b');
        out.append(&inner);
        proof {
            assert(out@ =~= seq!['\x1b'] + inner@);
        }
        out
    } else {
        inner
    }
}

fn one_char(c: char) -> (out: String)
    ensures
        out@ == seq![c],
{
    let mut out = String::new();
    out.push(c);
    proof {
        assert(out@ =~= seq![c]);
    }
    out
}

fn backspace_key(modifiers: KeyModifiers) -> (out: String)
    ensures
        out@ == backspace_text(modifiers),
{
    with_alt(
        one_char(
            if modifiers.control {
                '\x17'
            } else {
                '\x7f'
            },
        ),
        modifiers.alt,
    )
}

fn csi_letter(last: char, code: u8) -> (out: String)
    ensures
        out@ == "\x1b[1;"@ + text::decimal(code as nat) + seq![last],
{
    let mut out = "\x1b[1;".to_owned();
    text::push_decimal(&mut out, code as u64);
    out.append(&one_char(last));
    out
}

fn cursor_key(last: char, modifiers: KeyModifiers, application_cursor: bool) -> (out: String)
    ensures
        out@ == cursor_text(last, modifiers, application_cursor),
{
    match modifier_code(modifiers) {
        Some(code) => csi_letter(last, code),
        None => {
            let mut out = if application_cursor {
                "\x1bO".to_owned()
            } else {
                "\x1b[".to_owned()
            };
            out.append(&one_char(last));
            out
        },
    }
}

fn csi_tilde(number: u8, modifiers: KeyModifiers) -> (out: String)
    ensures
        out@ == numbered_text(number as nat, modifiers),
{
    let mut out = "\x1b[".to_owned();
    text::push_decimal(&mut out, number as u64);
    if let Some(code) = modifier_code(modifiers) {
        out.append(";");
        text::push_decimal(&mut out, code as u64);
    }
    out.append("~");
    out
}

fn function_key(number: u8, modifiers: KeyModifiers) -> (out: Option<String>)
    ensures
        text::maybe(out) == function_text(number, modifiers),
{
    let letter = match number {
        1 => Some('P'),
        2 => Some('Q'),
        3 => Some('R'),
        4 => Some('S'),
        _ => None,
    };
    if let Some(last) = letter {
        return Some(
            match modifier_code(modifiers) {
                Some(code) => csi_letter(last, code),
                None => {
                    let mut out = "\x1bO".to_owned();
                    out.append(&one_char(last));
                    out
                },
            },
        );
    }
    let number: u8 = match number {
        5 => 15,
        6 => 17,
        7 => 18,
        8 => 19,
        9 => 20,
        10 => 21,
        11 => 23,
        12 => 24,
        _ => {
            return None;
        },
    };
    Some(csi_tilde(number, modifiers))
}

fn key_string(key: KeyEvent, application_cursor: bool) -> (out: Option<String>)
    ensures
        text::maybe(out) == key_text(key, application_cursor),
{
    let modifiers = key.modifiers;
    match key.code {
        KeyCode::Char(c) => if modifiers.control {
            match ctrl_byte(c) {
                Some(byte) => Some(with_alt(one_char(byte as char), modifiers.alt)),
                None => None,
            }
        } else {
            Some(with_alt(one_char(c), modifiers.alt))
        },
        KeyCode::Backspace => Some(backspace_key(modifiers)),
        KeyCode::Enter => Some(with_alt(one_char('\r'), modifiers.alt)),
        KeyCode::Tab => Some(with_alt(one_char('\t'), modifiers.alt)),
        KeyCode::BackTab => Some("\x1b[Z".to_owned()),
        KeyCode::Esc => Some("\x1b".to_owned()),
        KeyCode::Left => Some(cursor_key('D', modifiers, application_cursor)),
        KeyCode::Right => Some(cursor_key('C', modifiers, application_cursor)),
        KeyCode::Up => Some(cursor_key('A', modifiers, application_cursor)),
        KeyCode::Down => Some(cursor_key('B', modifiers, application_cursor)),
        KeyCode::Home => Some(cursor_key('H', modifiers, application_cursor)),
        KeyCode::End => Some(cursor_key('F', modifiers, application_cursor)),
        KeyCode::PageUp => Some(csi_tilde(5, modifiers)),
        KeyCode::PageDown => Some(csi_tilde(6, modifiers)),
        KeyCode::Delete => Some(csi_tilde(3, modifiers)),
        KeyCode::Insert => Some(csi_tilde(2, modifiers)),
        KeyCode::F(number) => function_key(number, modifiers),
        KeyCode::Null => Some("\0".to_owned()),
        KeyCode::Other => None,
    }
}

/// The bytes that a terminal program reads for a key; nothing for a key that
/// has no sequence.
pub fn key_to_bytes(key: KeyEvent, application_cursor: bool) -> (bytes: Option<Vec<u8>>)
    ensures
        bytes is Some <==> key_text(key, application_cursor) is Some,
        bytes matches Some(b) ==> b@ == vstd::utf8::encode_utf8(
            key_text(key, application_cursor)->0,
        ),
{
    match key_string(key, application_cursor) {
        Some(sequence) => Some(text::bytes_of(&sequence)),
        None => None,
    }
}

proof fn lemma_one_digit(n: nat)
    requires
        n < 10,
    ensures
        text::decimal(n) == seq![(0x30 + n) as char],
{
    assert(text::decimal(n) =~= seq![text::digit(n)]);
}

proof fn lemma_two_digits(n: nat)
    requires
        10 <= n < 30,
    ensures
        text::decimal(n) == seq![(0x30 + n / 10) as char, (0x30 + n % 10) as char],
{
    lemma_one_digit(n / 10);
    assert(text::decimal(n) =~= seq![(0x30 + n / 10) as char, (0x30 + n % 10) as char]);
}

/// The digit that tells which modifiers are held: `2` for shift, one more than the
/// sum of one for shift, two for alt and four for control.
pub open spec fn is_modifier_digit(digit: char, modifiers: KeyModifiers) -> bool {
    digit as int == 0x31 + (if modifiers.shift {
        1int
    } else {
        0
    }) + (if modifiers.alt {
        2int
    } else {
        0
    }) + (if modifiers.control {
        4int
    } else {
        0
    })
}

/// The cursor keys end in the letters A to D, Home in H and End in F: behind an
/// escape character and a bracket, or the letter O where the program asked for
/// that; and behind the digit of the modifiers where any is held.
pub proof fn cursor_keys_end_in_their_letters(
    code: KeyCode,
    last: char,
    digit: char,
    modifiers: KeyModifiers,
    application_cursor: bool,
)
    requires
        ({
            ||| code == KeyCode::Up && last == 'A'
            ||| code == KeyCode::Down && last == 'B'
            ||| code == KeyCode::Right && last == 'C'
            ||| code == KeyCode::Left && last == 'D'
            ||| code == KeyCode::Home && last == 'H'
            ||| code == KeyCode::End && last == 'F'
        }),
        is_modifier_digit(digit, modifiers),
    ensures
        key_text(KeyEvent { code, modifiers }, application_cursor) == Some(
            if modifiers.shift || modifiers.alt || modifiers.control {
                seq!['\x1b', '[', '1', ';', digit, last]
            } else if application_cursor {
                seq!['\x1b', 'O', last]
            } else {
                seq!['\x1b', '[', last]
            },
        ),
{
    reveal_strlit("\x1b[1;");
    reveal_strlit("\x1bO");
    reveal_strlit("\x1b[");
    lemma_one_digit(modifier_number(modifiers));
    let found = key_text(KeyEvent { code, modifiers }, application_cursor)->0;
    if modified(modifiers) {
        assert(found =~= seq!['\x1b', '[', '1', ';', digit, last]);
    } else if application_cursor {
        assert(found =~= seq!['\x1b', 'O', last]);
    } else {
        assert(found =~= seq!['\x1b', '[', last]);
    }
}

/// The keys to insert, to delete and to turn a page go by the numbers 2, 3, 5 and
/// 6, in front of a tilde, with the digit of the modifiers where any is held.
pub proof fn paging_keys_go_by_their_numbers(
    code: KeyCode,
    number: char,
    digit: char,
    modifiers: KeyModifiers,
    application_cursor: bool,
)
    requires
        ({
            ||| code == KeyCode::Insert && number == '2'
            ||| code == KeyCode::Delete && number == '3'
            ||| code == KeyCode::PageUp && number == '5'
            ||| code == KeyCode::PageDown && number == '6'
        }),
        is_modifier_digit(digit, modifiers),
    ensures
        key_text(KeyEvent { code, modifiers }, application_cursor) == Some(
            if modifiers.shift || modifiers.alt || modifiers.control {
                seq!['\x1b', '[', number, ';', digit, '~']
            } else {
                seq!['\x1b', '[', number, '~']
            },
        ),
{
    reveal_strlit("\x1b[");
    reveal_strlit(";");
    reveal_strlit("~");
    lemma_one_digit(modifier_number(modifiers));
    lemma_one_digit(2);
    lemma_one_digit(3);
    lemma_one_digit(5);
    lemma_one_digit(6);
    let found = key_text(KeyEvent { code, modifiers }, application_cursor)->0;
    if modified(modifiers) {
        assert(found =~= seq!['\x1b', '[', number, ';', digit, '~']);
    } else {
        assert(found =~= seq!['\x1b', '[', number, '~']);
    }
}

/// The first four function keys end in the letters P to S; the other eight go by
/// numbers, of which 16 and 22 are left out. There are no more of them.
pub proof fn function_keys_are_twelve(
    number: u8,
    digit: char,
    modifiers: KeyModifiers,
    application_cursor: bool,
)
    requires
        is_modifier_digit(digit, modifiers),
    ensures
        ({
            let found = key_text(KeyEvent { code: KeyCode::F(number), modifiers }, application_cursor);
            let held = modifiers.shift || modifiers.alt || modifiers.control;
            &&& found is Some <==> 1 <= number <= 12
            &&& 1 <= number <= 4 ==> {
                let last = ('O' as u32 + number) as char;
                found == Some(
                    if held {
                        seq!['\x1b', '[', '1', ';', digit, last]
                    } else {
                        seq!['\x1b', 'O', last]
                    },
                )
            }
            &&& 5 <= number <= 12 ==> {
                let n: int = number + if number == 5 {
                    10int
                } else if number <= 10 {
                    11
                } else {
                    12
                };
                let tens = (0x30 + n / 10) as char;
                let ones = (0x30 + n % 10) as char;
                found == Some(
                    if held {
                        seq!['\x1b', '[', tens, ones, ';', digit, '~']
                    } else {
                        seq!['\x1b', '[', tens, ones, '~']
                    },
                )
            }
        }),
{
    reveal_strlit("\x1b[1;");
    reveal_strlit("\x1bO");
    reveal_strlit("\x1b[");
    reveal_strlit(";");
    reveal_strlit("~");
    lemma_one_digit(modifier_number(modifiers));
    let event = KeyEvent { code: KeyCode::F(number), modifiers };
    if 1 <= number <= 4 {
        let last = ('O' as u32 + number) as char;
        let found = key_text(event, application_cursor)->0;
        if modified(modifiers) {
            assert(found =~= seq!['\x1b', '[', '1', ';', digit, last]);
        } else {
            assert(found =~= seq!['\x1b', 'O', last]);
        }
    } else if 5 <= number <= 12 {
        let n: int = number + if number == 5 {
            10int
        } else if number <= 10 {
            11
        } else {
            12
        };
        lemma_two_digits(n as nat);
        let tens = (0x30 + n / 10) as char;
        let ones = (0x30 + n % 10) as char;
        let found = key_text(event, application_cursor)->0;
        if modified(modifiers) {
            assert(found =~= seq!['\x1b', '[', tens, ones, ';', digit, '~']);
        } else {
            assert(found =~= seq!['\x1b', '[', tens, ones, '~']);
        }
    }
}

/// A character is sent as it is typed. With control held, the letters are numbered
/// from one on, whatever their case, some other characters have control characters
/// of their own, and all others are not sent. With alt held, an escape character
/// goes first.
pub proof fn characters_are_sent_as_typed(
    c: char,
    modifiers: KeyModifiers,
    application_cursor: bool,
)
    ensures
        ({
            let found = key_text(KeyEvent { code: KeyCode::Char(c), modifiers }, application_cursor);
            let sent = |code: int|
                found == Some(
                    if modifiers.alt {
                        seq!['\x1b', code as char]
                    } else {
                        seq![code as char]
                    },
                );
            &&& !modifiers.control ==> sent(c as int)
            &&& modifiers.control ==> {
                &&& 'a' <= c <= 'z' ==> sent(1 + (c as int - 'a' as int))
                &&& 'A' <= c <= 'Z' ==> sent(1 + (c as int - 'A' as int))
                &&& '2' <= c <= '8' ==> sent(
                    if c == '2' {
                        0
                    } else if c == '8' {
                        127
                    } else {
                        24 + (c as int - '0' as int)
                    },
                )
                &&& c == '@' || c == ' ' ==> sent(0)
                &&& '[' <= c <= '_' ==> sent(c as int - 64)
                &&& c == '/' || c == '-' ==> sent(31)
                &&& c == '?' ==> sent(127)
                &&& !('a' <= c <= 'z') && !('?' <= c <= '_') && !('2' <= c <= '8') && c != ' '
                    && c != '/' && c != '-' ==> found is None
            }
        }),
{
    let event = KeyEvent { code: KeyCode::Char(c), modifiers };
    let found = key_text(event, application_cursor);
    if found is Some && modifiers.alt {
        let sent = if modifiers.control {
            control_char(c)->0
        } else {
            c
        };
        assert(found->0 =~= seq!['\x1b', sent]);
    }
}

/// What the other keys send: a carriage return, a tab, a delete character, an
/// escape character; alt goes first where it is held, but for the last and for the
/// key to tab back. Backspace with control sends the character that deletes a word.
pub proof fn editing_keys_send_their_characters(modifiers: KeyModifiers, application_cursor: bool)
    ensures
        ({
            let found = |code: KeyCode| key_text(KeyEvent { code, modifiers }, application_cursor);
            let sent = |c: char|
                Some(
                    if modifiers.alt {
                        seq!['\x1b', c]
                    } else {
                        seq![c]
                    },
                );
            &&& found(KeyCode::Enter) == sent('\r')
            &&& found(KeyCode::Tab) == sent('\t')
            &&& found(KeyCode::Backspace) == sent(
                if modifiers.control {
                    '\x17'
                } else {
                    '\x7f'
                },
            )
            &&& found(KeyCode::Esc) == Some(seq!['\x1b'])
            &&& found(KeyCode::BackTab) == Some(seq!['\x1b', '[', 'Z'])
            &&& found(KeyCode::Null) == Some(seq!['\0'])
            &&& found(KeyCode::Other) is None
        }),
{
    reveal_strlit("\x1b[Z");
    reveal_strlit("\x1b");
    reveal_strlit("\0");
    assert("\x1b[Z"@ =~= seq!['\x1b', '[', 'Z']);
    assert("\x1b"@ =~= seq!['\x1b']);
    assert("\0"@ =~= seq!['\0']);
    assert(seq!['\x1b'] + seq!['\r'] =~= seq!['\x1b', '\r']);
    assert(seq!['\x1b'] + seq!['\t'] =~= seq!['\x1b', '\t']);
    assert(seq!['\x1b'] + seq!['\x17'] =~= seq!['\x1b', '\x17']);
    assert(seq!['\x1b'] + seq!['\x7f'] =~= seq!['\x1b', '\x7f']);
}

/// Whether a key types a character that can be seen.
pub open spec fn is_printable(code: KeyCode) -> bool {
    code matches KeyCode::Char(c) ==> ' ' <= c && c != '\x7f'
}

/// Without modifiers, different keys send different bytes: what a program reads
/// tells which key it was.
pub proof fn different_keys_send_different_texts(
    a: KeyCode,
    b: KeyCode,
    modifiers: KeyModifiers,
    application_cursor: bool,
)
    requires
        a != b,
        is_printable(a),
        is_printable(b),
        !modifiers.shift && !modifiers.alt && !modifiers.control,
        key_text(KeyEvent { code: a, modifiers }, application_cursor) is Some,
        key_text(KeyEvent { code: b, modifiers }, application_cursor) is Some,
    ensures
        key_text(KeyEvent { code: a, modifiers }, application_cursor) != key_text(
            KeyEvent { code: b, modifiers },
            application_cursor,
        ),
{
    lemma_signature(a, modifiers, application_cursor);
    lemma_signature(b, modifiers, application_cursor);
}

/// The length of what a key sends, and the characters that tell it from others of
/// that length.
spec fn signature(code: KeyCode) -> (int, int, int) {
    match code {
        KeyCode::Char(c) => (1, c as int, 0),
        KeyCode::Backspace => (1, 0x7f, 0),
        KeyCode::Enter => (1, 0x0d, 0),
        KeyCode::Tab => (1, 0x09, 0),
        KeyCode::Esc => (1, 0x1b, 0),
        KeyCode::Null => (1, 0, 0),
        KeyCode::BackTab => (3, 'Z' as int, 0),
        KeyCode::Up => (3, 'A' as int, 0),
        KeyCode::Down => (3, 'B' as int, 0),
        KeyCode::Right => (3, 'C' as int, 0),
        KeyCode::Left => (3, 'D' as int, 0),
        KeyCode::Home => (3, 'H' as int, 0),
        KeyCode::End => (3, 'F' as int, 0),
        KeyCode::Insert => (4, '2' as int, 0),
        KeyCode::Delete => (4, '3' as int, 0),
        KeyCode::PageUp => (4, '5' as int, 0),
        KeyCode::PageDown => (4, '6' as int, 0),
        KeyCode::F(n) => if n <= 4 {
            (3, 'O' as int + n, 0)
        } else if n == 5 {
            (5, '1' as int, '5' as int)
        } else if n <= 8 {
            (5, '1' as int, '1' as int + n)
        } else if n <= 10 {
            (5, '2' as int, '0' as int + n - 9)
        } else {
            (5, '2' as int, '3' as int + n - 11)
        },
        KeyCode::Other => (0, 0, 0),
    }
}

proof fn lemma_signature(code: KeyCode, modifiers: KeyModifiers, application_cursor: bool)
    requires
        !modifiers.shift && !modifiers.alt && !modifiers.control,
        key_text(KeyEvent { code, modifiers }, application_cursor) is Some,
    ensures
        ({
            let found = key_text(KeyEvent { code, modifiers }, application_cursor)->0;
            let len = found.len();
            signature(code) == (
                len as int,
                if len == 1 {
                    found[0] as int
                } else {
                    found[2] as int
                },
                if len == 5 {
                    found[3] as int
                } else {
                    0
                },
            )
        }),
{
    match code {
        KeyCode::F(n) => {
            function_keys_are_twelve(n, '1', modifiers, application_cursor);
        },
        KeyCode::Char(c) => {
            characters_are_sent_as_typed(c, modifiers, application_cursor);
        },
        KeyCode::Up => {
            cursor_keys_end_in_their_letters(code, 'A', '1', modifiers, application_cursor);
        },
        KeyCode::Down => {
            cursor_keys_end_in_their_letters(code, 'B', '1', modifiers, application_cursor);
        },
        KeyCode::Right => {
            cursor_keys_end_in_their_letters(code, 'C', '1', modifiers, application_cursor);
        },
        KeyCode::Left => {
            cursor_keys_end_in_their_letters(code, 'D', '1', modifiers, application_cursor);
        },
        KeyCode::Home => {
            cursor_keys_end_in_their_letters(code, 'H', '1', modifiers, application_cursor);
        },
        KeyCode::End => {
            cursor_keys_end_in_their_letters(code, 'F', '1', modifiers, application_cursor);
        },
        KeyCode::Insert => {
            paging_keys_go_by_their_numbers(code, '2', '1', modifiers, application_cursor);
        },
        KeyCode::Delete => {
            paging_keys_go_by_their_numbers(code, '3', '1', modifiers, application_cursor);
        },
        KeyCode::PageUp => {
            paging_keys_go_by_their_numbers(code, '5', '1', modifiers, application_cursor);
        },
        KeyCode::PageDown => {
            paging_keys_go_by_their_numbers(code, '6', '1', modifiers, application_cursor);
        },
        _ => {
            editing_keys_send_their_characters(modifiers, application_cursor);
        },
    }
}

} // verus!
