//! X11 keysyms; the VNC protocol carries them verbatim.
use vstd::prelude::*;

use crate::text::{ascii_lower, chars_of, decimal, digit, opt_text, same_text, to_ascii_lower};

verus! {

pub const XK_BACKSPACE: u32 = 0xff08;

pub const XK_TAB: u32 = 0xff09;

pub const XK_RETURN: u32 = 0xff0d;

pub const XK_ESCAPE: u32 = 0xff1b;

pub const XK_HOME: u32 = 0xff50;

pub const XK_LEFT: u32 = 0xff51;

pub const XK_UP: u32 = 0xff52;

pub const XK_RIGHT: u32 = 0xff53;

pub const XK_DOWN: u32 = 0xff54;

pub const XK_PAGE_UP: u32 = 0xff55;

pub const XK_PAGE_DOWN: u32 = 0xff56;

pub const XK_END: u32 = 0xff57;

pub const XK_INSERT: u32 = 0xff63;

pub const XK_F1: u32 = 0xffbe;

pub const XK_SHIFT_L: u32 = 0xffe1;

pub const XK_CONTROL_L: u32 = 0xffe3;

pub const XK_ALT_L: u32 = 0xffe9;

pub const XK_SUPER_L: u32 = 0xffeb;

pub const XK_DELETE: u32 = 0xffff;

/// Keysyms above Latin-1 are the Unicode code point with this bit set.
pub const UNICODE_KEYSYM_BASE: u32 = 0x0100_0000;

/// Printable Latin-1 is its own keysym; the rest uses the Unicode range.
pub open spec fn char_keysym(c: char) -> u32 {
    if 0x20 <= c as u32 <= 0xff {
        c as u32
    } else {
        (UNICODE_KEYSYM_BASE + c as u32) as u32
    }
}

pub fn keysym_for_char(character: char) -> (keysym: u32)
    ensures
        keysym == char_keysym(character),
        0x20 <= (character as u32) <= 0xff ==> keysym == character as u32,
        !(0x20 <= (character as u32) <= 0xff) ==> keysym == 0x0100_0000 + character as u32,
{
    let code: u32 = character as u32;
    if 0x20 <= code && code <= 0xff {
        code
    } else {
        assert(code < 0x110000);
        assert((0x0100_0000u32 | code) == 0x0100_0000u32 + code) by (bit_vector)
            requires
                code < 0x110000,
        ;
        UNICODE_KEYSYM_BASE | code
    }
}

pub open spec fn decimal_digit(c: char) -> bool {
    '0' <= c && c <= '9'
}

pub open spec fn digit_value(c: char) -> int {
    c as u32 - 48
}

/// The number that `digits` spells, where it has one or two places; a plus sign
/// may stand for the first of two.
pub open spec fn short_number(digits: Seq<char>) -> Option<int> {
    if digits.len() == 1 && decimal_digit(digits[0]) {
        Some(digit_value(digits[0]))
    } else if digits.len() == 2 && decimal_digit(digits[1]) && digits[0] == '+' {
        Some(digit_value(digits[1]))
    } else if digits.len() == 2 && decimal_digit(digits[0]) && decimal_digit(digits[1]) {
        Some(digit_value(digits[0]) * 10 + digit_value(digits[1]))
    } else {
        None
    }
}

/// The number of the function key that `symbol` names.
pub open spec fn function_number(symbol: Seq<char>) -> Option<int> {
    if symbol.len() > 0 && symbol[0] == 'F' {
        match short_number(symbol.skip(1)) {
            Some(n) => if 1 <= n <= 35 {
                Some(n)
            } else {
                None
            },
            None => None,
        }
    } else {
        None
    }
}

/// The keysym of a key by the symbol that stands for it: a function key, or a
/// single ASCII character, letters taken as small.
pub open spec fn symbol_keysym(symbol: Seq<char>) -> Option<u32> {
    match function_number(symbol) {
        Some(n) => Some((XK_F1 + n - 1) as u32),
        None => if symbol.len() == 1 && (symbol[0] as u32) < 128 {
            Some(char_keysym(ascii_lower(symbol[0])))
        } else {
            None
        },
    }
}

fn read_digit(c: char) -> (value: Option<u32>)
    ensures
        match value {
            Some(v) => decimal_digit(c) && v == digit_value(c) && v < 10,
            None => !decimal_digit(c),
        },
{
    if '0' <= c && c <= '9' {
        Some(c as u32 - 48)
    } else {
        None
    }
}

fn read_short_number(chars: &[char]) -> (number: Option<u32>)
    requires
        chars@.len() > 0,
    ensures
        match number {
            Some(n) => short_number(chars@.skip(1)) == Some(n as int) && n < 100,
            None => short_number(chars@.skip(1)) is None,
        },
{
    let ghost rest = chars@.skip(1);
    if chars.len() == 2 {
        assert(rest[0] == chars@[1]);
        return read_digit(chars[1]);
    }
    if chars.len() == 3 {
        assert(rest[0] == chars@[1] && rest[1] == chars@[2]);
        let low = match read_digit(chars[2]) {
            Some(v) => v,
            None => return None,
        };
        if chars[1] == '+' {
            return Some(low);
        }
        return match read_digit(chars[1]) {
            Some(high) => Some(high * 10 + low),
            None => None,
        };
    }
    None
}

/// The keysym of a key whose symbol is `symbol`.
pub fn keysym_for_symbol(symbol: &str) -> (keysym: Option<u32>)
    ensures
        keysym == symbol_keysym(symbol@),
{
    let chars = chars_of(symbol);
    if chars.len() == 0 {
        return None;
    }
    if chars[0] == 'F' {
        if let Some(n) = read_short_number(chars.as_slice()) {
            if 1 <= n && n <= 35 {
                return Some(XK_F1 + n - 1);
            }
        }
    }
    if chars.len() == 1 && (chars[0] as u32) < 128 {
        Some(keysym_for_char(to_ascii_lower(chars[0])))
    } else {
        None
    }
}

/// What is known of a key by its name alone.
#[derive(Clone, Copy, Debug, PartialEq, Eq, Structural)]
pub enum NamedKey {
    Keysym(u32),
    /// A modifier, a clipboard or browser key: nothing is sent for it.
    Dropped,
    /// It goes by its symbol.
    Plain,
}

pub open spec fn named_key(name: Seq<char>) -> NamedKey {
    if name == "Down"@ {
        NamedKey::Keysym(XK_DOWN)
    } else if name == "Left"@ {
        NamedKey::Keysym(XK_LEFT)
    } else if name == "Right"@ {
        NamedKey::Keysym(XK_RIGHT)
    } else if name == "Up"@ {
        NamedKey::Keysym(XK_UP)
    } else if name == "Escape"@ {
        NamedKey::Keysym(XK_ESCAPE)
    } else if name == "Tab"@ {
        NamedKey::Keysym(XK_TAB)
    } else if name == "Backspace"@ {
        NamedKey::Keysym(XK_BACKSPACE)
    } else if name == "Enter"@ {
        NamedKey::Keysym(XK_RETURN)
    } else if name == "Insert"@ {
        NamedKey::Keysym(XK_INSERT)
    } else if name == "Delete"@ {
        NamedKey::Keysym(XK_DELETE)
    } else if name == "Home"@ {
        NamedKey::Keysym(XK_HOME)
    } else if name == "End"@ {
        NamedKey::Keysym(XK_END)
    } else if name == "PageUp"@ {
        NamedKey::Keysym(XK_PAGE_UP)
    } else if name == "PageDown"@ {
        NamedKey::Keysym(XK_PAGE_DOWN)
    } else if name == "Space"@ {
        NamedKey::Keysym(0x20)
    } else if name == "Minus"@ {
        NamedKey::Keysym(0x2d)
    } else if name == "Quote"@ {
        NamedKey::Keysym(0x27)
    } else if name == "Copy"@ || name == "Cut"@ || name == "Paste"@ || name == "BrowserBack"@
        || name == "ShiftLeft"@ || name == "ShiftRight"@ || name == "ControlLeft"@ || name
        == "ControlRight"@ || name == "AltLeft"@ || name == "AltRight"@ || name == "SuperLeft"@
        || name == "SuperRight"@ || name == "IntlBackslash"@ {
        NamedKey::Dropped
    } else {
        NamedKey::Plain
    }
}

fn key_by_name(name: &str) -> (key: NamedKey)
    ensures
        key == named_key(name@),
{
    if same_text(name, "Down") {
        NamedKey::Keysym(XK_DOWN)
    } else if same_text(name, "Left") {
        NamedKey::Keysym(XK_LEFT)
    } else if same_text(name, "Right") {
        NamedKey::Keysym(XK_RIGHT)
    } else if same_text(name, "Up") {
        NamedKey::Keysym(XK_UP)
    } else if same_text(name, "Escape") {
        NamedKey::Keysym(XK_ESCAPE)
    } else if same_text(name, "Tab") {
        NamedKey::Keysym(XK_TAB)
    } else if same_text(name, "Backspace") {
        NamedKey::Keysym(XK_BACKSPACE)
    } else if same_text(name, "Enter") {
        NamedKey::Keysym(XK_RETURN)
    } else if same_text(name, "Insert") {
        NamedKey::Keysym(XK_INSERT)
    } else if same_text(name, "Delete") {
        NamedKey::Keysym(XK_DELETE)
    } else if same_text(name, "Home") {
        NamedKey::Keysym(XK_HOME)
    } else if same_text(name, "End") {
        NamedKey::Keysym(XK_END)
    } else if same_text(name, "PageUp") {
        NamedKey::Keysym(XK_PAGE_UP)
    } else if same_text(name, "PageDown") {
        NamedKey::Keysym(XK_PAGE_DOWN)
    } else if same_text(name, "Space") {
        NamedKey::Keysym(0x20)
    } else if same_text(name, "Minus") {
        NamedKey::Keysym(0x2d)
    } else if same_text(name, "Quote") {
        NamedKey::Keysym(0x27)
    } else if same_text(name, "Copy") || same_text(name, "Cut") || same_text(name, "Paste")
        || same_text(name, "BrowserBack") || same_text(name, "ShiftLeft") || same_text(
        name,
        "ShiftRight",
    ) || same_text(name, "ControlLeft") || same_text(name, "ControlRight") || same_text(
        name,
        "AltLeft",
    ) || same_text(name, "AltRight") || same_text(name, "SuperLeft") || same_text(
        name,
        "SuperRight",
    ) || same_text(name, "IntlBackslash") {
        NamedKey::Dropped
    } else {
        NamedKey::Plain
    }
}

/// What `egui::Key::symbol_or_name` gives for the key with this name.
pub uninterp spec fn egui_key_symbol(name: Seq<char>) -> Option<Seq<char>>;

/// Calls `egui::Key::symbol_or_name` on the key that `egui::Key::from_name`
/// finds under `name`. Both are tables without state; what is claimed is only
/// that the answer depends on the name alone. It is missing where egui knows no
/// such key.
#[verifier::external_body]
fn key_symbol(name: &str) -> (symbol: Option<String>)
    ensures
        opt_text(symbol) == egui_key_symbol(name@),
{
    egui::Key::from_name(name).map(|key| key.symbol_or_name().to_owned())
}

/// The keysym of a key whose name is `name` and whose symbol is `symbol`.
pub open spec fn key_keysym(name: Seq<char>, symbol: Option<Seq<char>>) -> Option<u32> {
    match named_key(name) {
        NamedKey::Keysym(keysym) => Some(keysym),
        NamedKey::Dropped => None,
        NamedKey::Plain => match symbol {
            Some(s) => symbol_keysym(s),
            None => None,
        },
    }
}

/// The keysym of the key that egui calls `name`; modifier keys are handled by
/// diffing their state, and keys without a keysym are dropped.
pub fn keysym_for_key(name: &str) -> (keysym: Option<u32>)
    ensures
        keysym == key_keysym(name@, egui_key_symbol(name@)),
        name@ == "Left"@ ==> keysym == Some(0xff51u32),
        name@ == "Up"@ ==> keysym == Some(0xff52u32),
        name@ == "Right"@ ==> keysym == Some(0xff53u32),
        name@ == "Down"@ ==> keysym == Some(0xff54u32),
        name@ == "Home"@ ==> keysym == Some(0xff50u32),
        name@ == "End"@ ==> keysym == Some(0xff57u32),
        name@ == "PageUp"@ ==> keysym == Some(0xff55u32),
        name@ == "PageDown"@ ==> keysym == Some(0xff56u32),
        name@ == "Insert"@ ==> keysym == Some(0xff63u32),
        name@ == "Delete"@ ==> keysym == Some(0xffffu32),
        name@ == "Escape"@ ==> keysym == Some(0xff1bu32),
        name@ == "Tab"@ ==> keysym == Some(0xff09u32),
        name@ == "Backspace"@ ==> keysym == Some(0xff08u32),
        name@ == "Enter"@ ==> keysym == Some(0xff0du32),
        name@ == "Space"@ ==> keysym == Some(0x20u32),
        name@ == "Minus"@ ==> keysym == Some(0x2du32),
        name@ == "Quote"@ ==> keysym == Some(0x27u32),
        name@ == "Copy"@ ==> keysym is None,
        name@ == "Cut"@ ==> keysym is None,
        name@ == "Paste"@ ==> keysym is None,
        name@ == "BrowserBack"@ ==> keysym is None,
        name@ == "ShiftLeft"@ ==> keysym is None,
        name@ == "ShiftRight"@ ==> keysym is None,
        name@ == "ControlLeft"@ ==> keysym is None,
        name@ == "ControlRight"@ ==> keysym is None,
        name@ == "AltLeft"@ ==> keysym is None,
        name@ == "AltRight"@ ==> keysym is None,
        name@ == "SuperLeft"@ ==> keysym is None,
        name@ == "SuperRight"@ ==> keysym is None,
        name@ == "IntlBackslash"@ ==> keysym is None,
{
    proof {
        law_named_keys_send_their_x11_keysym(name@, egui_key_symbol(name@));
    }
    match key_by_name(name) {
        NamedKey::Keysym(keysym) => Some(keysym),
        NamedKey::Dropped => None,
        NamedKey::Plain => match key_symbol(name) {
            Some(symbol) => keysym_for_symbol(symbol.as_str()),
            None => None,
        },
    }
}

/// A number that tells the names of the keys apart.
spec fn name_key(name: Seq<char>) -> int {
    name.len() * 1_000 + name[0] as int + name[1] as int * 1_000_000
}

/// The keys that have a name of their own send their X11 keysym whatever symbol
/// stands on them; the modifier, clipboard and browser keys send nothing.
pub proof fn law_named_keys_send_their_x11_keysym(name: Seq<char>, symbol: Option<Seq<char>>)
    ensures
        name == "Left"@ ==> key_keysym(name, symbol) == Some(0xff51u32),
        name == "Up"@ ==> key_keysym(name, symbol) == Some(0xff52u32),
        name == "Right"@ ==> key_keysym(name, symbol) == Some(0xff53u32),
        name == "Down"@ ==> key_keysym(name, symbol) == Some(0xff54u32),
        name == "Home"@ ==> key_keysym(name, symbol) == Some(0xff50u32),
        name == "End"@ ==> key_keysym(name, symbol) == Some(0xff57u32),
        name == "PageUp"@ ==> key_keysym(name, symbol) == Some(0xff55u32),
        name == "PageDown"@ ==> key_keysym(name, symbol) == Some(0xff56u32),
        name == "Insert"@ ==> key_keysym(name, symbol) == Some(0xff63u32),
        name == "Delete"@ ==> key_keysym(name, symbol) == Some(0xffffu32),
        name == "Escape"@ ==> key_keysym(name, symbol) == Some(0xff1bu32),
        name == "Tab"@ ==> key_keysym(name, symbol) == Some(0xff09u32),
        name == "Backspace"@ ==> key_keysym(name, symbol) == Some(0xff08u32),
        name == "Enter"@ ==> key_keysym(name, symbol) == Some(0xff0du32),
        name == "Space"@ ==> key_keysym(name, symbol) == Some(0x20u32),
        name == "Minus"@ ==> key_keysym(name, symbol) == Some(0x2du32),
        name == "Quote"@ ==> key_keysym(name, symbol) == Some(0x27u32),
        name == "Copy"@ ==> key_keysym(name, symbol) is None,
        name == "Cut"@ ==> key_keysym(name, symbol) is None,
        name == "Paste"@ ==> key_keysym(name, symbol) is None,
        name == "BrowserBack"@ ==> key_keysym(name, symbol) is None,
        name == "ShiftLeft"@ ==> key_keysym(name, symbol) is None,
        name == "ShiftRight"@ ==> key_keysym(name, symbol) is None,
        name == "ControlLeft"@ ==> key_keysym(name, symbol) is None,
        name == "ControlRight"@ ==> key_keysym(name, symbol) is None,
        name == "AltLeft"@ ==> key_keysym(name, symbol) is None,
        name == "AltRight"@ ==> key_keysym(name, symbol) is None,
        name == "SuperLeft"@ ==> key_keysym(name, symbol) is None,
        name == "SuperRight"@ ==> key_keysym(name, symbol) is None,
        name == "IntlBackslash"@ ==> key_keysym(name, symbol) is None,
{
    reveal_strlit("Left");
    reveal_strlit("Up");
    reveal_strlit("Right");
    reveal_strlit("Down");
    reveal_strlit("Home");
    reveal_strlit("End");
    reveal_strlit("PageUp");
    reveal_strlit("PageDown");
    reveal_strlit("Insert");
    reveal_strlit("Delete");
    reveal_strlit("Escape");
    reveal_strlit("Tab");
    reveal_strlit("Backspace");
    reveal_strlit("Enter");
    reveal_strlit("Space");
    reveal_strlit("Minus");
    reveal_strlit("Quote");
    reveal_strlit("Copy");
    reveal_strlit("Cut");
    reveal_strlit("Paste");
    reveal_strlit("BrowserBack");
    reveal_strlit("ShiftLeft");
    reveal_strlit("ShiftRight");
    reveal_strlit("ControlLeft");
    reveal_strlit("ControlRight");
    reveal_strlit("AltLeft");
    reveal_strlit("AltRight");
    reveal_strlit("SuperLeft");
    reveal_strlit("SuperRight");
    reveal_strlit("IntlBackslash");
    assert(name_key("Left"@) == 101004076);
    assert(name_key("Up"@) == 112002085);
    assert(name_key("Right"@) == 105005082);
    assert(name_key("Down"@) == 111004068);
    assert(name_key("Home"@) == 111004072);
    assert(name_key("End"@) == 110003069);
    assert(name_key("PageUp"@) == 97006080);
    assert(name_key("PageDown"@) == 97008080);
    assert(name_key("Insert"@) == 110006073);
    assert(name_key("Delete"@) == 101006068);
    assert(name_key("Escape"@) == 115006069);
    assert(name_key("Tab"@) == 97003084);
    assert(name_key("Backspace"@) == 97009066);
    assert(name_key("Enter"@) == 110005069);
    assert(name_key("Space"@) == 112005083);
    assert(name_key("Minus"@) == 105005077);
    assert(name_key("Quote"@) == 117005081);
    assert(name_key("Copy"@) == 111004067);
    assert(name_key("Cut"@) == 117003067);
    assert(name_key("Paste"@) == 97005080);
    assert(name_key("BrowserBack"@) == 114011066);
    assert(name_key("ShiftLeft"@) == 104009083);
    assert(name_key("ShiftRight"@) == 104010083);
    assert(name_key("ControlLeft"@) == 111011067);
    assert(name_key("ControlRight"@) == 111012067);
    assert(name_key("AltLeft"@) == 108007065);
    assert(name_key("AltRight"@) == 108008065);
    assert(name_key("SuperLeft"@) == 117009083);
    assert(name_key("SuperRight"@) == 117010083);
    assert(name_key("IntlBackslash"@) == 110013073);
}

/// Every other key goes by the symbol on it: a letter by the code of its small
/// form, any other ASCII character by its own code.
pub proof fn law_symbols_send_their_character(symbol: Seq<char>)
    requires
        symbol.len() == 1,
    ensures
        'A' <= symbol[0] && symbol[0] <= 'Z' ==> symbol_keysym(symbol) == Some(
            (symbol[0] as u32 + 32) as u32,
        ),
        0x20 <= (symbol[0] as u32) < 0x80 && !('A' <= symbol[0] && symbol[0] <= 'Z')
            ==> symbol_keysym(symbol) == Some(symbol[0] as u32),
        (symbol[0] as u32) >= 0x80 ==> symbol_keysym(symbol) is None,
{
}

/// The function keys follow one another from F1, which is 0xffbe, to F35.
pub proof fn law_function_keys_are_numbered(symbol: Seq<char>, n: nat)
    requires
        1 <= n <= 35,
        symbol == seq!['F'] + decimal(n),
    ensures
        symbol_keysym(symbol) == Some((0xffbe + n - 1) as u32),
{
    reveal_with_fuel(decimal, 3);
    let digits = symbol.skip(1);
    assert(digits =~= decimal(n));
    if n < 10 {
        assert(digits[0] == ((48 + n) as u32) as char);
    } else {
        assert(decimal(n / 10) =~= seq![digit(n / 10)]);
        assert(digits[0] == digit(n / 10) && digits[1] == digit(n % 10));
    }
}

/// Printable Latin-1 sends its own code; every other character sends its code
/// point above 0x01000000. So no two characters send the same.
pub proof fn law_characters_send_their_code(c: char, other: char)
    ensures
        0x20 <= (c as u32) <= 0xff ==> char_keysym(c) == c as u32,
        !(0x20 <= (c as u32) <= 0xff) ==> char_keysym(c) == 0x0100_0000 + c as u32,
        char_keysym(c) == char_keysym(other) ==> c == other,
{
}

/// The keysyms that stand for a modifier.
pub open spec fn modifier_keysym(keysym: u32) -> bool {
    keysym == XK_SHIFT_L || keysym == XK_CONTROL_L || keysym == XK_ALT_L || keysym == XK_SUPER_L
}

/// No key is ever taken for a modifier.
pub proof fn law_keys_are_never_modifiers(name: Seq<char>, symbol: Option<Seq<char>>)
    ensures
        key_keysym(name, symbol) matches Some(keysym) ==> !modifier_keysym(keysym),
{
    if named_key(name) == NamedKey::Plain && symbol is Some {
        let s = symbol->0;
        if s.len() == 1 {
            assert(0 <= (s[0] as u32));
        }
    }
}

} // verus!
