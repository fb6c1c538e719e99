//! The keys a page knows.
use vstd::prelude::*;

use crate::text::{ascii_lower, chars_of, same_text, to_ascii_lower};

verus! {

#[derive(Clone, Copy, Debug, PartialEq, Eq, Structural)]
pub enum BrowserKey {
    ArrowUp,
    ArrowDown,
    ArrowLeft,
    ArrowRight,
    Enter,
    Tab,
    Escape,
    Space,
    Backspace,
    Delete,
    Home,
    End,
    PageUp,
    PageDown,
    Insert,
    /// A function key, from 1 to 12.
    Function(u8),
    /// A key by the character it gives without Shift.
    Char(char),
}

/// A key with a one-character name is a letter or a digit.
pub open spec fn letter_or_digit(c: char) -> bool {
    ('A' <= c && c <= 'Z') || ('0' <= c && c <= '9')
}

/// The key that egui calls `name`, if a page knows it.
pub open spec fn key_named(name: Seq<char>) -> Option<BrowserKey> {
    if name.len() == 1 {
        if letter_or_digit(name[0]) {
            Some(BrowserKey::Char(ascii_lower(name[0])))
        } else {
            None
        }
    } else if name == "Up"@ {
        Some(BrowserKey::ArrowUp)
    } else if name == "Down"@ {
        Some(BrowserKey::ArrowDown)
    } else if name == "Left"@ {
        Some(BrowserKey::ArrowLeft)
    } else if name == "Right"@ {
        Some(BrowserKey::ArrowRight)
    } else if name == "Enter"@ {
        Some(BrowserKey::Enter)
    } else if name == "Tab"@ {
        Some(BrowserKey::Tab)
    } else if name == "Escape"@ {
        Some(BrowserKey::Escape)
    } else if name == "Space"@ {
        Some(BrowserKey::Space)
    } else if name == "Backspace"@ {
        Some(BrowserKey::Backspace)
    } else if name == "Delete"@ {
        Some(BrowserKey::Delete)
    } else if name == "Home"@ {
        Some(BrowserKey::Home)
    } else if name == "End"@ {
        Some(BrowserKey::End)
    } else if name == "PageUp"@ {
        Some(BrowserKey::PageUp)
    } else if name == "PageDown"@ {
        Some(BrowserKey::PageDown)
    } else if name == "Insert"@ {
        Some(BrowserKey::Insert)
    } else if name == "F1"@ {
        Some(BrowserKey::Function(1))
    } else if name == "F2"@ {
        Some(BrowserKey::Function(2))
    } else if name == "F3"@ {
        Some(BrowserKey::Function(3))
    } else if name == "F4"@ {
        Some(BrowserKey::Function(4))
    } else if name == "F5"@ {
        Some(BrowserKey::Function(5))
    } else if name == "F6"@ {
        Some(BrowserKey::Function(6))
    } else if name == "F7"@ {
        Some(BrowserKey::Function(7))
    } else if name == "F8"@ {
        Some(BrowserKey::Function(8))
    } else if name == "F9"@ {
        Some(BrowserKey::Function(9))
    } else if name == "F10"@ {
        Some(BrowserKey::Function(10))
    } else if name == "F11"@ {
        Some(BrowserKey::Function(11))
    } else if name == "F12"@ {
        Some(BrowserKey::Function(12))
    } else if name == "Comma"@ {
        Some(BrowserKey::Char(','))
    } else if name == "Period"@ {
        Some(BrowserKey::Char('.'))
    } else if name == "Slash"@ {
        Some(BrowserKey::Char('/'))
    } else if name == "Semicolon"@ {
        Some(BrowserKey::Char(';'))
    } else if name == "Quote"@ {
        Some(BrowserKey::Char('\''))
    } else if name == "Minus"@ {
        Some(BrowserKey::Char('-'))
    } else if name == "Equals"@ {
        Some(BrowserKey::Char('='))
    } else if name == "OpenBracket"@ {
        Some(BrowserKey::Char('['))
    } else if name == "CloseBracket"@ {
        Some(BrowserKey::Char(']'))
    } else if name == "Backslash"@ {
        Some(BrowserKey::Char('\\'))
    } else if name == "Backtick"@ {
        Some(BrowserKey::Char('`'))
    } else {
        None
    }
}

/// A number that tells the names of the keys apart.
spec fn name_key(name: Seq<char>) -> int {
    name.len() * 1_000 + name[0] as int + name[1] as int * 1_000_000 + name.last() as int
        * 1_000_000_000
}

/// A page is told of the key that egui names: letters as their small character,
/// digits and marks as themselves, and no other key.
pub proof fn law_keys_keep_their_meaning(name: Seq<char>)
    ensures
        name.len() == 1 && 'A' <= name[0] && name[0] <= 'Z' ==> key_named(name) == Some(
            BrowserKey::Char(((name[0] as u32 + 32) as u32) as char),
        ),
        name.len() == 1 && '0' <= name[0] && name[0] <= '9' ==> key_named(name) == Some(
            BrowserKey::Char(name[0]),
        ),
        name.len() == 1 && !('A' <= name[0] && name[0] <= 'Z') && !('0' <= name[0] && name[0]
            <= '9') ==> key_named(name) is None,
        name == "Up"@ ==> key_named(name) == Some(BrowserKey::ArrowUp),
        name == "Down"@ ==> key_named(name) == Some(BrowserKey::ArrowDown),
        name == "Left"@ ==> key_named(name) == Some(BrowserKey::ArrowLeft),
        name == "Right"@ ==> key_named(name) == Some(BrowserKey::ArrowRight),
        name == "Enter"@ ==> key_named(name) == Some(BrowserKey::Enter),
        name == "Tab"@ ==> key_named(name) == Some(BrowserKey::Tab),
        name == "Escape"@ ==> key_named(name) == Some(BrowserKey::Escape),
        name == "Space"@ ==> key_named(name) == Some(BrowserKey::Space),
        name == "Backspace"@ ==> key_named(name) == Some(BrowserKey::Backspace),
        name == "Delete"@ ==> key_named(name) == Some(BrowserKey::Delete),
        name == "Home"@ ==> key_named(name) == Some(BrowserKey::Home),
        name == "End"@ ==> key_named(name) == Some(BrowserKey::End),
        name == "PageUp"@ ==> key_named(name) == Some(BrowserKey::PageUp),
        name == "PageDown"@ ==> key_named(name) == Some(BrowserKey::PageDown),
        name == "Insert"@ ==> key_named(name) == Some(BrowserKey::Insert),
        name == "F1"@ ==> key_named(name) == Some(BrowserKey::Function(1)),
        name == "F2"@ ==> key_named(name) == Some(BrowserKey::Function(2)),
        name == "F3"@ ==> key_named(name) == Some(BrowserKey::Function(3)),
        name == "F4"@ ==> key_named(name) == Some(BrowserKey::Function(4)),
        name == "F5"@ ==> key_named(name) == Some(BrowserKey::Function(5)),
        name == "F6"@ ==> key_named(name) == Some(BrowserKey::Function(6)),
        name == "F7"@ ==> key_named(name) == Some(BrowserKey::Function(7)),
        name == "F8"@ ==> key_named(name) == Some(BrowserKey::Function(8)),
        name == "F9"@ ==> key_named(name) == Some(BrowserKey::Function(9)),
        name == "F10"@ ==> key_named(name) == Some(BrowserKey::Function(10)),
        name == "F11"@ ==> key_named(name) == Some(BrowserKey::Function(11)),
        name == "F12"@ ==> key_named(name) == Some(BrowserKey::Function(12)),
        name == "Comma"@ ==> key_named(name) == Some(BrowserKey::Char(',')),
        name == "Period"@ ==> key_named(name) == Some(BrowserKey::Char('.')),
        name == "Slash"@ ==> key_named(name) == Some(BrowserKey::Char('/')),
        name == "Semicolon"@ ==> key_named(name) == Some(BrowserKey::Char(';')),
        name == "Quote"@ ==> key_named(name) == Some(BrowserKey::Char('\'')),
        name == "Minus"@ ==> key_named(name) == Some(BrowserKey::Char('-')),
        name == "Equals"@ ==> key_named(name) == Some(BrowserKey::Char('=')),
        name == "OpenBracket"@ ==> key_named(name) == Some(BrowserKey::Char('[')),
        name == "CloseBracket"@ ==> key_named(name) == Some(BrowserKey::Char(']')),
        name == "Backslash"@ ==> key_named(name) == Some(BrowserKey::Char('\\')),
        name == "Backtick"@ ==> key_named(name) == Some(BrowserKey::Char('`')),
{
    reveal_strlit("Up");
    reveal_strlit("Down");
    reveal_strlit("Left");
    reveal_strlit("Right");
    reveal_strlit("Enter");
    reveal_strlit("Tab");
    reveal_strlit("Escape");
    reveal_strlit("Space");
    reveal_strlit("Backspace");
    reveal_strlit("Delete");
    reveal_strlit("Home");
    reveal_strlit("End");
    reveal_strlit("PageUp");
    reveal_strlit("PageDown");
    reveal_strlit("Insert");
    reveal_strlit("F1");
    reveal_strlit("F2");
    reveal_strlit("F3");
    reveal_strlit("F4");
    reveal_strlit("F5");
    reveal_strlit("F6");
    reveal_strlit("F7");
    reveal_strlit("F8");
    reveal_strlit("F9");
    reveal_strlit("F10");
    reveal_strlit("F11");
    reveal_strlit("F12");
    reveal_strlit("Comma");
    reveal_strlit("Period");
    reveal_strlit("Slash");
    reveal_strlit("Semicolon");
    reveal_strlit("Quote");
    reveal_strlit("Minus");
    reveal_strlit("Equals");
    reveal_strlit("OpenBracket");
    reveal_strlit("CloseBracket");
    reveal_strlit("Backslash");
    reveal_strlit("Backtick");
    assert(name_key("Up"@) == 112112002085);
    assert(name_key("Down"@) == 110111004068);
    assert(name_key("Left"@) == 116101004076);
    assert(name_key("Right"@) == 116105005082);
    assert(name_key("Enter"@) == 114110005069);
    assert(name_key("Tab"@) == 98097003084);
    assert(name_key("Escape"@) == 101115006069);
    assert(name_key("Space"@) == 101112005083);
    assert(name_key("Backspace"@) == 101097009066);
    assert(name_key("Delete"@) == 101101006068);
    assert(name_key("Home"@) == 101111004072);
    assert(name_key("End"@) == 100110003069);
    assert(name_key("PageUp"@) == 112097006080);
    assert(name_key("PageDown"@) == 110097008080);
    assert(name_key("Insert"@) == 116110006073);
    assert(name_key("F1"@) == 49049002070);
    assert(name_key("F2"@) == 50050002070);
    assert(name_key("F3"@) == 51051002070);
    assert(name_key("F4"@) == 52052002070);
    assert(name_key("F5"@) == 53053002070);
    assert(name_key("F6"@) == 54054002070);
    assert(name_key("F7"@) == 55055002070);
    assert(name_key("F8"@) == 56056002070);
    assert(name_key("F9"@) == 57057002070);
    assert(name_key("F10"@) == 48049003070);
    assert(name_key("F11"@) == 49049003070);
    assert(name_key("F12"@) == 50049003070);
    assert(name_key("Comma"@) == 97111005067);
    assert(name_key("Period"@) == 100101006080);
    assert(name_key("Slash"@) == 104108005083);
    assert(name_key("Semicolon"@) == 110101009083);
    assert(name_key("Quote"@) == 101117005081);
    assert(name_key("Minus"@) == 115105005077);
    assert(name_key("Equals"@) == 115113006069);
    assert(name_key("OpenBracket"@) == 116112011079);
    assert(name_key("CloseBracket"@) == 116108012067);
    assert(name_key("Backslash"@) == 104097009066);
    assert(name_key("Backtick"@) == 107097008066);
}

pub fn key_to_browser_key(name: &str) -> (key: Option<BrowserKey>)
    ensures
        key == key_named(name@),
        name@ == "Up"@ ==> key == Some(BrowserKey::ArrowUp),
        name@ == "Down"@ ==> key == Some(BrowserKey::ArrowDown),
        name@ == "Left"@ ==> key == Some(BrowserKey::ArrowLeft),
        name@ == "Right"@ ==> key == Some(BrowserKey::ArrowRight),
        name@ == "Enter"@ ==> key == Some(BrowserKey::Enter),
        name@ == "Tab"@ ==> key == Some(BrowserKey::Tab),
        name@ == "Escape"@ ==> key == Some(BrowserKey::Escape),
        name@ == "Space"@ ==> key == Some(BrowserKey::Space),
        name@ == "Backspace"@ ==> key == Some(BrowserKey::Backspace),
        name@ == "Delete"@ ==> key == Some(BrowserKey::Delete),
        name@ == "Home"@ ==> key == Some(BrowserKey::Home),
        name@ == "End"@ ==> key == Some(BrowserKey::End),
        name@ == "PageUp"@ ==> key == Some(BrowserKey::PageUp),
        name@ == "PageDown"@ ==> key == Some(BrowserKey::PageDown),
        name@ == "Insert"@ ==> key == Some(BrowserKey::Insert),
        name@ == "F1"@ ==> key == Some(BrowserKey::Function(1)),
        name@ == "F2"@ ==> key == Some(BrowserKey::Function(2)),
        name@ == "F3"@ ==> key == Some(BrowserKey::Function(3)),
        name@ == "F4"@ ==> key == Some(BrowserKey::Function(4)),
        name@ == "F5"@ ==> key == Some(BrowserKey::Function(5)),
        name@ == "F6"@ ==> key == Some(BrowserKey::Function(6)),
        name@ == "F7"@ ==> key == Some(BrowserKey::Function(7)),
        name@ == "F8"@ ==> key == Some(BrowserKey::Function(8)),
        name@ == "F9"@ ==> key == Some(BrowserKey::Function(9)),
        name@ == "F10"@ ==> key == Some(BrowserKey::Function(10)),
        name@ == "F11"@ ==> key == Some(BrowserKey::Function(11)),
        name@ == "F12"@ ==> key == Some(BrowserKey::Function(12)),
        name@ == "Comma"@ ==> key == Some(BrowserKey::Char(',')),
        name@ == "Period"@ ==> key == Some(BrowserKey::Char('.')),
        name@ == "Slash"@ ==> key == Some(BrowserKey::Char('/')),
        name@ == "Semicolon"@ ==> key == Some(BrowserKey::Char(';')),
        name@ == "Quote"@ ==> key == Some(BrowserKey::Char('\'')),
        name@ == "Minus"@ ==> key == Some(BrowserKey::Char('-')),
        name@ == "Equals"@ ==> key == Some(BrowserKey::Char('=')),
        name@ == "OpenBracket"@ ==> key == Some(BrowserKey::Char('[')),
        name@ == "CloseBracket"@ ==> key == Some(BrowserKey::Char(']')),
        name@ == "Backslash"@ ==> key == Some(BrowserKey::Char('\\')),
        name@ == "Backtick"@ ==> key == Some(BrowserKey::Char('`')),
{
    proof {
        law_keys_keep_their_meaning(name@);
    }
    let chars = chars_of(name);
    if chars.len() == 1 {
        let c: char = chars[0];
        if ('A' <= c && c <= 'Z') || ('0' <= c && c <= '9') {
            Some(BrowserKey::Char(to_ascii_lower(c)))
        } else {
            None
        }
    } else if same_text(name, "Up") {
        Some(BrowserKey::ArrowUp)
    } else if same_text(name, "Down") {
        Some(BrowserKey::ArrowDown)
    } else if same_text(name, "Left") {
        Some(BrowserKey::ArrowLeft)
    } else if same_text(name, "Right") {
        Some(BrowserKey::ArrowRight)
    } else if same_text(name, "Enter") {
        Some(BrowserKey::Enter)
    } else if same_text(name, "Tab") {
        Some(BrowserKey::Tab)
    } else if same_text(name, "Escape") {
        Some(BrowserKey::Escape)
    } else if same_text(name, "Space") {
        Some(BrowserKey::Space)
    } else if same_text(name, "Backspace") {
        Some(BrowserKey::Backspace)
    } else if same_text(name, "Delete") {
        Some(BrowserKey::Delete)
    } else if same_text(name, "Home") {
        Some(BrowserKey::Home)
    } else if same_text(name, "End") {
        Some(BrowserKey::End)
    } else if same_text(name, "PageUp") {
        Some(BrowserKey::PageUp)
    } else if same_text(name, "PageDown") {
        Some(BrowserKey::PageDown)
    } else if same_text(name, "Insert") {
        Some(BrowserKey::Insert)
    } else if same_text(name, "F1") {
        Some(BrowserKey::Function(1))
    } else if same_text(name, "F2") {
        Some(BrowserKey::Function(2))
    } else if same_text(name, "F3") {
        Some(BrowserKey::Function(3))
    } else if same_text(name, "F4") {
        Some(BrowserKey::Function(4))
    } else if same_text(name, "F5") {
        Some(BrowserKey::Function(5))
    } else if same_text(name, "F6") {
        Some(BrowserKey::Function(6))
    } else if same_text(name, "F7") {
        Some(BrowserKey::Function(7))
    } else if same_text(name, "F8") {
        Some(BrowserKey::Function(8))
    } else if same_text(name, "F9") {
        Some(BrowserKey::Function(9))
    } else if same_text(name, "F10") {
        Some(BrowserKey::Function(10))
    } else if same_text(name, "F11") {
        Some(BrowserKey::Function(11))
    } else if same_text(name, "F12") {
        Some(BrowserKey::Function(12))
    } else if same_text(name, "Comma") {
        Some(BrowserKey::Char(','))
    } else if same_text(name, "Period") {
        Some(BrowserKey::Char('.'))
    } else if same_text(name, "Slash") {
        Some(BrowserKey::Char('/'))
    } else if same_text(name, "Semicolon") {
        Some(BrowserKey::Char(';'))
    } else if same_text(name, "Quote") {
        Some(BrowserKey::Char('\''))
    } else if same_text(name, "Minus") {
        Some(BrowserKey::Char('-'))
    } else if same_text(name, "Equals") {
        Some(BrowserKey::Char('='))
    } else if same_text(name, "OpenBracket") {
        Some(BrowserKey::Char('['))
    } else if same_text(name, "CloseBracket") {
        Some(BrowserKey::Char(']'))
    } else if same_text(name, "Backslash") {
        Some(BrowserKey::Char('\\'))
    } else if same_text(name, "Backtick") {
        Some(BrowserKey::Char('`'))
    } else {
        None
    }
}

/// The modifiers as the page is told them.
#[derive(Clone, Copy, Debug, PartialEq, Eq, Structural)]
pub struct BrowserModifiers {
    pub alt: bool,
    pub ctrl: bool,
    pub meta: bool,
    pub shift: bool,
}

/// A list of keys, none of them twice.
pub open spec fn with_key(list: Seq<BrowserKey>, key: BrowserKey) -> Seq<BrowserKey> {
    if list.contains(key) {
        list
    } else {
        list.push(key)
    }
}

pub open spec fn without_key(list: Seq<BrowserKey>, key: BrowserKey) -> Seq<BrowserKey>
    decreases list.len(),
{
    if list.len() == 0 {
        Seq::empty()
    } else if list.last() == key {
        without_key(list.drop_last(), key)
    } else {
        without_key(list.drop_last(), key).push(list.last())
    }
}

pub proof fn lemma_without_key(list: Seq<BrowserKey>, key: BrowserKey, other: BrowserKey)
    ensures
        without_key(list, key).contains(other) <==> list.contains(other) && other != key,
    decreases list.len(),
{
    if list.len() > 0 {
        let head = list.drop_last();
        lemma_without_key(head, key, other);
        let kept = without_key(head, key);
        let out = without_key(list, key);
        if head.contains(other) {
            let i = choose|i: int| 0 <= i < head.len() && head[i] == other;
            assert(list[i] == other);
        }
        if list.contains(other) && other != list.last() {
            let i = choose|i: int| 0 <= i < list.len() && list[i] == other;
            assert(head[i] == other);
        }
        if list.last() != key {
            assert(out[out.len() - 1] == list.last());
            if kept.contains(other) {
                let i = choose|i: int| 0 <= i < kept.len() && kept[i] == other;
                assert(out[i] == other);
            }
            if out.contains(other) && other != list.last() {
                let i = choose|i: int| 0 <= i < out.len() && out[i] == other;
                assert(kept[i] == other);
            }
        }
        if other == list.last() {
            assert(list[list.len() - 1] == other);
        }
    }
}

/// Putting a key in and taking it out changes what the list holds of that key
/// and of no other.
pub proof fn law_lists_hold_what_was_put_in(
    list: Seq<BrowserKey>,
    key: BrowserKey,
    other: BrowserKey,
)
    ensures
        with_key(list, key).contains(other) <==> list.contains(other) || other == key,
        without_key(list, key).contains(other) <==> list.contains(other) && other != key,
{
    lemma_without_key(list, key, other);
    if !list.contains(key) {
        let longer = list.push(key);
        assert(longer[longer.len() - 1] == key);
        if list.contains(other) {
            let i = choose|i: int| 0 <= i < list.len() && list[i] == other;
            assert(longer[i] == other);
        }
    }
}

pub fn has_key(list: &Vec<BrowserKey>, key: BrowserKey) -> (yes: bool)
    ensures
        yes == list@.contains(key),
{
    let mut i: usize = 0;
    while i < list.len()
        invariant
            i <= list@.len(),
            forall|j: int| 0 <= j < i ==> list@[j] != key,
        decreases list@.len() - i,
    {
        if list[i] == key {
            return true;
        }
        i = i + 1;
    }
    false
}

pub fn insert_key(list: &mut Vec<BrowserKey>, key: BrowserKey)
    ensures
        final(list)@ == with_key(old(list)@, key),
{
    if !has_key(list, key) {
        list.push(key);
    }
}

pub fn remove_key(list: &mut Vec<BrowserKey>, key: BrowserKey)
    ensures
        final(list)@ == without_key(old(list)@, key),
{
    let ghost before = list@;
    let mut kept: Vec<BrowserKey> = Vec::new();
    let mut i: usize = 0;
    assert(kept@ =~= without_key(before.take(0), key));
    while i < list.len()
        invariant
            list@ == before,
            i <= before.len(),
            kept@ == without_key(before.take(i as int), key),
        decreases before.len() - i,
    {
        assert(before.take(i + 1).drop_last() =~= before.take(i as int));
        if list[i] != key {
            kept.push(list[i]);
        }
        i = i + 1;
    }
    assert(before.take(i as int) =~= before);
    *list = kept;
}

} // verus!
