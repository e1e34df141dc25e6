//! Logical key events, as the input layer hands them over.

use vstd::prelude::*;
use crate::text::push_char;

verus! {

/// A decoded key press.
#[derive(Clone, Copy, Debug, PartialEq, Eq, Hash, Structural)]
pub enum Key {
    Enter,
    Tab,
    Backspace,
    Esc,
    Left,
    Right,
    Up,
    Down,
    Ins,
    Delete,
    Home,
    End,
    PageUp,
    PageDown,
    /// A printable character typed on its own.
    Char(char),
    /// A character typed while Ctrl is held.
    Ctrl(char),
    /// A character typed while Alt is held.
    Alt(char),
    /// Any key press the input layer could not classify.
    Unknown,
}

/// How a character shows inside a key's name: the space is spelled out.
pub open spec fn char_text(c: char) -> Seq<char> {
    if c == ' ' {
        "Space"@
    } else {
        seq![c]
    }
}

/// The name under which a key shows in the help bar.
pub open spec fn key_text(key: Key) -> Seq<char> {
    match key {
        Key::Char(c) => if c == ' ' {
            "<Space>"@
        } else {
            seq![c]
        },
        Key::Ctrl(c) => "<Ctrl+"@ + char_text(c) + ">"@,
        Key::Alt(c) => "<Alt+"@ + char_text(c) + ">"@,
        Key::Left => "<Left Arrow Key>"@,
        Key::Right => "<Right Arrow Key>"@,
        Key::Up => "<Up Arrow Key>"@,
        Key::Down => "<Down Arrow Key>"@,
        Key::Enter => "<Enter>"@,
        Key::Tab => "<Tab>"@,
        Key::Backspace => "<Backspace>"@,
        Key::Esc => "<Esc>"@,
        Key::Ins => "<Ins>"@,
        Key::Delete => "<Delete>"@,
        Key::Home => "<Home>"@,
        Key::End => "<End>"@,
        Key::PageUp => "<PageUp>"@,
        Key::PageDown => "<PageDown>"@,
        Key::Unknown => "Unknown"@,
    }
}

fn modified(prefix: &str, c: char) -> (r: String)
    ensures
        r@ == prefix@ + char_text(c) + ">"@,
{
    let mut s = String::from_str(prefix);
    if c == ' ' {
        s.append("Space");
    } else {
        let ghost before = s@;
        push_char(&mut s, c);
        assert(s@ =~= before + seq![c]);
    }
    s.append(">");
    s
}

impl Key {
    /// The character of a plain character key, and nothing for any other key.
    pub fn get_char(&self) -> (r: Option<char>)
        ensures
            r == (match *self {
                Key::Char(c) => Some(c),
                _ => None,
            }),
    {
        match self {
            Key::Char(c) => Some(*c),
            _ => None,
        }
    }

    /// The key's name for the help bar.
    pub fn to_string(&self) -> (r: String)
        ensures
            r@ == key_text(*self),
    {
        match self {
            Key::Char(c) => {
                if *c == ' ' {
                    String::from_str("<Space>")
                } else {
                    let mut s = String::new();
                    push_char(&mut s, *c);
                    assert(s@ =~= seq![*c]);
                    s
                }
            },
            Key::Ctrl(c) => modified("<Ctrl+", *c),
            Key::Alt(c) => modified("<Alt+", *c),
            Key::Left => String::from_str("<Left Arrow Key>"),
            Key::Right => String::from_str("<Right Arrow Key>"),
            Key::Up => String::from_str("<Up Arrow Key>"),
            Key::Down => String::from_str("<Down Arrow Key>"),
            Key::Enter => String::from_str("<Enter>"),
            Key::Tab => String::from_str("<Tab>"),
            Key::Backspace => String::from_str("<Backspace>"),
            Key::Esc => String::from_str("<Esc>"),
            Key::Ins => String::from_str("<Ins>"),
            Key::Delete => String::from_str("<Delete>"),
            Key::Home => String::from_str("<Home>"),
            Key::End => String::from_str("<End>"),
            Key::PageUp => String::from_str("<PageUp>"),
            Key::PageDown => String::from_str("<PageDown>"),
            Key::Unknown => String::from_str("Unknown"),
        }
    }
}

} // verus!
