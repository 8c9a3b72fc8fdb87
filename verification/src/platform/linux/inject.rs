//! Getting text into whatever window has the focus, on Wayland.
//!
//! Type, the default: the text is replayed as keystrokes, and the clipboard is
//! left alone. Paste: the text goes over the clipboard, which a clipboard
//! history can see.

use vstd::prelude::*;
use crate::chars;
use crate::chars::{from_chars, push_str, str_eq, to_ascii_lowercase, to_chars};
pub use crate::inject::Plan;
use crate::words;
use crate::words::{trim_chars, Class};

verus! {

#[derive(Clone, Copy, Debug, PartialEq, Eq, Structural)]
pub enum Mode {
    Paste,
    Type,
}

/// The way that a name stands for, in any case.
pub open spec fn mode_named(name: Seq<char>) -> Mode {
    let s = chars::ascii_lower(name);
    if s == "paste"@ || s == "clipboard"@ {
        Mode::Paste
    } else {
        Mode::Type
    }
}

impl Mode {
    pub fn from_name(s: &str) -> (m: Mode)
        ensures
            m == mode_named(s@),
    {
        let lower: String = to_ascii_lowercase(s);
        if str_eq(lower.as_str(), "paste") || str_eq(lower.as_str(), "clipboard") {
            Mode::Paste
        } else {
            Mode::Type
        }
    }
}

/// How the typing program is called: without a pause between keys, and with the
/// text on its input, so that the words never show among the arguments of a
/// process.
pub const TYPE_ARGS: [&'static str; 3] = ["-d", "0", "-"];

/// How the typing program is called to paste: a Ctrl of its own, whatever the
/// user's hands are doing.
pub const PASTE_ARGS: [&'static str; 5] = ["-M", "ctrl", "v", "-m", "ctrl"];

/// What is to be done to insert a text.
pub fn insert(text: &str, mode: Mode) -> (p: Plan)
    ensures
        p == (if text@.len() == 0 {
            Plan::Nothing
        } else {
            match mode {
                Mode::Paste => Plan::Paste,
                Mode::Type => Plan::Type,
            }
        }),
{
    if text.is_empty() {
        return Plan::Nothing;
    }
    match mode {
        Mode::Paste => Plan::Paste,
        Mode::Type => Plan::Type,
    }
}

/// The text that the clipboard holds, given what reading it answered. A failed
/// read and an empty one both mean that there is nothing to put back.
pub fn clipboard_text(success: bool, text: String) -> (r: Option<String>)
    ensures
        success && text@.len() > 0 ==> r == Some(text),
        !success || text@.len() == 0 ==> r is None,
{
    if !success || text.as_str().is_empty() {
        None
    } else {
        Some(text)
    }
}

/// What is said of a program that failed.
pub open spec fn failure(program: Seq<char>, status: Seq<char>, stderr: Seq<char>) -> Seq<char> {
    program + " exited with "@ + status + ": "@ + words::trim(stderr)
}

/// What is said of a program that failed: its name, its status and what it
/// complained of.
pub fn exited(program: &str, status: &str, stderr: &str) -> (s: String)
    ensures
        s@ == failure(program@, status@, stderr@),
{
    let mut s: String = program.to_owned();
    push_str(&mut s, " exited with ");
    push_str(&mut s, status);
    push_str(&mut s, ": ");
    let all: Vec<char> = to_chars(stderr);
    let shown: String = from_chars(trim_chars(all.as_slice(), Class::Whitespace).as_slice());
    push_str(&mut s, shown.as_str());
    s
}

} // verus!
