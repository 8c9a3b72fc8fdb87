//! The focused window, as Hyprland reports it.

use vstd::prelude::*;
use crate::chars;
use crate::chars::{is_whitespace, str_eq, to_chars, to_lowercase};
use crate::target_app;
use crate::target_app::is_terminal_among;
use crate::words;
use crate::words::Class;

verus! {

/// Terminals, by window class.
pub const DEFAULT_TERMINALS: [&'static str; 13] = [
    "alacritty",
    "kitty",
    "foot",
    "footclient",
    "ghostty",
    "com.mitchellh.ghostty",
    "wezterm",
    "org.wezfurlong.wezterm",
    "org.gnome.terminal",
    "konsole",
    "xterm",
    "urxvt",
    "st",
];

/// Whether a window class is a terminal, built in or listed as an extra.
pub fn is_terminal(exe: &str, extra: &[String]) -> (r: bool)
    ensures
        r == target_app::terminal(
            target_app::fixed(DEFAULT_TERMINALS@),
            exe@,
            chars::texts(extra@),
        ),
{
    is_terminal_among(&DEFAULT_TERMINALS, exe, extra)
}

/// What a string literal holds, read from behind its opening quote: up to the
/// next quote that no backslash stands before, each escaped character for
/// itself. Nothing where the literal is not closed.
pub open spec fn unescaped(s: Seq<char>) -> Option<Seq<char>>
    decreases s.len(),
{
    if s.len() == 0 {
        None
    } else if s[0] == '"' {
        Some(seq![])
    } else if s[0] == '\\' {
        if s.len() < 2 {
            None
        } else {
            match unescaped(s.skip(2)) {
                Some(v) => Some(seq![s[1]] + v),
                None => None,
            }
        }
    } else {
        match unescaped(s.skip(1)) {
            Some(v) => Some(seq![s[0]] + v),
            None => None,
        }
    }
}

/// How far a string literal reaches, read from behind its opening quote: up to and
/// with the quote that closes it.
pub open spec fn literal_len(s: Seq<char>) -> Option<int>
    decreases s.len(),
{
    if s.len() == 0 {
        None
    } else if s[0] == '"' {
        Some(1)
    } else if s[0] == '\\' {
        if s.len() < 2 {
            None
        } else {
            match literal_len(s.skip(2)) {
                Some(n) => Some(n + 2),
                None => None,
            }
        }
    } else {
        match literal_len(s.skip(1)) {
            Some(n) => Some(n + 1),
            None => None,
        }
    }
}

pub proof fn lemma_literal_len(s: Seq<char>)
    ensures
        literal_len(s) is Some <==> unescaped(s) is Some,
        literal_len(s) matches Some(n) ==> 1 <= n <= s.len(),
    decreases s.len(),
{
    if s.len() > 0 && s[0] != '"' {
        if s[0] == '\\' {
            if s.len() >= 2 {
                lemma_literal_len(s.skip(2));
            }
        } else {
            lemma_literal_len(s.skip(1));
        }
    }
}

/// What stands behind the white space at the start of a text.
pub open spec fn behind_space(s: Seq<char>) -> Seq<char> {
    words::trim_left(s, Class::Whitespace)
}

pub proof fn lemma_behind_space(s: Seq<char>)
    ensures
        behind_space(s).len() <= s.len(),
    decreases s.len(),
{
    if s.len() > 0 {
        lemma_behind_space(s.drop_first());
    }
}

/// The string that stands under a key in a flat JSON object. A string is a key where a
/// colon follows it; every literal is read as a whole, so that what a value holds is
/// never taken for a key.
pub open spec fn string_field(json: Seq<char>, key: Seq<char>) -> Option<Seq<char>>
    decreases json.len(),
{
    if json.len() == 0 {
        None
    } else if json[0] != '"' {
        string_field(json.skip(1), key)
    } else {
        match literal_len(json.skip(1)) {
            None => None,
            Some(n) => {
                proof {
                    lemma_literal_len(json.skip(1));
                    lemma_behind_space(json.skip(1 + n));
                    lemma_behind_space(behind_space(json.skip(1 + n)).skip(1));
                }
                let rest = json.skip(1 + n);
                let after = behind_space(rest);
                if after.len() == 0 || after[0] != ':' {
                    string_field(rest, key)
                } else {
                    let value = behind_space(after.skip(1));
                    let quoted = value.len() > 0 && value[0] == '"';
                    if unescaped(json.skip(1)) == Some(key) {
                        if quoted {
                            unescaped(value.skip(1))
                        } else {
                            None
                        }
                    } else if quoted {
                        match literal_len(value.skip(1)) {
                            None => None,
                            Some(m) => {
                                proof {
                                    lemma_literal_len(value.skip(1));
                                }
                                string_field(value.skip(1 + m), key)
                            },
                        }
                    } else {
                        string_field(value, key)
                    }
                }
            },
        }
    }
}

/// Reads a string literal from position `start` on, behind its opening quote: what it
/// holds, and the position behind the quote that closes it.
fn read_literal(cs: &[char], start: usize) -> (r: Option<(String, usize)>)
    requires
        start <= cs@.len(),
    ensures
        match r {
            Some((v, end)) => unescaped(cs@.skip(start as int)) == Some(v@) && literal_len(
                cs@.skip(start as int),
            ) == Some(end - start) && start < end <= cs@.len(),
            None => unescaped(cs@.skip(start as int)) is None && literal_len(
                cs@.skip(start as int),
            ) is None,
        },
{
    let mut value: String = String::new();
    let mut i: usize = start;
    let ghost whole = unescaped(cs@.skip(start as int));
    let ghost reach = literal_len(cs@.skip(start as int));
    proof {
        match whole {
            Some(v) => {
                assert(value@ + v =~= v);
            },
            None => {},
        }
    }
    while i < cs.len()
        invariant
            start <= i <= cs@.len(),
            match (unescaped(cs@.skip(i as int)), whole) {
                (Some(rest), Some(w)) => w == value@ + rest,
                (None, None) => true,
                _ => false,
            },
            match (literal_len(cs@.skip(i as int)), reach) {
                (Some(n), Some(all)) => all == n + i - start,
                (None, None) => true,
                _ => false,
            },
            whole == unescaped(cs@.skip(start as int)),
            reach == literal_len(cs@.skip(start as int)),
        decreases cs@.len() - i,
    {
        let ghost rest = cs@.skip(i as int);
        let c: char = cs[i];
        if c == '"' {
            proof {
                assert(value@ + Seq::<char>::empty() =~= value@);
            }
            return Some((value, i + 1));
        }
        if c == '\\' {
            if i + 1 >= cs.len() {
                return None;
            }
            let ghost before = value@;
            value.push(cs[i + 1]);
            proof {
                assert(rest.skip(2) =~= cs@.skip(i + 2));
                match unescaped(rest.skip(2)) {
                    Some(v) => {
                        assert(before + (seq![rest[1]] + v) =~= value@ + v);
                    },
                    None => {},
                }
            }
            i += 2;
        } else {
            let ghost before = value@;
            value.push(c);
            proof {
                assert(rest.skip(1) =~= cs@.skip(i + 1));
                match unescaped(rest.skip(1)) {
                    Some(v) => {
                        assert(before + (seq![rest[0]] + v) =~= value@ + v);
                    },
                    None => {},
                }
            }
            i += 1;
        }
    }
    None
}

/// The position behind the white space at a position.
fn skip_space(cs: &[char], start: usize) -> (i: usize)
    requires
        start <= cs@.len(),
    ensures
        start <= i <= cs@.len(),
        behind_space(cs@.skip(start as int)) == cs@.skip(i as int),
{
    let mut i: usize = start;
    while i < cs.len() && is_whitespace(cs[i])
        invariant
            start <= i <= cs@.len(),
            behind_space(cs@.skip(start as int)) == behind_space(cs@.skip(i as int)),
        decreases cs@.len() - i,
    {
        proof {
            assert(cs@.skip(i as int).drop_first() =~= cs@.skip(i + 1));
        }
        i += 1;
    }
    i
}

/// Pulls the value of a string field out of a flat JSON object.
pub fn json_string_field(json: &str, key: &str) -> (r: Option<String>)
    ensures
        match r {
            Some(v) => string_field(json@, key@) == Some(v@),
            None => string_field(json@, key@) is None,
        },
{
    let cs: Vec<char> = to_chars(json);
    let total: usize = cs.len();
    let mut i: usize = 0;
    assert(cs@.skip(0) =~= json@);
    while i < total
        invariant
            i <= total == cs@.len(),
            string_field(json@, key@) == string_field(cs@.skip(i as int), key@),
        decreases total - i,
    {
        let ghost here = cs@.skip(i as int);
        if cs[i] != '"' {
            assert(here.skip(1) =~= cs@.skip(i + 1));
            i += 1;
            continue;
        }
        assert(here.skip(1) =~= cs@.skip(i + 1));
        let (name, end): (String, usize) = match read_literal(cs.as_slice(), i + 1) {
            Some(l) => l,
            None => return None,
        };
        assert(here.skip(1 + (end - (i + 1))) =~= cs@.skip(end as int));
        let colon: usize = skip_space(cs.as_slice(), end);
        if colon >= total || cs[colon] != ':' {
            i = end;
            continue;
        }
        let value: usize = skip_space(cs.as_slice(), colon + 1);
        assert(cs@.skip(colon as int).skip(1) =~= cs@.skip(colon + 1));
        let quoted: bool = value < total && cs[value] == '"';
        if quoted {
            assert(cs@.skip(value as int).skip(1) =~= cs@.skip(value + 1));
        }
        if str_eq(name.as_str(), key) {
            if !quoted {
                return None;
            }
            return match read_literal(cs.as_slice(), value + 1) {
                Some((v, _)) => Some(v),
                None => None,
            };
        }
        if quoted {
            let (_, next): (String, usize) = match read_literal(cs.as_slice(), value + 1) {
                Some(l) => l,
                None => return None,
            };
            assert(cs@.skip(value as int).skip(1 + (next - (value + 1))) =~= cs@.skip(
                next as int,
            ));
            i = next;
        } else {
            i = value;
        }
    }
    assert(cs@.skip(i as int).len() == 0);
    None
}

/// What a reply names as the focused window: its class, else the class it first
/// had, in lower case; nothing where there is no reply or it names neither.
pub open spec fn focused(reply: Option<Seq<char>>) -> Seq<char> {
    match reply {
        None => seq![],
        Some(body) => match string_field(body, "class"@) {
            Some(class) => chars::lower(class),
            None => match string_field(body, "initialClass"@) {
                Some(class) => chars::lower(class),
                None => seq![],
            },
        },
    }
}

/// The focused window, given what Hyprland replied, or nothing where it could
/// not be reached.
pub fn foreground_executable(reply: Option<&str>) -> (out: String)
    ensures
        out@ == focused(
            match reply {
                Some(body) => Some(body@),
                None => None,
            },
        ),
{
    match reply {
        None => String::new(),
        Some(body) => match json_string_field(body, "class") {
            Some(class) => to_lowercase(class.as_str()),
            None => match json_string_field(body, "initialClass") {
                Some(class) => to_lowercase(class.as_str()),
                None => String::new(),
            },
        },
    }
}

/// A text as it stands inside a string literal: a backslash before each quote
/// and each backslash.
pub open spec fn escaped(s: Seq<char>) -> Seq<char>
    decreases s.len(),
{
    if s.len() == 0 {
        seq![]
    } else if s[0] == '"' || s[0] == '\\' {
        seq!['\\', s[0]] + escaped(s.drop_first())
    } else {
        seq![s[0]] + escaped(s.drop_first())
    }
}

/// Reading a string literal gives back what was escaped into it, whatever
/// follows the closing quote.
pub proof fn law_escapes_are_undone(s: Seq<char>, rest: Seq<char>)
    ensures
        unescaped(escaped(s) + seq!['"'] + rest) == Some(s),
    decreases s.len(),
{
    let all = escaped(s) + seq!['"'] + rest;
    if s.len() == 0 {
        assert(all[0] == '"');
        assert(s =~= seq![]);
    } else {
        law_escapes_are_undone(s.drop_first(), rest);
        let inner = escaped(s.drop_first()) + seq!['"'] + rest;
        assert(seq![s[0]] + s.drop_first() =~= s);
        if s[0] == '"' || s[0] == '\\' {
            assert(all[0] == '\\');
            assert(all[1] == s[0]);
            assert(all.skip(2) =~= inner);
        } else {
            assert(all[0] == s[0]);
            assert(all.skip(1) =~= inner);
        }
    }
}

proof fn lemma_escaped_len(s: Seq<char>, rest: Seq<char>)
    ensures
        literal_len(escaped(s) + seq!['"'] + rest) == Some(escaped(s).len() as int + 1),
    decreases s.len(),
{
    let all = escaped(s) + seq!['"'] + rest;
    if s.len() == 0 {
        assert(all[0] == '"');
    } else {
        lemma_escaped_len(s.drop_first(), rest);
        let inner = escaped(s.drop_first()) + seq!['"'] + rest;
        if s[0] == '"' || s[0] == '\\' {
            assert(all[0] == '\\');
            assert(all.skip(2) =~= inner);
        } else {
            assert(all[0] == s[0]);
            assert(all.skip(1) =~= inner);
        }
    }
}

/// A text as a string literal.
pub open spec fn quoted(s: Seq<char>) -> Seq<char> {
    seq!['"'] + escaped(s) + seq!['"']
}

/// String fields as they stand in an object, names and values quoted.
pub open spec fn written(fields: Seq<(Seq<char>, Seq<char>)>) -> Seq<char>
    decreases fields.len(),
{
    if fields.len() == 0 {
        seq!['}']
    } else {
        quoted(fields[0].0) + seq![':'] + quoted(fields[0].1) + seq![','] + written(
            fields.drop_first(),
        )
    }
}

/// The value of the first field with a name.
pub open spec fn value_under(fields: Seq<(Seq<char>, Seq<char>)>, key: Seq<char>) -> Option<
    Seq<char>,
>
    decreases fields.len(),
{
    if fields.len() == 0 {
        None
    } else if fields[0].0 == key {
        Some(fields[0].1)
    } else {
        value_under(fields.drop_first(), key)
    }
}

/// The value that is found is the one that stands under the key, whatever the other
/// values hold: a window title that spells a key changes nothing.
pub proof fn law_value_stands_under_its_key(
    fields: Seq<(Seq<char>, Seq<char>)>,
    key: Seq<char>,
)
    ensures
        string_field(seq!['{'] + written(fields), key) == value_under(fields, key),
{
    let all = seq!['{'] + written(fields);
    assert(all.skip(1) =~= written(fields));
    lemma_fields(fields, key);
}

proof fn lemma_fields(fields: Seq<(Seq<char>, Seq<char>)>, key: Seq<char>)
    ensures
        string_field(written(fields), key) == value_under(fields, key),
    decreases fields.len(),
{
    let all = written(fields);
    if fields.len() == 0 {
        assert(all.skip(1) =~= seq![]);
        reveal_with_fuel(string_field, 2);
    } else {
        let name = fields[0].0;
        let held = fields[0].1;
        let more = written(fields.drop_first());
        let value = quoted(held) + seq![','] + more;
        let rest = seq![':'] + value;
        assert(all.skip(1) =~= escaped(name) + seq!['"'] + rest);
        law_escapes_are_undone(name, rest);
        lemma_escaped_len(name, rest);
        let n: int = escaped(name).len() as int + 1;
        assert(all.skip(1 + n) =~= rest);
        assert(behind_space(rest) == rest);
        assert(rest.skip(1) =~= value);
        assert(value[0] == '"');
        assert(behind_space(value) == value);
        let end = seq![','] + more;
        assert(value.skip(1) =~= escaped(held) + seq!['"'] + end);
        law_escapes_are_undone(held, end);
        lemma_escaped_len(held, end);
        let m: int = escaped(held).len() as int + 1;
        assert(value.skip(1 + m) =~= end);
        assert(end.skip(1) =~= more);
        lemma_fields(fields.drop_first(), key);
        assert(string_field(end, key) == string_field(more, key));
    }
}

} // verus!
