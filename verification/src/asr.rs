//! What the recogniser hands back.

use vstd::prelude::*;
use crate::chars;
use crate::chars::{from_chars, push_str, to_chars};
use crate::number;
use crate::number::push_signed;
use crate::words;
use crate::words::{join_texts, trim_chars, Class};
use crate::words_laws;

verus! {

/// The recogniser's code for success.
pub const ERROR_NONE: i32 = 0;

/// Asks the recogniser for a fresh hypothesis at once.
pub const FLAG_FORCE_UPDATE: u32 = 1;

pub const ARCH_TINY_STREAMING: u32 = 2;

pub const ARCH_SMALL_STREAMING: u32 = 4;

pub const ARCH_MEDIUM_STREAMING: u32 = 5;

/// One line of a transcript.
#[derive(Clone, Debug)]
pub struct Line {
    pub text: String,
    pub id: u64,
    /// When it began and how long it is, as the bit patterns of IEEE 32-bit floats.
    pub start_bits: u32,
    pub duration_bits: u32,
    pub is_complete: bool,
    pub is_updated: bool,
    pub is_new: bool,
    pub last_latency_ms: u32,
}

impl Default for Line {
    fn default() -> (l: Line)
        ensures
            l.text@ == Seq::<char>::empty(),
            l.id == 0,
            l.start_bits == 0,
            l.duration_bits == 0,
            !l.is_complete,
            !l.is_updated,
            !l.is_new,
            l.last_latency_ms == 0,
    {
        Line {
            text: String::new(),
            id: 0,
            start_bits: 0,
            duration_bits: 0,
            is_complete: false,
            is_updated: false,
            is_new: false,
            last_latency_ms: 0,
        }
    }
}

/// A line as the recogniser hands it over: its text may be missing, and its flags
/// are numbers.
pub struct RawLine {
    pub text: Option<String>,
    pub id: u64,
    pub start_bits: u32,
    pub duration_bits: u32,
    pub is_complete: i8,
    pub is_updated: i8,
    pub is_new: i8,
    pub last_latency_ms: u32,
}

/// A line is a copy of a raw one: a missing text is an empty one, and a flag is up
/// where its number is not zero.
pub open spec fn copy_of(raw: RawLine, l: Line) -> bool {
    &&& l.text@ == (match raw.text {
        Some(t) => t@,
        None => Seq::<char>::empty(),
    })
    &&& l.id == raw.id
    &&& l.start_bits == raw.start_bits
    &&& l.duration_bits == raw.duration_bits
    &&& l.is_complete == (raw.is_complete != 0)
    &&& l.is_updated == (raw.is_updated != 0)
    &&& l.is_new == (raw.is_new != 0)
    &&& l.last_latency_ms == raw.last_latency_ms
}

/// Copies out one line.
pub fn copy_line(raw: RawLine) -> (l: Line)
    ensures
        copy_of(raw, l),
{
    Line {
        text: match raw.text {
            Some(t) => t,
            None => String::new(),
        },
        id: raw.id,
        start_bits: raw.start_bits,
        duration_bits: raw.duration_bits,
        is_complete: raw.is_complete != 0,
        is_updated: raw.is_updated != 0,
        is_new: raw.is_new != 0,
        last_latency_ms: raw.last_latency_ms,
    }
}

/// The texts of the lines.
pub open spec fn line_texts(lines: Seq<Line>) -> Seq<Seq<char>> {
    lines.map_values(|l: Line| l.text@)
}

/// The trimmed texts that are not empty.
pub open spec fn spoken(texts: Seq<Seq<char>>) -> Seq<Seq<char>>
    decreases texts.len(),
{
    if texts.len() == 0 {
        seq![]
    } else {
        let t = words::trim(texts.last());
        if t.len() == 0 {
            spoken(texts.drop_last())
        } else {
            spoken(texts.drop_last()).push(t)
        }
    }
}

/// A transcript as it is inserted: its lines trimmed, the empty ones left out,
/// a space between each two.
pub open spec fn transcript(texts: Seq<Seq<char>>) -> Seq<char> {
    words::joined(spoken(texts), " "@)
}

/// Joins a transcript's lines the way the app inserts them.
pub fn join(lines: &[Line]) -> (out: String)
    ensures
        out@ == transcript(line_texts(lines@)),
{
    let mut kept: Vec<String> = Vec::new();
    let ghost all = line_texts(lines@);
    let mut i: usize = 0;
    assert(chars::texts(kept@) =~= spoken(all.take(0)));
    while i < lines.len()
        invariant
            i <= lines@.len(),
            all == line_texts(lines@),
            chars::texts(kept@) == spoken(all.take(i as int)),
        decreases lines@.len() - i,
    {
        proof {
            assert(all.take(i + 1).drop_last() =~= all.take(i as int));
            assert(all.take(i + 1).last() == lines@[i as int].text@);
        }
        let t: Vec<char> = trim_chars(
            to_chars(lines[i].text.as_str()).as_slice(),
            Class::Whitespace,
        );
        if t.len() > 0 {
            let s: String = from_chars(t.as_slice());
            assert(chars::texts(kept@.push(s)) =~= chars::texts(kept@).push(s@));
            kept.push(s);
        }
        i += 1;
    }
    assert(all.take(i as int) =~= all);
    join_texts(kept.as_slice(), " ")
}

/// The recogniser's word for a code: "ok" for success, else its own
/// description, else a text that names the code.
pub open spec fn error_text(code: int, description: Option<Seq<char>>) -> Seq<char> {
    if code == ERROR_NONE {
        "ok"@
    } else {
        match description {
            Some(d) => d,
            None => "unknown moonshine error "@ + number::signed_decimal(code),
        }
    }
}

/// An optional string's view.
pub open spec fn opt(s: Option<String>) -> Option<Seq<char>> {
    match s {
        Some(t) => Some(t@),
        None => None,
    }
}

/// Turns a code into a readable string, given the recogniser's description of
/// it, if it has one.
pub fn error_string(code: i32, description: Option<String>) -> (out: String)
    ensures
        out@ == error_text(code as int, opt(description)),
{
    if code == ERROR_NONE {
        return "ok".to_owned();
    }
    match description {
        Some(d) => d,
        None => {
            let mut out: String = "unknown moonshine error ".to_owned();
            push_signed(&mut out, code);
            out
        },
    }
}

/// Whether a call succeeded, and if not, why.
pub fn check(err: i32, description: Option<String>) -> (r: Result<(), String>)
    ensures
        match r {
            Ok(_) => err == ERROR_NONE,
            Err(e) => err != ERROR_NONE && e@ == error_text(err as int, opt(description)),
        },
{
    if err == ERROR_NONE {
        Ok(())
    } else {
        Err(error_string(err, description))
    }
}

/// Why a model could not be loaded.
pub fn load_error(model_dir: &str, arch: u32, why: &str) -> (out: String)
    ensures
        out@ == "loading "@ + model_dir@ + " (arch "@ + number::decimal(arch as nat) + "): "@
            + why@,
{
    let mut out: String = "loading ".to_owned();
    push_str(&mut out, model_dir);
    push_str(&mut out, " (arch ");
    crate::number::push_decimal(&mut out, arch as u64);
    push_str(&mut out, "): ");
    push_str(&mut out, why);
    out
}

/// The words of texts, one text after the other.
pub open spec fn words_of_all(texts: Seq<Seq<char>>) -> Seq<Seq<char>> {
    words_laws::chained(texts.map_values(|t: Seq<char>| words::words(t)))
}

/// A transcript keeps everything that was said: its words are the words of all the lines,
/// one line after the other in their order.
pub proof fn law_transcript_keeps_every_word(texts: Seq<Seq<char>>)
    ensures
        words::words(transcript(texts)) == words_of_all(texts),
{
    words_laws::lemma_words_of_joined(spoken(texts));
    lemma_words_spoken(texts);
}

proof fn lemma_words_spoken(texts: Seq<Seq<char>>)
    ensures
        words_of_all(spoken(texts)) == words_of_all(texts),
    decreases texts.len(),
{
    let each = texts.map_values(|t: Seq<char>| words::words(t));
    if texts.len() > 0 {
        let before = texts.drop_last();
        let t = words::trim(texts.last());
        lemma_words_spoken(before);
        words_laws::lemma_words_of_trimmed(texts.last());
        assert(each.drop_last() =~= before.map_values(|t: Seq<char>| words::words(t)));
        assert(each.last() == words::words(texts.last()));
        let kept = spoken(texts).map_values(|t: Seq<char>| words::words(t));
        if t.len() == 0 {
            assert(words::words(t) =~= seq![]);
            assert(words_of_all(texts) =~= words_of_all(before));
        } else {
            assert(kept.drop_last() =~= spoken(before).map_values(
                |t: Seq<char>| words::words(t),
            ));
            assert(kept.last() == words::words(t));
        }
    } else {
        assert(spoken(texts) =~= texts);
    }
}

/// One more line is put behind the transcript, trimmed and with one space before it; a
/// blank one changes nothing, and the first one has no space before it.
pub proof fn law_one_more_line(texts: Seq<Seq<char>>, line: Seq<char>)
    ensures
        transcript(texts.push(line)) == if words::trim(line).len() == 0 {
            transcript(texts)
        } else if transcript(texts).len() == 0 {
            words::trim(line)
        } else {
            transcript(texts).push(' ') + words::trim(line)
        },
        transcript(Seq::<Seq<char>>::empty()) == Seq::<char>::empty(),
{
    reveal_strlit(" ");
    let all = texts.push(line);
    assert(all.drop_last() =~= texts);
    words_laws::law_joining_one_more(spoken(texts), " "@, words::trim(line));
    law_no_blank_line_is_joined(texts);
    lemma_joined_is_not_empty(spoken(texts));
    assert(words::joined(spoken(texts), " "@) + " "@ =~= transcript(texts).push(' '));
}

proof fn lemma_joined_is_not_empty(pieces: Seq<Seq<char>>)
    requires
        forall|i: int| 0 <= i < pieces.len() ==> (#[trigger] pieces[i]).len() > 0,
    ensures
        words::joined(pieces, " "@).len() == 0 <==> pieces.len() == 0,
{
    if pieces.len() > 0 {
        assert(pieces[pieces.len() - 1].len() > 0);
    }
}

/// Nothing that was heard is empty: the lines that reach the text are trimmed
/// and not blank.
pub proof fn law_no_blank_line_is_joined(texts: Seq<Seq<char>>)
    ensures
        forall|i: int| 0 <= i < spoken(texts).len() ==> (#[trigger] spoken(texts)[i]).len() > 0,
        spoken(texts).len() <= texts.len(),
    decreases texts.len(),
{
    if texts.len() > 0 {
        law_no_blank_line_is_joined(texts.drop_last());
    }
}

} // verus!
