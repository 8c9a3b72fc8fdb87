//! The settings window: what its controls show, what is read back from them, and
//! where they stand.
//!
//! It exposes exactly what the settings file exposes. The file remains the source
//! of truth; this is a friendlier way to reach the same values.

use vstd::prelude::*;
use crate::chars;
use crate::chars::{from_chars, push_str, to_ascii_lowercase, to_chars};
use crate::dictionary_text;
use crate::dictionary_text::count_meant;
pub use crate::dictionary_text::{dictionary_to_text, text_to_dictionary};
use crate::dictionary::Dictionary;
use crate::number;
use crate::number::{parse_up_to, push_decimal, to_decimal};
use crate::settings::{ModelView, InsertionView, Settings, SettingsView, Formatting};
use crate::words;
use crate::words::{trim_chars, Class};

verus! {

// ---- choices ----------------------------------------------------------------------

/// What can be chosen as the hold key, and how it is shown. A choice is known by
/// its place in the list.
pub const HOTKEYS: [(&'static str, &'static str); 6] = [
    ("rightctrl", "Right Ctrl"),
    ("rightalt", "Right Alt"),
    ("rightshift", "Right Shift"),
    ("capslock", "Caps Lock"),
    ("leftctrl", "Left Ctrl"),
    ("f13", "F13"),
];

pub const PROFILES: [(&'static str, &'static str); 2] = [
    ("balanced", "Balanced: small model, more accurate"),
    ("fast", "Fast: tiny model, about twice as quick"),
];

/// The labels say what the choice costs, because in an ordinary text box the two
/// give identical text.
pub const MODES: [(&'static str, &'static str); 2] = [
    ("paste", "Paste: instant, borrows the clipboard"),
    ("type", "Type: slower on long text, no clipboard"),
];

/// Two names are the same but for the case of their ASCII letters.
pub open spec fn same_name(a: Seq<char>, b: Seq<char>) -> bool {
    chars::ascii_lower(a) == chars::ascii_lower(b)
}

/// Which choice is shown for a value: the last that is named so, or the first of
/// all where none is.
pub open spec fn selected(items: Seq<(&'static str, &'static str)>, current: Seq<char>) -> int
    decreases items.len(),
{
    if items.len() == 0 {
        0
    } else if same_name(items.last().0@, current) {
        items.len() - 1
    } else {
        selected(items.drop_last(), current)
    }
}

/// Which choice is shown for a value.
pub fn fill_combo(items: &[(&'static str, &'static str)], current: &str) -> (n: usize)
    ensures
        n == selected(items@, current@),
{
    let lower: String = to_ascii_lowercase(current);
    let mut found: usize = 0;
    let mut i: usize = 0;
    assert(items@.take(0) =~= seq![]);
    while i < items.len()
        invariant
            i <= items@.len(),
            lower@ == chars::ascii_lower(current@),
            found == selected(items@.take(i as int), current@),
        decreases items@.len() - i,
    {
        assert(items@.take(i + 1).drop_last() =~= items@.take(i as int));
        if to_ascii_lowercase(items[i].0) == lower {
            found = i;
        }
        i += 1;
    }
    assert(items@.take(i as int) =~= items@);
    found
}

/// The value of a choice, or the old value where nothing is chosen.
pub open spec fn choice(
    items: Seq<(&'static str, &'static str)>,
    index: Option<usize>,
    old_value: Seq<char>,
) -> Seq<char> {
    match index {
        Some(i) => if i < items.len() {
            items[i as int].0@
        } else {
            old_value
        },
        None => old_value,
    }
}

fn choose_from(
    items: &[(&'static str, &'static str)],
    index: Option<usize>,
    old_value: String,
) -> (s: String)
    ensures
        s@ == choice(items@, index, old_value@),
{
    match index {
        Some(i) if i < items.len() => items[i].0.to_owned(),
        _ => old_value,
    }
}

// ---- the form ---------------------------------------------------------------------

/// The most that the gap between partials can be set to.
pub const MOST_CADENCE: u64 = 5_000;

/// The most that the tail after a release can be set to.
pub const MOST_TAIL: u64 = 500;

/// What the controls hold.
pub struct Form {
    pub hotkey: Option<usize>,
    pub profile: Option<usize>,
    pub insert: Option<usize>,
    pub terminal: Option<usize>,
    pub single_thread: bool,
    pub capitals: bool,
    pub punctuation: bool,
    pub trailing: bool,
    pub cadence: String,
    pub tail: String,
    /// The bias strength, where what was typed is a number.
    pub boost: Option<String>,
    pub dictionary: String,
}

pub struct FormView {
    pub hotkey: Option<usize>,
    pub profile: Option<usize>,
    pub insert: Option<usize>,
    pub terminal: Option<usize>,
    pub single_thread: bool,
    pub capitals: bool,
    pub punctuation: bool,
    pub trailing: bool,
    pub cadence: Seq<char>,
    pub tail: Seq<char>,
    pub boost: Option<Seq<char>>,
    pub dictionary: Seq<char>,
}

impl View for Form {
    type V = FormView;

    open spec fn view(&self) -> FormView {
        FormView {
            hotkey: self.hotkey,
            profile: self.profile,
            insert: self.insert,
            terminal: self.terminal,
            single_thread: self.single_thread,
            capitals: self.capitals,
            punctuation: self.punctuation,
            trailing: self.trailing,
            cadence: self.cadence@,
            tail: self.tail@,
            boost: match self.boost {
                Some(b) => Some(b@),
                None => None,
            },
            dictionary: self.dictionary@,
        }
    }
}

/// What the controls show of settings.
pub open spec fn form_of(s: SettingsView) -> FormView {
    FormView {
        hotkey: Some(selected(HOTKEYS@, s.key) as usize),
        profile: Some(selected(PROFILES@, s.model.profile) as usize),
        insert: Some(selected(MODES@, s.insertion.mode) as usize),
        terminal: Some(selected(MODES@, s.insertion.terminal_mode) as usize),
        single_thread: s.model.single_thread,
        capitals: s.formatting.capitalise_sentences,
        punctuation: s.formatting.spoken_punctuation,
        trailing: s.formatting.trailing_space,
        cadence: number::decimal(s.model.partial_cadence_ms as nat),
        tail: number::decimal(s.model.release_tail_ms as nat),
        boost: Some(s.model.keyterm_boost),
        dictionary: dictionary_text::shown(s.dictionary),
    }
}

/// A number that was typed, no more than a limit, or the old one where what was
/// typed is none.
pub open spec fn typed_number(text: Seq<char>, most: u64, old_value: u64) -> u64 {
    match number::parsed(words::trim(text), u64::MAX as nat) {
        Some(v) => if v > most {
            most
        } else {
            v as u64
        },
        None => old_value,
    }
}

/// The settings that the controls ask for. What cannot be read keeps what is
/// already saved: a half-typed number changes nothing.
pub open spec fn collected(s: SettingsView, f: FormView) -> SettingsView {
    SettingsView {
        key: choice(HOTKEYS@, f.hotkey, s.key),
        model: ModelView {
            profile: choice(PROFILES@, f.profile, s.model.profile),
            dir: s.model.dir,
            partial_cadence_ms: typed_number(
                f.cadence,
                MOST_CADENCE,
                s.model.partial_cadence_ms,
            ),
            force_partials: s.model.force_partials,
            release_tail_ms: typed_number(f.tail, MOST_TAIL, s.model.release_tail_ms),
            single_thread: f.single_thread,
            keyterm_boost: match f.boost {
                Some(b) => b,
                None => s.model.keyterm_boost,
            },
        },
        insertion: InsertionView {
            mode: choice(MODES@, f.insert, s.insertion.mode),
            terminal_mode: choice(MODES@, f.terminal, s.insertion.terminal_mode),
            terminal_apps: s.insertion.terminal_apps,
            terminal_newline_replacement: s.insertion.terminal_newline_replacement,
        },
        formatting: Formatting {
            capitalise_sentences: f.capitals,
            spoken_punctuation: f.punctuation,
            trailing_space: f.trailing,
        },
        dictionary: dictionary_text::entries_of(words::lines(f.dictionary)),
    }
}

/// What is said when lines of the dictionary were thrown away. Silently dropping
/// what someone typed is how a dictionary comes to look like it does nothing.
pub open spec fn lost_lines(text: Seq<char>) -> Option<Seq<char>> {
    let lines = words::lines(text);
    let kept = dictionary_text::entries_of(lines).len();
    let all = dictionary_text::meant_count(lines);
    if kept == all {
        None
    } else {
        Some(
            "dictionary: kept "@ + number::decimal(kept) + " of "@ + number::decimal(all)
                + " lines"@,
        )
    }
}

/// What the controls show of settings.
pub fn show(s: &Settings) -> (f: Form)
    ensures
        f@ == form_of(s@),
{
    Form {
        hotkey: Some(fill_combo(HOTKEYS.as_slice(), s.hotkey.key.as_str())),
        profile: Some(fill_combo(PROFILES.as_slice(), s.model.profile.as_str())),
        insert: Some(fill_combo(MODES.as_slice(), s.insertion.mode.as_str())),
        terminal: Some(fill_combo(MODES.as_slice(), s.insertion.terminal_mode.as_str())),
        single_thread: s.model.single_thread,
        capitals: s.formatting.capitalise_sentences,
        punctuation: s.formatting.spoken_punctuation,
        trailing: s.formatting.trailing_space,
        cadence: to_decimal(s.model.partial_cadence_ms),
        tail: to_decimal(s.model.release_tail_ms),
        boost: Some(s.model.keyterm_boost.clone()),
        dictionary: dictionary_to_text(&s.dictionary),
    }
}

fn read_number(text: &str, most: u64, old_value: u64) -> (v: u64)
    ensures
        v == typed_number(text@, most, old_value),
{
    let inner: String = from_chars(
        trim_chars(to_chars(text).as_slice(), Class::Whitespace).as_slice(),
    );
    match parse_up_to(inner.as_str(), u64::MAX) {
        Some(v) => if v > most {
            most
        } else {
            v
        },
        None => old_value,
    }
}

/// The settings that the controls ask for, and what is said when lines of the
/// dictionary were thrown away.
pub fn collect(settings: Settings, form: &Form) -> (r: (Settings, Option<String>))
    ensures
        r.0@ == collected(settings@, form@),
        (match r.1 {
            Some(w) => Some(w@),
            None => None,
        }) == lost_lines(form.dictionary@),
{
    let mut s: Settings = settings;
    let ghost before = s@;
    s.hotkey.key = choose_from(HOTKEYS.as_slice(), form.hotkey, s.hotkey.key);
    s.model.profile = choose_from(PROFILES.as_slice(), form.profile, s.model.profile);
    s.insertion.mode = choose_from(MODES.as_slice(), form.insert, s.insertion.mode);
    s.insertion.terminal_mode = choose_from(
        MODES.as_slice(),
        form.terminal,
        s.insertion.terminal_mode,
    );
    s.model.single_thread = form.single_thread;
    s.formatting.capitalise_sentences = form.capitals;
    s.formatting.spoken_punctuation = form.punctuation;
    s.formatting.trailing_space = form.trailing;
    s.model.partial_cadence_ms = read_number(
        form.cadence.as_str(),
        MOST_CADENCE,
        s.model.partial_cadence_ms,
    );
    s.model.release_tail_ms = read_number(form.tail.as_str(), MOST_TAIL, s.model.release_tail_ms);
    if let Some(b) = &form.boost {
        s.model.keyterm_boost = b.clone();
    }
    let parsed: Dictionary = text_to_dictionary(form.dictionary.as_str());
    let kept: usize = parsed.len();
    let all: usize = count_meant(form.dictionary.as_str());
    let warning: Option<String> = if kept != all {
        let mut w: String = "dictionary: kept ".to_owned();
        push_decimal(&mut w, kept as u64);
        push_str(&mut w, " of ");
        push_decimal(&mut w, all as u64);
        push_str(&mut w, " lines");
        Some(w)
    } else {
        None
    };
    s.dictionary = parsed;
    (s, warning)
}

/// The settings that come of saving the window with another dictionary typed into
/// it, exactly as a person typing there would get them.
pub fn test_roundtrip(settings: Settings, dictionary_text: &str) -> (r: Settings)
    ensures
        r@ == collected(
            settings@,
            (FormView { dictionary: dictionary_text@, ..form_of(settings@) }),
        ),
{
    let mut form: Form = show(&settings);
    form.dictionary = dictionary_text.to_owned();
    let (r, _) = collect(settings, &form);
    r
}

// ---- the window -------------------------------------------------------------------

/// Whether the window is up, and whether it was saved since that was last asked.
#[derive(Clone, Copy, PartialEq, Eq, Debug, Structural)]
pub struct SettingsWindow {
    pub up: bool,
    pub saved: bool,
}

/// What asking for the window takes.
#[derive(Clone, Copy, PartialEq, Eq, Debug, Structural)]
pub enum Opening {
    Create,
    BringForward,
}

impl SettingsWindow {
    pub fn new() -> (w: SettingsWindow)
        ensures
            w == (SettingsWindow { up: false, saved: false }),
    {
        SettingsWindow { up: false, saved: false }
    }

    pub fn is_open(&self) -> (r: bool)
        ensures
            r == self.up,
    {
        self.up
    }

    /// Whether the user saved, so that what applies live can be applied. Asking
    /// settles it.
    pub fn take_saved(&mut self) -> (r: bool)
        ensures
            r == old(self).saved,
            *final(self) == (SettingsWindow { saved: false, ..*old(self) }),
    {
        let saved: bool = self.saved;
        self.saved = false;
        saved
    }

    /// What asking for the window takes: it is brought forward where it is up.
    pub fn open(&self) -> (o: Opening)
        ensures
            o == (if self.up {
                Opening::BringForward
            } else {
                Opening::Create
            }),
    {
        if self.up {
            Opening::BringForward
        } else {
            Opening::Create
        }
    }

    pub fn created(&mut self)
        ensures
            *final(self) == (SettingsWindow { up: true, ..*old(self) }),
    {
        self.up = true;
    }

    pub fn destroyed(&mut self)
        ensures
            *final(self) == (SettingsWindow { up: false, ..*old(self) }),
    {
        self.up = false;
    }

    /// Notes what writing the settings came to, and says what went wrong.
    pub fn written(&mut self, outcome: Result<(), String>) -> (e: Option<String>)
        ensures
            outcome is Ok ==> e is None && *final(self) == (SettingsWindow {
                saved: true,
                ..*old(self)
            }),
            outcome matches Err(why) ==> *final(self) == *old(self) && (e matches Some(s) && s@
                == "could not save settings: "@ + why@),
    {
        match outcome {
            Ok(_) => {
                self.saved = true;
                None
            },
            Err(why) => {
                let mut s: String = "could not save settings: ".to_owned();
                push_str(&mut s, why.as_str());
                Some(s)
            },
        }
    }
}

pub const ID_HOTKEY: i32 = 200;

pub const ID_PROFILE: i32 = 201;

pub const ID_SINGLE_THREAD: i32 = 202;

pub const ID_CADENCE: i32 = 203;

pub const ID_TAIL: i32 = 204;

pub const ID_BOOST: i32 = 205;

pub const ID_INSERT: i32 = 206;

pub const ID_TERMINAL: i32 = 207;

pub const ID_CAPS: i32 = 208;

pub const ID_PUNCT: i32 = 209;

pub const ID_TRAILING: i32 = 210;

pub const ID_DICTIONARY: i32 = 211;

pub const ID_SAVE: i32 = 212;

pub const ID_CANCEL: i32 = 213;

pub const ID_EDIT_FILE: i32 = 214;

/// What a press of a button asks for.
#[derive(Clone, Copy, PartialEq, Eq, Debug, Structural)]
pub enum Press {
    SaveAndClose,
    Close,
    EditFile,
    Nothing,
}

/// What a command of the window asks for: the control is named in the low half of
/// the parameter.
pub fn press(parameter: usize) -> (p: Press)
    ensures
        p == (if parameter % 0x10000 == ID_SAVE {
            Press::SaveAndClose
        } else if parameter % 0x10000 == ID_CANCEL {
            Press::Close
        } else if parameter % 0x10000 == ID_EDIT_FILE {
            Press::EditFile
        } else {
            Press::Nothing
        }),
{
    let id: usize = parameter % 0x10000;
    if id == ID_SAVE as usize {
        Press::SaveAndClose
    } else if id == ID_CANCEL as usize {
        Press::Close
    } else if id == ID_EDIT_FILE as usize {
        Press::EditFile
    } else {
        Press::Nothing
    }
}

// ---- where the controls stand -----------------------------------------------------

/// The measures of the window in device pixels.
#[derive(Clone, Copy)]
pub struct Measures {
    pub margin: i32,
    pub top: i32,
    pub label_width: i32,
    pub label_drop: i32,
    pub label_height: i32,
    pub control_width: i32,
    pub row_gap: i32,
    /// How far a list of choices falls open.
    pub long_list: i32,
    pub short_list: i32,
    /// How tall a closed list is.
    pub closed_list: i32,
    /// How tall a line of text or a check box is.
    pub line: i32,
    pub area: i32,
    pub button_drop: i32,
    pub button_width: i32,
    pub button_height: i32,
    pub button_gap: i32,
    pub note_drop: i32,
    pub note_height: i32,
    pub foot: i32,
}

#[derive(Clone, Copy, PartialEq, Eq, Debug, Structural)]
pub enum Kind {
    /// A list of choices.
    List,
    Check,
    Number,
    Line,
    Area,
}

/// A label on the left and a control on the right.
pub struct Row {
    pub id: i32,
    pub label: &'static str,
    /// What a check box says.
    pub caption: &'static str,
    pub kind: Kind,
    pub height: i32,
    /// How far the next row is moved down. For a list this is not its height,
    /// which is how far it falls open.
    pub advance: i32,
}

/// A row as its parts.
pub type RowParts = (i32, Seq<char>, Seq<char>, Kind, i32, i32);

/// The parts of rows.
pub open spec fn parts(rows: Seq<Row>) -> Seq<RowParts> {
    rows.map_values(|r: Row| (r.id, r.label@, r.caption@, r.kind, r.height, r.advance))
}

/// The rows of the window, top to bottom.
pub open spec fn row_list(m: Measures) -> Seq<RowParts> {
    seq![
        (ID_HOTKEY, "Hold to dictate"@, ""@, Kind::List, m.long_list, m.closed_list),
        (ID_PROFILE, "Model"@, ""@, Kind::List, m.long_list, m.closed_list),
        (
            ID_SINGLE_THREAD,
            ""@,
            "One inference thread (faster tail, far less CPU)"@,
            Kind::Check,
            m.line,
            m.line,
        ),
        (ID_CADENCE, "Live text every (ms)"@, ""@, Kind::Number, m.line, m.line),
        (ID_TAIL, "Keep listening after (ms)"@, ""@, Kind::Number, m.line, m.line),
        (ID_BOOST, "Dictionary bias strength"@, ""@, Kind::Line, m.line, m.line),
        (ID_INSERT, "Insert by"@, ""@, Kind::List, m.short_list, m.closed_list),
        (ID_TERMINAL, "In terminals, insert by"@, ""@, Kind::List, m.short_list, m.closed_list),
        (ID_CAPS, ""@, "Capitalise sentences"@, Kind::Check, m.line, m.line),
        (
            ID_PUNCT,
            ""@,
            "Spoken punctuation (\"comma\", \"new line\")"@,
            Kind::Check,
            m.line,
            m.line,
        ),
        (ID_TRAILING, ""@, "Add a space after each dictation"@, Kind::Check, m.line, m.line),
        (ID_DICTIONARY, "Dictionary\r\n(spoken = written)"@, ""@, Kind::Area, m.area, m.area),
    ]
}

fn row(
    id: i32,
    label: &'static str,
    caption: &'static str,
    kind: Kind,
    height: i32,
    advance: i32,
) -> (r: Row)
    ensures
        (r.id, r.label@, r.caption@, r.kind, r.height, r.advance) == (
            id,
            label@,
            caption@,
            kind,
            height,
            advance,
        ),
{
    Row { id, label, caption, kind, height, advance }
}

/// The rows of the window, top to bottom.
pub fn rows(m: &Measures) -> (out: Vec<Row>)
    ensures
        parts(out@) == row_list(*m),
{
    let mut out: Vec<Row> = Vec::new();
    out.push(row(ID_HOTKEY, "Hold to dictate", "", Kind::List, m.long_list, m.closed_list));
    out.push(row(ID_PROFILE, "Model", "", Kind::List, m.long_list, m.closed_list));
    out.push(
        row(
            ID_SINGLE_THREAD,
            "",
            "One inference thread (faster tail, far less CPU)",
            Kind::Check,
            m.line,
            m.line,
        ),
    );
    out.push(row(ID_CADENCE, "Live text every (ms)", "", Kind::Number, m.line, m.line));
    out.push(row(ID_TAIL, "Keep listening after (ms)", "", Kind::Number, m.line, m.line));
    out.push(row(ID_BOOST, "Dictionary bias strength", "", Kind::Line, m.line, m.line));
    out.push(row(ID_INSERT, "Insert by", "", Kind::List, m.short_list, m.closed_list));
    out.push(
        row(ID_TERMINAL, "In terminals, insert by", "", Kind::List, m.short_list, m.closed_list),
    );
    out.push(row(ID_CAPS, "", "Capitalise sentences", Kind::Check, m.line, m.line));
    out.push(
        row(
            ID_PUNCT,
            "",
            "Spoken punctuation (\"comma\", \"new line\")",
            Kind::Check,
            m.line,
            m.line,
        ),
    );
    out.push(row(ID_TRAILING, "", "Add a space after each dictation", Kind::Check, m.line, m.line));
    out.push(row(ID_DICTIONARY, "Dictionary\r\n(spoken = written)", "", Kind::Area, m.area, m.area));
    assert(parts(out@) =~= row_list(*m));
    out
}

/// Where a row begins: below all the rows before it.
pub open spec fn row_top(m: Measures, i: int) -> int
    decreases i,
{
    if i <= 0 {
        m.top as int
    } else {
        row_top(m, i - 1) + row_list(m)[i - 1].5 + m.row_gap
    }
}

/// Where everything stands. Labels begin at the margin and controls right of
/// them; what is given is how far down each thing is.
pub struct Stand {
    pub row_tops: Vec<i64>,
    pub label_left: i64,
    pub control_left: i64,
    pub buttons_top: i64,
    /// Where Save, Cancel and Edit file begin.
    pub button_lefts: (i64, i64, i64),
    pub note_top: i64,
    /// How tall the inside of the window has to be for all of it to show.
    pub client_height: i64,
}

/// Places everything in the window.
pub fn place(m: &Measures) -> (s: Stand)
    ensures
        s.row_tops@.len() == 12,
        forall|i: int| 0 <= i < 12 ==> #[trigger] s.row_tops@[i] == row_top(*m, i),
        s.label_left == m.margin,
        s.control_left == m.margin + m.label_width,
        s.buttons_top == row_top(*m, 12) + m.button_drop,
        s.button_lefts.0 == m.margin,
        s.button_lefts.1 == m.margin + m.button_width + m.button_gap,
        s.button_lefts.2 == m.margin + (m.button_width + m.button_gap) * 2,
        s.note_top == s.buttons_top + m.button_height + m.note_drop,
        s.client_height == s.note_top + m.note_height + m.foot,
{
    let list: Vec<Row> = rows(m);
    let mut row_tops: Vec<i64> = Vec::new();
    let mut y: i64 = m.top as i64;
    let mut i: usize = 0;
    assert(parts(list@).len() == 12);
    while i < 12
        invariant
            i <= 12,
            list@.len() == 12,
            parts(list@) == row_list(*m),
            y == row_top(*m, i as int),
            -0x8000_0000 - i * 0x1_0000_0000 <= y <= 0x8000_0000 + i * 0x1_0000_0000,
            row_tops@.len() == i,
            forall|k: int| 0 <= k < i ==> #[trigger] row_tops@[k] == row_top(*m, k),
        decreases 12 - i,
    {
        row_tops.push(y);
        assert(parts(list@)[i as int].5 == list@[i as int].advance);
        y = y + list[i].advance as i64 + m.row_gap as i64;
        i += 1;
    }
    let margin: i64 = m.margin as i64;
    let step: i64 = m.button_width as i64 + m.button_gap as i64;
    let buttons_top: i64 = y + m.button_drop as i64;
    let note_top: i64 = buttons_top + m.button_height as i64 + m.note_drop as i64;
    Stand {
        row_tops,
        label_left: margin,
        control_left: margin + m.label_width as i64,
        buttons_top,
        button_lefts: (margin, margin + step, margin + step * 2),
        note_top,
        client_height: note_top + m.note_height as i64 + m.foot as i64,
    }
}

} // verus!
