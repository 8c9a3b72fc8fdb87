//! Settings: what can be chosen, what holds until something is, and what follows
//! from it.

use vstd::prelude::*;
use crate::asr::{ARCH_MEDIUM_STREAMING, ARCH_SMALL_STREAMING, ARCH_TINY_STREAMING};
use crate::asr_service::Config;
use crate::chars;
use crate::chars::{push_str, str_eq, to_ascii_lowercase};
use crate::dictionary::Dictionary;
use crate::search;
use crate::search::contains;

verus! {

#[derive(Clone, Debug)]
pub struct Hotkey {
    /// rightctrl, rightalt, rightshift, f13, capslock, leftctrl
    pub key: String,
}

#[derive(Clone, Debug)]
pub struct Model {
    /// "fast" is the tiny model, "accurate" the medium one, "balanced" the small
    /// one.
    pub profile: String,
    /// Overrides the model directory entirely when set.
    pub dir: String,
    /// Gap between live partial hypotheses. Not a free dial: a busy recogniser at
    /// key-up is the largest contributor to tail latency.
    pub partial_cadence_ms: u64,
    /// Bypass the recogniser's own throttle.
    pub force_partials: bool,
    /// Extra collection window after key-up so that the last device packet is not
    /// clipped.
    pub release_tail_ms: u64,
    /// Run the recogniser on one thread.
    pub single_thread: bool,
    /// Bias strength for dictionary terms, as the recogniser is told it.
    pub keyterm_boost: String,
}

#[derive(Clone, Debug)]
pub struct Insertion {
    /// "paste" or "type"
    pub mode: String,
    /// The same for a terminal.
    pub terminal_mode: String,
    /// Terminals beyond the built-in list.
    pub terminal_apps: Vec<String>,
    /// What stands in a terminal for a line break.
    pub terminal_newline_replacement: String,
}

#[derive(Clone, Copy, PartialEq, Eq, Debug, Structural)]
pub struct Formatting {
    pub capitalise_sentences: bool,
    pub spoken_punctuation: bool,
    pub trailing_space: bool,
}

#[derive(Clone, Debug)]
pub struct Settings {
    pub hotkey: Hotkey,
    pub model: Model,
    pub insertion: Insertion,
    pub formatting: Formatting,
    /// Spoken form on the left, written form on the right. Biases the recogniser
    /// and corrects its output.
    pub dictionary: Dictionary,
}

// ---- the same in mathematics -------------------------------------------------

pub struct ModelView {
    pub profile: Seq<char>,
    pub dir: Seq<char>,
    pub partial_cadence_ms: u64,
    pub force_partials: bool,
    pub release_tail_ms: u64,
    pub single_thread: bool,
    pub keyterm_boost: Seq<char>,
}

impl View for Model {
    type V = ModelView;

    open spec fn view(&self) -> ModelView {
        ModelView {
            profile: self.profile@,
            dir: self.dir@,
            partial_cadence_ms: self.partial_cadence_ms,
            force_partials: self.force_partials,
            release_tail_ms: self.release_tail_ms,
            single_thread: self.single_thread,
            keyterm_boost: self.keyterm_boost@,
        }
    }
}

pub struct InsertionView {
    pub mode: Seq<char>,
    pub terminal_mode: Seq<char>,
    pub terminal_apps: Seq<Seq<char>>,
    pub terminal_newline_replacement: Seq<char>,
}

impl View for Insertion {
    type V = InsertionView;

    open spec fn view(&self) -> InsertionView {
        InsertionView {
            mode: self.mode@,
            terminal_mode: self.terminal_mode@,
            terminal_apps: chars::texts(self.terminal_apps@),
            terminal_newline_replacement: self.terminal_newline_replacement@,
        }
    }
}

pub struct SettingsView {
    pub key: Seq<char>,
    pub model: ModelView,
    pub insertion: InsertionView,
    pub formatting: Formatting,
    pub dictionary: Seq<(Seq<char>, Seq<char>)>,
}

impl View for Settings {
    type V = SettingsView;

    open spec fn view(&self) -> SettingsView {
        SettingsView {
            key: self.hotkey.key@,
            model: self.model@,
            insertion: self.insertion@,
            formatting: self.formatting,
            dictionary: self.dictionary@,
        }
    }
}

// ---- defaults -------------------------------------------------------------------

/// The model settings that hold until others are made.
pub open spec fn default_model() -> ModelView {
    ModelView {
        profile: "balanced"@,
        dir: Seq::<char>::empty(),
        partial_cadence_ms: 250,
        force_partials: false,
        release_tail_ms: 15,
        single_thread: true,
        keyterm_boost: "2"@,
    }
}

/// How text is inserted until something else is chosen: pasted, and in a
/// terminal typed, with a space for each line break.
pub open spec fn default_insertion() -> InsertionView {
    InsertionView {
        mode: "paste"@,
        terminal_mode: "type"@,
        terminal_apps: Seq::<Seq<char>>::empty(),
        terminal_newline_replacement: " "@,
    }
}

/// The settings that hold until others are made.
pub open spec fn default_settings() -> SettingsView {
    SettingsView {
        key: "rightctrl"@,
        model: default_model(),
        insertion: default_insertion(),
        formatting: Formatting {
            capitalise_sentences: true,
            spoken_punctuation: true,
            trailing_space: true,
        },
        dictionary: Seq::<(Seq<char>, Seq<char>)>::empty(),
    }
}

impl Default for Hotkey {
    fn default() -> (h: Hotkey)
        ensures
            h.key@ == "rightctrl"@,
    {
        Hotkey { key: "rightctrl".to_owned() }
    }
}

impl Default for Model {
    fn default() -> (m: Model)
        ensures
            m@ == default_model(),
    {
        Model {
            profile: "balanced".to_owned(),
            dir: String::new(),
            partial_cadence_ms: 250,
            force_partials: false,
            release_tail_ms: 15,
            single_thread: true,
            keyterm_boost: "2".to_owned(),
        }
    }
}

impl Default for Insertion {
    fn default() -> (i: Insertion)
        ensures
            i@ == default_insertion(),
    {
        let terminal_apps: Vec<String> = Vec::new();
        assert(chars::texts(terminal_apps@) =~= seq![]);
        Insertion {
            mode: "paste".to_owned(),
            terminal_mode: "type".to_owned(),
            terminal_apps,
            terminal_newline_replacement: " ".to_owned(),
        }
    }
}

impl Default for Formatting {
    fn default() -> (f: Formatting)
        ensures
            f.capitalise_sentences,
            f.spoken_punctuation,
            f.trailing_space,
    {
        Formatting { capitalise_sentences: true, spoken_punctuation: true, trailing_space: true }
    }
}

impl Default for Settings {
    fn default() -> (s: Settings)
        ensures
            s@ == default_settings(),
    {
        Settings {
            hotkey: Hotkey::default(),
            model: Model::default(),
            insertion: Insertion::default(),
            formatting: Formatting::default(),
            dictionary: Dictionary::new(),
        }
    }
}

// ---- what follows from them -----------------------------------------------------

/// The model that is used: its directory, and how it is built.
pub enum ModelDir {
    /// A directory of the user's own.
    Custom(String),
    /// One of those that lie under the root of the models.
    Bundled(&'static str),
}

pub enum ModelDirView {
    Custom(Seq<char>),
    Bundled(Seq<char>),
}

impl View for ModelDir {
    type V = ModelDirView;

    open spec fn view(&self) -> ModelDirView {
        match *self {
            ModelDir::Custom(d) => ModelDirView::Custom(d@),
            ModelDir::Bundled(d) => ModelDirView::Bundled(d@),
        }
    }
}

/// The model directory and its architecture.
pub open spec fn resolved(m: ModelView) -> (ModelDirView, u32) {
    if m.dir.len() > 0 {
        (
            ModelDirView::Custom(m.dir),
            if search::find(m.dir, "tiny"@) is Some {
                ARCH_TINY_STREAMING
            } else if search::find(m.dir, "medium"@) is Some {
                ARCH_MEDIUM_STREAMING
            } else {
                ARCH_SMALL_STREAMING
            },
        )
    } else {
        let p = chars::ascii_lower(m.profile);
        if p == "fast"@ || p == "tiny"@ {
            (ModelDirView::Bundled("tiny-streaming-en"@), ARCH_TINY_STREAMING)
        } else if p == "accurate"@ || p == "medium"@ {
            (ModelDirView::Bundled("medium-streaming-en"@), ARCH_MEDIUM_STREAMING)
        } else {
            (ModelDirView::Bundled("small-streaming-en"@), ARCH_SMALL_STREAMING)
        }
    }
}

/// The timing knobs that settings ask for.
pub open spec fn knobs(m: ModelView) -> Config {
    Config {
        partial_cadence_ms: m.partial_cadence_ms,
        force_partials: m.force_partials,
        release_tail_ms: m.release_tail_ms,
    }
}

/// What became of the settings file.
pub enum Found {
    /// There was none, and this came of writing a default one.
    Missing(Result<(), String>),
    Unreadable(String),
    Invalid(String),
    Read(Settings),
}

/// What is said of the settings file, if there is anything to say.
pub open spec fn problem(path: Seq<char>, found: Found) -> Option<Seq<char>> {
    match found {
        Found::Missing(Ok(_)) => None,
        Found::Missing(Err(e)) => Some("could not write "@ + path + ": "@ + e@),
        Found::Unreadable(e) => Some("could not read "@ + path + ": "@ + e@),
        Found::Invalid(e) => Some(path + " is not valid: "@ + e@),
        Found::Read(_) => None,
    }
}

fn complaint(before: &str, path: &str, after: &str, error: &str) -> (s: String)
    ensures
        s@ == before@ + path@ + after@ + error@,
{
    let mut s: String = before.to_owned();
    push_str(&mut s, path);
    push_str(&mut s, after);
    push_str(&mut s, error);
    s
}

impl Settings {
    /// The settings to go on with, and what is said of the file. A malformed file
    /// is reported and passed over rather than stopping startup: the app always
    /// comes up ready to dictate.
    pub fn load(path: &str, found: Found) -> (r: (Settings, Option<String>))
        ensures
            (match r.1 {
                Some(s) => Some(s@),
                None => None,
            }) == problem(path@, found),
            match found {
                Found::Read(s) => r.0 == s,
                _ => r.0@ == default_settings(),
            },
    {
        match found {
            Found::Missing(Ok(_)) => (Settings::default(), None),
            Found::Missing(Err(e)) => (
                Settings::default(),
                Some(complaint("could not write ", path, ": ", e.as_str())),
            ),
            Found::Unreadable(e) => (
                Settings::default(),
                Some(complaint("could not read ", path, ": ", e.as_str())),
            ),
            Found::Invalid(e) => {
                proof {
                    reveal_strlit("");
                }
                let s: String = complaint("", path, " is not valid: ", e.as_str());
                assert(s@ =~= path@ + " is not valid: "@ + e@);
                (Settings::default(), Some(s))
            },
            Found::Read(s) => (s, None),
        }
    }

    /// The model directory and its architecture.
    pub fn resolve_model(&self) -> (r: (ModelDir, u32))
        ensures
            (r.0@, r.1) == resolved(self.model@),
    {
        let dir: &str = self.model.dir.as_str();
        if !dir.is_empty() {
            let arch: u32 = if contains(dir, "tiny") {
                ARCH_TINY_STREAMING
            } else if contains(dir, "medium") {
                ARCH_MEDIUM_STREAMING
            } else {
                ARCH_SMALL_STREAMING
            };
            return (ModelDir::Custom(dir.to_owned()), arch);
        }
        let profile: String = to_ascii_lowercase(self.model.profile.as_str());
        let p: &str = profile.as_str();
        if str_eq(p, "fast") || str_eq(p, "tiny") {
            (ModelDir::Bundled("tiny-streaming-en"), ARCH_TINY_STREAMING)
        } else if str_eq(p, "accurate") || str_eq(p, "medium") {
            (ModelDir::Bundled("medium-streaming-en"), ARCH_MEDIUM_STREAMING)
        } else {
            (ModelDir::Bundled("small-streaming-en"), ARCH_SMALL_STREAMING)
        }
    }

    /// The timing knobs.
    pub fn config(&self) -> (c: Config)
        ensures
            c == knobs(self.model@),
    {
        Config {
            partial_cadence_ms: self.model.partial_cadence_ms,
            force_partials: self.model.force_partials,
            release_tail_ms: self.model.release_tail_ms,
        }
    }
}

impl Insertion {
    /// The same choices once more.
    pub fn copied(&self) -> (i: Insertion)
        ensures
            i@ == self@,
    {
        let mut apps: Vec<String> = Vec::new();
        let mut k: usize = 0;
        while k < self.terminal_apps.len()
            invariant
                k <= self.terminal_apps@.len(),
                chars::texts(apps@) == chars::texts(self.terminal_apps@).take(k as int),
            decreases self.terminal_apps@.len() - k,
        {
            let ghost before = chars::texts(apps@);
            let app: String = self.terminal_apps[k].clone();
            let ghost shown = app@;
            apps.push(app);
            k += 1;
            assert(chars::texts(apps@) =~= before.push(shown));
            assert(chars::texts(self.terminal_apps@).take(k as int) =~= before.push(
                chars::texts(self.terminal_apps@)[k - 1],
            ));
        }
        assert(chars::texts(self.terminal_apps@).take(k as int) =~= chars::texts(
            self.terminal_apps@,
        ));
        Insertion {
            mode: self.mode.clone(),
            terminal_mode: self.terminal_mode.clone(),
            terminal_apps: apps,
            terminal_newline_replacement: self.terminal_newline_replacement.clone(),
        }
    }
}

/// What stands above the values in a settings file.
pub const HEADER: &'static str = "# Flow settings. Edit and choose Reload settings from the tray menu.\n#\n# hotkey.key            rightctrl | rightalt | rightshift | f13 | capslock | leftctrl\n# model.profile         fast (tiny, roughly twice as quick) | balanced (small)\n# insertion.mode        paste (default, flat cost) | type (for apps that block paste)\n#\n# [dictionary] entries bias the recogniser and correct the output.\n# Spoken form on the left, exactly what you want written on the right:\n#   \"lift off\" = \"Lift-Off\"\n#   \"dddm\" = \"DDDM\"\n\n";

/// The text of a settings file with these values: what can be set, then the
/// values.
pub fn commented(body: &str) -> (s: String)
    ensures
        s@ == HEADER@ + body@,
{
    let mut s: String = HEADER.to_owned();
    push_str(&mut s, body);
    s
}

/// A settings file never keeps the app from coming up: whatever became of it,
/// there are settings to go on with, and a file that could be read is followed.
pub proof fn law_every_file_is_survived(path: Seq<char>, found: Found)
    ensures
        problem(path, found) is None <==> (found is Read || found matches Found::Missing(Ok(_))),
{
}

/// Every model that settings can ask for is one of the three that stream.
pub proof fn law_model_streams(m: ModelView)
    ensures
        resolved(m).1 == ARCH_TINY_STREAMING || resolved(m).1 == ARCH_SMALL_STREAMING
            || resolved(m).1 == ARCH_MEDIUM_STREAMING,
        resolved(m).0 is Custom <==> m.dir.len() > 0,
{
}

} // verus!
