//! What settings stand for.

use vstd::prelude::*;
use crate::chars;
use crate::search;
use crate::settings;
use crate::settings::{Found, ModelDirView, ModelView};

verus! {

/// What holds until something else is chosen.
pub proof fn law_settings_before_any_are_made()
    ensures
        ({
            let s = settings::default_settings();
            &&& s.key == "rightctrl"@
            &&& s.model.profile == "balanced"@
            &&& s.model.dir.len() == 0
            &&& s.model.partial_cadence_ms == 250
            &&& !s.model.force_partials
            &&& s.model.release_tail_ms == 15
            &&& s.model.single_thread
            &&& s.model.keyterm_boost == "2"@
            &&& s.insertion.mode == "paste"@
            &&& s.insertion.terminal_mode == "type"@
            &&& s.insertion.terminal_apps.len() == 0
            &&& s.insertion.terminal_newline_replacement == " "@
            &&& s.formatting.capitalise_sentences
            &&& s.formatting.spoken_punctuation
            &&& s.formatting.trailing_space
            &&& s.dictionary.len() == 0
        }),
{
}

/// A profile picks one of the models that come with the app, in any case; a name that is
/// not known picks the one in the middle.
pub proof fn law_profiles_pick_a_model(m: ModelView)
    requires
        m.dir.len() == 0,
    ensures
        ({
            let p = chars::ascii_lower(m.profile);
            let quick = p == "fast"@ || p == "tiny"@;
            let exact = p == "accurate"@ || p == "medium"@;
            &&& quick ==> settings::resolved(m) == (
                ModelDirView::Bundled("tiny-streaming-en"@),
                2u32,
            )
            &&& exact ==> settings::resolved(m) == (
                ModelDirView::Bundled("medium-streaming-en"@),
                5u32,
            )
            &&& !quick && !exact ==> settings::resolved(m) == (
                ModelDirView::Bundled("small-streaming-en"@),
                4u32,
            )
        }),
{
    lemma_profiles_differ();
}

proof fn lemma_profiles_differ()
    ensures
        "fast"@ != "accurate"@,
        "fast"@ != "medium"@,
        "tiny"@ != "accurate"@,
        "tiny"@ != "medium"@,
{
    reveal_strlit("fast");
    reveal_strlit("tiny");
    reveal_strlit("accurate");
    reveal_strlit("medium");
    assert("fast"@.len() == 4);
    assert("tiny"@.len() == 4);
    assert("accurate"@.len() == 8);
    assert("medium"@.len() == 6);
}

/// Whether a word stands somewhere in a text.
pub open spec fn holds(text: Seq<char>, word: Seq<char>) -> bool {
    exists|before: Seq<char>, after: Seq<char>| text == #[trigger] (before + word + after)
}

proof fn lemma_holds(text: Seq<char>, word: Seq<char>)
    ensures
        search::find(text, word) is Some <==> holds(text, word),
{
    search::lemma_find_from(text, word, 0);
    if let Some(k) = search::find(text, word) {
        let before = text.take(k);
        let after = text.skip(k + word.len());
        assert(text.subrange(k, k + word.len()) == word);
        assert(text =~= before + word + after);
    }
    if holds(text, word) {
        let (before, after) = choose|before: Seq<char>, after: Seq<char>|
            text == #[trigger] (before + word + after);
        let k = before.len() as int;
        assert(text.subrange(k, k + word.len()) =~= word);
        assert(search::stands(text, word, k));
    }
}

/// A directory of one's own is taken as it is, and its name says what kind of model it
/// holds: a tiny one where the word is in it, else a medium one, else a small one.
pub proof fn law_own_models_are_known_by_name(m: ModelView)
    requires
        m.dir.len() > 0,
    ensures
        settings::resolved(m).0 == ModelDirView::Custom(m.dir),
        settings::resolved(m).1 == if holds(m.dir, "tiny"@) {
            2u32
        } else if holds(m.dir, "medium"@) {
            5u32
        } else {
            4u32
        },
{
    lemma_holds(m.dir, "tiny"@);
    lemma_holds(m.dir, "medium"@);
}

/// The knobs of the recogniser are those of the settings, each its own.
pub proof fn law_knobs_are_those_that_were_set(m: ModelView)
    ensures
        settings::knobs(m).partial_cadence_ms == m.partial_cadence_ms,
        settings::knobs(m).force_partials == m.force_partials,
        settings::knobs(m).release_tail_ms == m.release_tail_ms,
{
}

/// What is said of a file names the file and ends with why.
pub proof fn law_complaints_say_what_and_why(path: Seq<char>, e: String)
    ensures
        settings::problem(path, Found::Missing(Err(e))) == Some(
            "could not write "@ + path + ": "@ + e@,
        ),
        settings::problem(path, Found::Unreadable(e)) == Some(
            "could not read "@ + path + ": "@ + e@,
        ),
        settings::problem(path, Found::Invalid(e)) == Some(path + " is not valid: "@ + e@),
{
}

} // verus!
