//! What holds of the settings window as a whole.

use vstd::prelude::*;
use crate::chars;
use crate::dictionary;
use crate::dictionary_text;
use crate::dictionary_text_laws;
use crate::number;
use crate::settings::SettingsView;
use crate::settings_ui;
use crate::settings_ui::{Kind, Measures, HOTKEYS, MODES, MOST_CADENCE, MOST_TAIL, PROFILES};
use crate::words;
use crate::words_laws;

verus! {

/// A value is one of the choices.
pub open spec fn known(items: Seq<(&'static str, &'static str)>, current: Seq<char>) -> bool {
    exists|i: int| 0 <= i < items.len() && settings_ui::same_name((#[trigger] items[i]).0@, current)
}

proof fn lemma_selected(items: Seq<(&'static str, &'static str)>, current: Seq<char>)
    requires
        items.len() > 0,
    ensures
        0 <= settings_ui::selected(items, current) < items.len(),
        known(items, current) ==> settings_ui::same_name(
            items[settings_ui::selected(items, current)].0@,
            current,
        ),
    decreases items.len(),
{
    let rest = items.drop_last();
    if !settings_ui::same_name(items.last().0@, current) {
        if rest.len() > 0 {
            lemma_selected(rest, current);
        }
        if known(items, current) {
            let i = choose|i: int|
                0 <= i < items.len() && settings_ui::same_name(
                    (#[trigger] items[i]).0@,
                    current,
                );
            assert(i < items.len() - 1);
            assert(rest[i] == items[i]);
            assert(known(rest, current));
            assert(rest[settings_ui::selected(rest, current)] == items[settings_ui::selected(
                rest,
                current,
            )]);
        }
    }
}

proof fn lemma_typed_number(n: u64, most: u64, old_value: u64)
    requires
        n <= most,
    ensures
        settings_ui::typed_number(number::decimal(n as nat), most, old_value) == n,
{
    let d = number::decimal(n as nat);
    number::lemma_decimal(n as nat);
    number::law_decimal_round_trip(n as nat, u64::MAX as nat);
    assert(chars::ascii_digit(d[0]));
    assert(chars::ascii_digit(d[d.len() - 1]));
    assert(!chars::whitespace(d[0]));
    assert(!chars::whitespace(d.last()));
    assert(words::trim(d) == d);
}

/// Opening the window and saving it untouched changes nothing, but for the case
/// of a name that is spelled otherwise than in the list of choices.
pub proof fn law_saving_untouched_changes_nothing(s: SettingsView, key: Seq<char>)
    requires
        known(HOTKEYS@, s.key),
        known(PROFILES@, s.model.profile),
        known(MODES@, s.insertion.mode),
        known(MODES@, s.insertion.terminal_mode),
        s.model.partial_cadence_ms <= MOST_CADENCE,
        s.model.release_tail_ms <= MOST_TAIL,
        dictionary::distinct(s.dictionary),
        dictionary_text_laws::all_typeable(s.dictionary),
    ensures
        ({
            let r = settings_ui::collected(s, settings_ui::form_of(s));
            &&& settings_ui::same_name(r.key, s.key)
            &&& settings_ui::same_name(r.model.profile, s.model.profile)
            &&& settings_ui::same_name(r.insertion.mode, s.insertion.mode)
            &&& settings_ui::same_name(r.insertion.terminal_mode, s.insertion.terminal_mode)
            &&& r.model.dir == s.model.dir
            &&& r.model.partial_cadence_ms == s.model.partial_cadence_ms
            &&& r.model.force_partials == s.model.force_partials
            &&& r.model.release_tail_ms == s.model.release_tail_ms
            &&& r.model.single_thread == s.model.single_thread
            &&& r.model.keyterm_boost == s.model.keyterm_boost
            &&& r.insertion.terminal_apps == s.insertion.terminal_apps
            &&& r.insertion.terminal_newline_replacement
                == s.insertion.terminal_newline_replacement
            &&& r.formatting == s.formatting
            &&& dictionary::lookup(r.dictionary, key) == dictionary::lookup(s.dictionary, key)
        }),
{
    lemma_selected(HOTKEYS@, s.key);
    lemma_selected(PROFILES@, s.model.profile);
    lemma_selected(MODES@, s.insertion.mode);
    lemma_selected(MODES@, s.insertion.terminal_mode);
    lemma_typed_number(
        s.model.partial_cadence_ms,
        MOST_CADENCE,
        s.model.partial_cadence_ms,
    );
    lemma_typed_number(s.model.release_tail_ms, MOST_TAIL, s.model.release_tail_ms);
    dictionary_text_laws::law_dictionary_round_trips(s.dictionary, key);
}

/// What is saved is what the window shows: each tick, the bias where it is a number and
/// the dictionary as it is read; and what the window does not show stays as it was.
pub proof fn law_saved_is_what_is_shown(s: SettingsView, f: settings_ui::FormView)
    ensures
        ({
            let r = settings_ui::collected(s, f);
            &&& r.formatting.capitalise_sentences == f.capitals
            &&& r.formatting.spoken_punctuation == f.punctuation
            &&& r.formatting.trailing_space == f.trailing
            &&& r.model.single_thread == f.single_thread
            &&& r.model.keyterm_boost == if f.boost is Some {
                f.boost->0
            } else {
                s.model.keyterm_boost
            }
            &&& r.dictionary == dictionary_text::entries_of(words::lines(f.dictionary))
            &&& r.model.dir == s.model.dir
            &&& r.model.force_partials == s.model.force_partials
            &&& r.insertion.terminal_apps == s.insertion.terminal_apps
            &&& r.insertion.terminal_newline_replacement
                == s.insertion.terminal_newline_replacement
        }),
{
}

/// The six hold keys, the two profiles and the two ways in are saved under the names that
/// stand for them, whichever is chosen; where nothing is chosen the name stays.
pub proof fn law_choices_are_saved_by_name(s: SettingsView, f: settings_ui::FormView)
    ensures
        ({
            let r = settings_ui::collected(s, f);
            let keys = seq![
                "rightctrl"@,
                "rightalt"@,
                "rightshift"@,
                "capslock"@,
                "leftctrl"@,
                "f13"@,
            ];
            let profiles = seq!["balanced"@, "fast"@];
            let modes = seq!["paste"@, "type"@];
            &&& f.hotkey matches Some(i) ==> i < 6 ==> r.key == keys[i as int]
            &&& f.profile matches Some(i) ==> i < 2 ==> r.model.profile == profiles[i as int]
            &&& f.insert matches Some(i) ==> i < 2 ==> r.insertion.mode == modes[i as int]
            &&& f.terminal matches Some(i) ==> i < 2 ==> r.insertion.terminal_mode
                == modes[i as int]
            &&& f.hotkey is None ==> r.key == s.key
            &&& f.profile is None ==> r.model.profile == s.model.profile
            &&& f.insert is None ==> r.insertion.mode == s.insertion.mode
            &&& f.terminal is None ==> r.insertion.terminal_mode == s.insertion.terminal_mode
        }),
{
}

/// A number that was typed, with or without white space around it, is taken, up to five
/// seconds between partials and half a second of tail; anything that holds a character
/// other than a digit, or nothing, changes nothing.
pub proof fn law_numbers_are_read(
    s: SettingsView,
    f: settings_ui::FormView,
    n: u64,
    before: Seq<char>,
    after: Seq<char>,
)
    requires
        words_laws::all_space(before),
        words_laws::all_space(after),
    ensures
        ({
            let r = settings_ui::collected(s, f).model;
            let typed = before + number::decimal(n as nat) + after;
            &&& f.cadence == typed ==> r.partial_cadence_ms == if n > 5_000 {
                5_000
            } else {
                n
            }
            &&& f.tail == typed ==> r.release_tail_ms == if n > 500 {
                500
            } else {
                n
            }
            &&& words_laws::all_space(f.cadence) ==> r.partial_cadence_ms
                == s.model.partial_cadence_ms
            &&& words_laws::all_space(f.tail) ==> r.release_tail_ms == s.model.release_tail_ms
            &&& holds_a_letter(f.cadence) ==> r.partial_cadence_ms == s.model.partial_cadence_ms
            &&& holds_a_letter(f.tail) ==> r.release_tail_ms == s.model.release_tail_ms
        }),
{
    let d = number::decimal(n as nat);
    number::lemma_decimal(n as nat);
    number::law_decimal_round_trip(n as nat, u64::MAX as nat);
    assert(chars::ascii_digit(d[0]));
    assert(chars::ascii_digit(d[d.len() - 1]));
    words_laws::law_trimming(before, d, after);
    lemma_no_number(f.cadence);
    lemma_no_number(f.tail);
}

/// A text holds a character that is neither a digit nor a plus sign nor white space.
pub open spec fn holds_a_letter(s: Seq<char>) -> bool {
    exists|i: int|
        0 <= i < s.len() && !('0' <= s[i] && s[i] <= '9') && s[i] != '+' && !chars::whitespace(
            #[trigger] s[i],
        )
}

proof fn lemma_no_number(text: Seq<char>)
    ensures
        words_laws::all_space(text) || holds_a_letter(text) ==> number::parsed(
            words::trim(text),
            u64::MAX as nat,
        ) is None,
{
    let t = words::trim(text);
    if words_laws::all_space(text) {
        words_laws::law_trimming(text, Seq::empty(), Seq::empty());
        assert(text + Seq::<char>::empty() + Seq::<char>::empty() =~= text);
    } else if holds_a_letter(text) {
        let i = choose|i: int|
            0 <= i < text.len() && !('0' <= text[i] && text[i] <= '9') && text[i] != '+'
                && !chars::whitespace(#[trigger] text[i]);
        let r = words_laws::lemma_trim_parts(text, words::Class::Whitespace);
        if i < r.0 || i >= r.1 {
            assert(words::Class::Whitespace.has(text[i]));
        }
        assert(t[i - r.0] == text[i]);
        let d = number::unsigned_part(t);
        if t[0] == '+' {
            assert(d[i - r.0 - 1] == text[i]);
            assert(!chars::ascii_digit(d[i - r.0 - 1]));
        } else {
            assert(!chars::ascii_digit(d[i - r.0]));
        }
    }
}

/// Showing what was saved gives back what was set in the window: every tick, and every
/// choice that was made.
pub proof fn law_saved_settings_show_the_same(s: SettingsView, f: settings_ui::FormView)
    ensures
        ({
            let again = settings_ui::form_of(settings_ui::collected(s, f));
            &&& again.single_thread == f.single_thread
            &&& again.capitals == f.capitals
            &&& again.punctuation == f.punctuation
            &&& again.trailing == f.trailing
            &&& f.hotkey matches Some(i) ==> i < 6 ==> again.hotkey == f.hotkey
            &&& f.profile matches Some(i) ==> i < 2 ==> again.profile == f.profile
            &&& f.insert matches Some(i) ==> i < 2 ==> again.insert == f.insert
            &&& f.terminal matches Some(i) ==> i < 2 ==> again.terminal == f.terminal
            &&& f.boost is Some ==> again.boost == f.boost
        }),
{
    reveal_strlit("rightctrl");
    reveal_strlit("rightalt");
    reveal_strlit("rightshift");
    reveal_strlit("capslock");
    reveal_strlit("leftctrl");
    reveal_strlit("f13");
    reveal_strlit("balanced");
    reveal_strlit("fast");
    reveal_strlit("paste");
    reveal_strlit("type");
    if let Some(i) = f.hotkey {
        if i < 6 {
            lemma_apart(HOTKEYS@);
            lemma_selected_itself(HOTKEYS@, i as int);
        }
    }
    lemma_apart(PROFILES@);
    lemma_apart(MODES@);
    if let Some(i) = f.profile {
        if i < 2 {
            lemma_selected_itself(PROFILES@, i as int);
        }
    }
    if let Some(i) = f.insert {
        if i < 2 {
            lemma_selected_itself(MODES@, i as int);
        }
    }
    if let Some(i) = f.terminal {
        if i < 2 {
            lemma_selected_itself(MODES@, i as int);
        }
    }
}

/// A choice is shown as it was set, in whatever case it was written.
pub proof fn law_choices_are_shown_in_any_case(s: SettingsView, i: int)
    ensures
        ({
            let f = settings_ui::form_of(s);
            let keys = seq![
                "rightctrl"@,
                "rightalt"@,
                "rightshift"@,
                "capslock"@,
                "leftctrl"@,
                "f13"@,
            ];
            let profiles = seq!["balanced"@, "fast"@];
            let modes = seq!["paste"@, "type"@];
            &&& 0 <= i < 6 && chars::ascii_lower(s.key) == chars::ascii_lower(keys[i])
                ==> f.hotkey == Some(i as usize)
            &&& 0 <= i < 2 && chars::ascii_lower(s.model.profile) == chars::ascii_lower(profiles[i])
                ==> f.profile == Some(i as usize)
            &&& 0 <= i < 2 && chars::ascii_lower(s.insertion.mode) == chars::ascii_lower(modes[i])
                ==> f.insert == Some(i as usize)
            &&& 0 <= i < 2 && chars::ascii_lower(s.insertion.terminal_mode) == chars::ascii_lower(
                modes[i],
            ) ==> f.terminal == Some(i as usize)
        }),
{
    lemma_apart(HOTKEYS@);
    lemma_apart(PROFILES@);
    lemma_apart(MODES@);
    if 0 <= i < 6 {
        lemma_selected_itself(HOTKEYS@, i);
        lemma_selected_alike(HOTKEYS@, HOTKEYS@[i].0@, s.key);
    }
    if 0 <= i < 2 {
        lemma_selected_itself(PROFILES@, i);
        lemma_selected_alike(PROFILES@, PROFILES@[i].0@, s.model.profile);
        lemma_selected_itself(MODES@, i);
        lemma_selected_alike(MODES@, MODES@[i].0@, s.insertion.mode);
        lemma_selected_alike(MODES@, MODES@[i].0@, s.insertion.terminal_mode);
    }
}

proof fn lemma_selected_alike(
    items: Seq<(&'static str, &'static str)>,
    a: Seq<char>,
    b: Seq<char>,
)
    ensures
        chars::ascii_lower(a) == chars::ascii_lower(b) ==> settings_ui::selected(items, a)
            == settings_ui::selected(items, b),
    decreases items.len(),
{
    if items.len() > 0 {
        lemma_selected_alike(items.drop_last(), a, b);
    }
}

/// The names differ in length or in their first letter, and begin with a small letter.
spec fn apart(items: Seq<(&'static str, &'static str)>) -> bool {
    &&& forall|i: int|
        0 <= i < items.len() ==> (#[trigger] items[i]).0@.len() > 0 && chars::ascii_small(
            items[i].0@[0],
        )
    &&& forall|i: int, j: int|
        0 <= i < j < items.len() ==> (#[trigger] items[i]).0@.len() != (
        #[trigger] items[j]).0@.len() || items[i].0@[0] != items[j].0@[0]
}

proof fn lemma_apart(items: Seq<(&'static str, &'static str)>)
    requires
        items == HOTKEYS@ || items == PROFILES@ || items == MODES@,
    ensures
        apart(items),
{
    reveal_strlit("rightctrl");
    reveal_strlit("rightalt");
    reveal_strlit("rightshift");
    reveal_strlit("capslock");
    reveal_strlit("leftctrl");
    reveal_strlit("f13");
    reveal_strlit("balanced");
    reveal_strlit("fast");
    reveal_strlit("paste");
    reveal_strlit("type");
}

proof fn lemma_selected_itself(items: Seq<(&'static str, &'static str)>, i: int)
    requires
        apart(items),
        0 <= i < items.len(),
    ensures
        settings_ui::selected(items, items[i].0@) == i,
    decreases items.len(),
{
    let last = items.len() - 1;
    let name = items[i].0@;
    if i < last {
        assert(items.last() == items[last]);
        let a = chars::ascii_lower(items[last].0@);
        let b = chars::ascii_lower(name);
        assert(a.len() == items[last].0@.len());
        assert(b.len() == name.len());
        assert(a[0] == items[last].0@[0]);
        assert(b[0] == name[0]);
        assert(!settings_ui::same_name(items.last().0@, name));
        let rest = items.drop_last();
        assert(rest[i] == items[i]);
        assert(apart(rest)) by {
            assert forall|k: int| 0 <= k < rest.len() implies (#[trigger] rest[k]).0@.len() > 0
                && chars::ascii_small(rest[k].0@[0]) by {
                assert(rest[k] == items[k]);
            }
            assert forall|k: int, j: int| 0 <= k < j < rest.len() implies (
            #[trigger] rest[k]).0@.len() != (#[trigger] rest[j]).0@.len() || rest[k].0@[0]
                != rest[j].0@[0] by {
                assert(rest[k] == items[k]);
                assert(rest[j] == items[j]);
            }
        }
        lemma_selected_itself(rest, i);
    } else {
        assert(settings_ui::same_name(items.last().0@, name));
    }
}

/// Whatever is typed, the timing stays within its limits where it was before.
pub proof fn law_timing_stays_within_limits(s: SettingsView, f: settings_ui::FormView)
    requires
        s.model.partial_cadence_ms <= MOST_CADENCE,
        s.model.release_tail_ms <= MOST_TAIL,
    ensures
        settings_ui::collected(s, f).model.partial_cadence_ms <= MOST_CADENCE,
        settings_ui::collected(s, f).model.release_tail_ms <= MOST_TAIL,
{
}

/// What stands in the window, row by row: each control has its own number, counted from two
/// hundred. A box to tick bears its words itself, and every other control has a label beside
/// it; a list takes up what it does while it is closed, however far it falls open.
pub proof fn law_rows_of_the_window(m: Measures, i: int)
    requires
        0 <= i < 12,
    ensures
        ({
            let rows = settings_ui::row_list(m);
            let (id, label, caption, kind, height, advance) = rows[i];
            let ticked = i == 2 || i == 8 || i == 9 || i == 10;
            let chosen = i == 0 || i == 1 || i == 6 || i == 7;
            &&& rows.len() == 12
            &&& id == 200 + i
            &&& kind == if ticked {
                Kind::Check
            } else if chosen {
                Kind::List
            } else if i == 3 || i == 4 {
                Kind::Number
            } else if i == 5 {
                Kind::Line
            } else {
                Kind::Area
            }
            &&& ticked ==> label == ""@ && height == m.line && advance == m.line
            &&& !ticked ==> caption == ""@
            &&& chosen ==> advance == m.closed_list
            &&& i < 2 ==> height == m.long_list
            &&& i == 6 || i == 7 ==> height == m.short_list
            &&& 3 <= i <= 5 ==> height == m.line && advance == m.line
            &&& i == 11 ==> height == m.area && advance == m.area
        }),
        settings_ui::row_list(m)[0].1 == "Hold to dictate"@,
        settings_ui::row_list(m)[1].1 == "Model"@,
        settings_ui::row_list(m)[2].2 == "One inference thread (faster tail, far less CPU)"@,
        settings_ui::row_list(m)[3].1 == "Live text every (ms)"@,
        settings_ui::row_list(m)[4].1 == "Keep listening after (ms)"@,
        settings_ui::row_list(m)[5].1 == "Dictionary bias strength"@,
        settings_ui::row_list(m)[6].1 == "Insert by"@,
        settings_ui::row_list(m)[7].1 == "In terminals, insert by"@,
        settings_ui::row_list(m)[8].2 == "Capitalise sentences"@,
        settings_ui::row_list(m)[9].2 == "Spoken punctuation (\"comma\", \"new line\")"@,
        settings_ui::row_list(m)[10].2 == "Add a space after each dictation"@,
        settings_ui::row_list(m)[11].1 == "Dictionary\r\n(spoken = written)"@,
{
}

/// Each row begins below the one before it, and the buttons below them all.
pub proof fn law_rows_do_not_overlap(m: Measures, i: int)
    requires
        0 <= i < 12,
        m.closed_list >= 0,
        m.line >= 0,
        m.area >= 0,
        m.row_gap > 0,
    ensures
        settings_ui::row_top(m, i) + settings_ui::row_list(m)[i].5 < settings_ui::row_top(m, i + 1),
{
}

} // verus!
