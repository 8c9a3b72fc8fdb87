//! Deterministic post-processing: spoken commands, spacing, capitals and the
//! user's dictionary, in one pass each over the text.

use vstd::prelude::*;
use crate::chars;
use crate::chars::{from_chars, is_alphabetic, is_alphanumeric, to_chars, to_lowercase, to_uppercase};
use crate::dictionary;
use crate::dictionary::Dictionary;
use crate::phrases;
use crate::phrases::{apply_phrases, mark_phrases, push_marks, to_letters, to_marks};
use crate::words;
use crate::words::{join_texts, split_words, trim_chars, Class};

verus! {

/// Spoken commands and what they write, longest first so that "new paragraph"
/// wins over anything shorter.
pub const COMMANDS: [(&'static str, &'static str); 15] = [
    ("new paragraph", "\n\n"),
    ("new line", "\n"),
    ("full stop", "."),
    ("question mark", "?"),
    ("exclamation mark", "!"),
    ("open bracket", "("),
    ("close bracket", ")"),
    ("open quote", "\""),
    ("close quote", "\""),
    ("semicolon", ";"),
    ("colon", ":"),
    ("comma", ","),
    ("period", "."),
    ("dash", ","),
    ("hyphen", "-"),
];

/// The spoken commands as phrases.
pub open spec fn commands() -> Seq<(Seq<char>, Seq<char>)> {
    COMMANDS@.map_values(|p: (&'static str, &'static str)| (p.0@, p.1@))
}

/// The spoken commands as phrases.
fn command_phrases() -> (out: Vec<(String, String)>)
    ensures
        dictionary::pairs(out@) == commands(),
{
    let mut out: Vec<(String, String)> = Vec::new();
    let mut i: usize = 0;
    while i < COMMANDS.len()
        invariant
            i <= COMMANDS@.len(),
            dictionary::pairs(out@) == commands().take(i as int),
        decreases COMMANDS@.len() - i,
    {
        let p: (String, String) = (COMMANDS[i].0.to_owned(), COMMANDS[i].1.to_owned());
        proof {
            assert(dictionary::pairs(out@.push(p)) =~= dictionary::pairs(out@).push(
                (p.0@, p.1@),
            ));
            assert(commands().take(i + 1) =~= commands().take(i as int).push(
                commands()[i as int],
            ));
        }
        out.push(p);
        i += 1;
    }
    assert(commands().take(i as int) =~= commands());
    out
}

// ---- spacing ---------------------------------------------------------------

/// The characters that a gap is made of.
pub open spec fn blank(c: char) -> bool {
    c == ' ' || c == '\t'
}

/// The characters that no gap stands before.
pub open spec fn closes(c: char) -> bool {
    c == '.' || c == ',' || c == '!' || c == '?' || c == ';' || c == ':' || c == ')' || c == '\n'
}

/// The marks that want a gap before a following letter or number.
pub open spec fn mark(c: char) -> bool {
    c == '.' || c == '!' || c == '?' || c == ',' || c == ';' || c == ':'
}

/// The last character of a text that is not blank.
pub open spec fn last_solid(s: Seq<char>) -> Option<char>
    decreases s.len(),
{
    if s.len() == 0 {
        None
    } else if blank(s.last()) {
        last_solid(s.drop_last())
    } else {
        Some(s.last())
    }
}

/// Whether a gap stands before `c`, which is not blank, after the text `before`:
/// never at the start of the text or of a line, nor before a closing mark;
/// else where the text had blanks, and after a mark that a letter or a number
/// follows directly.
pub open spec fn gap(before: Seq<char>, c: char) -> bool {
    match last_solid(before) {
        None => false,
        Some(p) => {
            &&& p != '\n'
            &&& !closes(c)
            &&& blank(before.last()) || (mark(p) && chars::alphanumeric(c))
        },
    }
}

/// A text with its gaps set: every character that is not blank is kept, and
/// one space stands before those that have a gap before them.
pub open spec fn spaced(s: Seq<char>) -> Seq<char>
    decreases s.len(),
{
    if s.len() == 0 {
        seq![]
    } else {
        let c = s.last();
        let before = s.drop_last();
        if blank(c) {
            spaced(before)
        } else if gap(before, c) {
            spaced(before).push(' ').push(c)
        } else {
            spaced(before).push(c)
        }
    }
}

/// A blank that was said. One that stands in a written form is part of it.
pub open spec fn loose(x: (char, bool)) -> bool {
    !x.1 && blank(x.0)
}

/// The last character of marked text that is no loose blank.
pub open spec fn last_kept(m: phrases::Marked) -> Option<(char, bool)>
    decreases m.len(),
{
    if m.len() == 0 {
        None
    } else if loose(m.last()) {
        last_kept(m.drop_last())
    } else {
        Some(m.last())
    }
}

/// Whether a gap stands before `x` after the marked text `before`: as in plain text,
/// but never inside a written form.
pub open spec fn marked_gap(before: phrases::Marked, x: (char, bool)) -> bool {
    match last_kept(before) {
        None => false,
        Some(p) => {
            &&& p.0 != '\n'
            &&& !closes(x.0)
            &&& loose(before.last()) || (mark(p.0) && chars::alphanumeric(x.0) && !(p.1 && x.1))
        },
    }
}

/// Marked text with its gaps set around the written forms and between the words that
/// were said.
pub open spec fn marked_spaced(m: phrases::Marked) -> phrases::Marked
    decreases m.len(),
{
    if m.len() == 0 {
        seq![]
    } else {
        let x = m.last();
        let before = m.drop_last();
        if loose(x) {
            marked_spaced(before)
        } else if marked_gap(before, x) {
            marked_spaced(before).push((' ', false)).push(x)
        } else {
            marked_spaced(before).push(x)
        }
    }
}

/// Where nothing was put in, the gaps are those of plain text.
pub proof fn lemma_plain_spaced(s: Seq<char>)
    ensures
        last_kept(phrases::flagged(s, false)) == (match last_solid(s) {
            Some(c) => Some((c, false)),
            None => None,
        }),
        marked_spaced(phrases::flagged(s, false)) == phrases::flagged(spaced(s), false),
    decreases s.len(),
{
    let m = phrases::flagged(s, false);
    if s.len() > 0 {
        let before = s.drop_last();
        lemma_plain_spaced(before);
        assert(m.drop_last() =~= phrases::flagged(before, false));
        assert(m.last() == (s.last(), false));
        if before.len() > 0 {
            assert(phrases::flagged(before, false).last() == (before.last(), false));
        }
        if last_solid(before) is Some {
            assert(before.len() > 0);
        }
        assert(marked_spaced(m) =~= phrases::flagged(spaced(s), false));
    } else {
        assert(m =~= seq![]);
        assert(phrases::flagged(spaced(s), false) =~= seq![]);
    }
}

fn is_closing(c: char) -> (r: bool)
    ensures
        r == closes(c),
{
    c == '.' || c == ',' || c == '!' || c == '?' || c == ';' || c == ':' || c == ')' || c == '\n'
}

fn is_mark(c: char) -> (r: bool)
    ensures
        r == mark(c),
{
    c == '.' || c == '!' || c == '?' || c == ',' || c == ';' || c == ':'
}

/// Sets the gaps of marked text.
fn space_marks(m: &[(char, bool)]) -> (out: Vec<(char, bool)>)
    ensures
        out@ == marked_spaced(m@),
{
    let mut out: Vec<(char, bool)> = Vec::new();
    let mut last: Option<(char, bool)> = None;
    let mut pending: bool = false;
    let mut i: usize = 0;
    while i < m.len()
        invariant
            i <= m@.len(),
            last == last_kept(m@.take(i as int)),
            pending == (i > 0 && loose(m@[i - 1])),
            out@ == marked_spaced(m@.take(i as int)),
        decreases m@.len() - i,
    {
        let x: (char, bool) = m[i];
        proof {
            assert(m@.take(i + 1).drop_last() =~= m@.take(i as int));
            assert(m@.take(i + 1).last() == x);
        }
        if !x.1 && (x.0 == ' ' || x.0 == '\t') {
            pending = true;
        } else {
            let wants: bool = match last {
                None => false,
                Some(p) => p.0 != '\n' && !is_closing(x.0) && (pending || (is_mark(p.0)
                    && is_alphanumeric(x.0) && !(p.1 && x.1))),
            };
            if wants {
                out.push((' ', false));
            }
            out.push(x);
            last = Some(x);
            pending = false;
        }
        i += 1;
    }
    assert(m@.take(i as int) =~= m@);
    out
}

/// Punctuation hugs the word before it, with one space after, no space before a
/// line break, and runs of blanks collapsed.
pub fn fix_spacing(text: &str) -> (out: String)
    ensures
        out@ == spaced(text@),
{
    let out: String = to_letters(space_marks(to_marks(text).as_slice()).as_slice());
    proof {
        lemma_plain_spaced(text@);
        phrases::lemma_letters(spaced(text@), false);
    }
    out
}

// ---- capitals --------------------------------------------------------------

/// The characters that end a sentence.
pub open spec fn ends_sentence(c: char) -> bool {
    c == '.' || c == '!' || c == '?' || c == '\n'
}

/// Whether the next letter after this text starts a sentence: no letter has
/// come since the last end of a sentence, or since the start.
pub open spec fn at_start(s: Seq<char>) -> bool
    decreases s.len(),
{
    if s.len() == 0 || ends_sentence(s.last()) {
        true
    } else if chars::alphabetic(s.last()) {
        false
    } else {
        at_start(s.drop_last())
    }
}

/// A text with the first letter of every sentence in upper case and everything
/// else as it is.
pub open spec fn capitalised(s: Seq<char>) -> Seq<char>
    decreases s.len(),
{
    if s.len() == 0 {
        seq![]
    } else {
        let c = s.last();
        let before = s.drop_last();
        if at_start(before) && chars::alphabetic(c) {
            capitalised(before) + chars::upper(c)
        } else {
            capitalised(before).push(c)
        }
    }
}

/// Marked text with the first letter of every sentence in upper case, unless it stands
/// in a written form.
pub open spec fn marked_capitalised(m: phrases::Marked) -> phrases::Marked
    decreases m.len(),
{
    if m.len() == 0 {
        seq![]
    } else {
        let x = m.last();
        let before = m.drop_last();
        if !x.1 && at_start(phrases::letters(before)) && chars::alphabetic(x.0) {
            marked_capitalised(before) + phrases::flagged(chars::upper(x.0), false)
        } else {
            marked_capitalised(before).push(x)
        }
    }
}

/// Where nothing was put in, the capitals are those of plain text.
pub proof fn lemma_plain_capitalised(s: Seq<char>)
    ensures
        marked_capitalised(phrases::flagged(s, false)) == phrases::flagged(capitalised(s), false),
    decreases s.len(),
{
    let m = phrases::flagged(s, false);
    if s.len() > 0 {
        let before = s.drop_last();
        lemma_plain_capitalised(before);
        assert(m.drop_last() =~= phrases::flagged(before, false));
        assert(m.last() == (s.last(), false));
        phrases::lemma_letters(before, false);
        assert(marked_capitalised(m) =~= phrases::flagged(capitalised(s), false));
    } else {
        assert(m =~= seq![]);
        assert(phrases::flagged(capitalised(s), false) =~= seq![]);
    }
}

/// Sets the capitals of marked text.
fn capitalise_marks(m: &[(char, bool)]) -> (out: Vec<(char, bool)>)
    ensures
        out@ == marked_capitalised(m@),
{
    let mut out: Vec<(char, bool)> = Vec::new();
    let mut start: bool = true;
    let mut i: usize = 0;
    while i < m.len()
        invariant
            i <= m@.len(),
            start == at_start(phrases::letters(m@.take(i as int))),
            out@ == marked_capitalised(m@.take(i as int)),
        decreases m@.len() - i,
    {
        let x: (char, bool) = m[i];
        let letter: bool = is_alphabetic(x.0);
        proof {
            let now = m@.take(i + 1);
            assert(now.drop_last() =~= m@.take(i as int));
            assert(now.last() == x);
            assert(phrases::letters(now).drop_last() =~= phrases::letters(m@.take(i as int)));
            assert(phrases::letters(now).last() == x.0);
        }
        if !x.1 && start && letter {
            push_marks(&mut out, to_chars(to_uppercase(x.0).as_str()).as_slice(), false);
        } else {
            out.push(x);
        }
        if x.0 == '.' || x.0 == '!' || x.0 == '?' || x.0 == '\n' {
            start = true;
        } else if letter {
            start = false;
        }
        i += 1;
    }
    assert(m@.take(i as int) =~= m@);
    out
}

/// Capitalises the first letter of the text and of each sentence, and leaves
/// every other character alone, so that names and acronyms survive.
pub fn capitalise(text: &str) -> (out: String)
    ensures
        out@ == capitalised(text@),
{
    let out: String = to_letters(capitalise_marks(to_marks(text).as_slice()).as_slice());
    proof {
        lemma_plain_capitalised(text@);
        phrases::lemma_letters(capitalised(text@), false);
    }
    out
}

// ---- the dictionary in order ------------------------------------------------

/// How many words a spoken form has.
pub open spec fn word_count(s: Seq<char>) -> nat {
    words::words(s).len()
}

/// Where an entry goes in a list ordered by falling number of words: behind all
/// that have as many words or more.
pub open spec fn place(sorted: Seq<(Seq<char>, Seq<char>)>, count: nat) -> int
    decreases sorted.len(),
{
    if sorted.len() == 0 || word_count(sorted.last().0) >= count {
        sorted.len() as int
    } else {
        place(sorted.drop_last(), count)
    }
}

/// Entries by falling number of words of the spoken form, those with equally
/// many in the order they had.
pub open spec fn longest_first(
    entries: Seq<(Seq<char>, Seq<char>)>,
) -> Seq<(Seq<char>, Seq<char>)>
    decreases entries.len(),
{
    if entries.len() == 0 {
        seq![]
    } else {
        let sorted = longest_first(entries.drop_last());
        let e = entries.last();
        sorted.insert(place(sorted, word_count(e.0)), e)
    }
}

/// Entries with the spoken forms in lower case.
pub open spec fn lowered(
    entries: Seq<(Seq<char>, Seq<char>)>,
) -> Seq<(Seq<char>, Seq<char>)> {
    entries.map_values(|e: (Seq<char>, Seq<char>)| (chars::lower(e.0), e.1))
}

proof fn lemma_place(sorted: Seq<(Seq<char>, Seq<char>)>, count: nat)
    ensures
        0 <= place(sorted, count) <= sorted.len(),
        place(sorted, count) > 0 ==> word_count(sorted[place(sorted, count) - 1].0) >= count,
        forall|i: int|
            place(sorted, count) <= i < sorted.len() ==> word_count((#[trigger] sorted[i]).0)
                < count,
    decreases sorted.len(),
{
    if sorted.len() > 0 && word_count(sorted.last().0) < count {
        lemma_place(sorted.drop_last(), count);
        assert forall|i: int| place(sorted, count) <= i < sorted.len() implies word_count(
            (#[trigger] sorted[i]).0,
        ) < count by {
            if i < sorted.len() - 1 {
                assert(sorted.drop_last()[i] == sorted[i]);
            }
        }
    }
}

/// Whether entries stand by falling number of words.
pub open spec fn falling(entries: Seq<(Seq<char>, Seq<char>)>) -> bool {
    forall|i: int, j: int|
        0 <= i <= j < entries.len() ==> word_count((#[trigger] entries[i]).0) >= word_count(
            (#[trigger] entries[j]).0,
        )
}

/// Ordering a dictionary keeps its entries, puts those with more words before
/// those with fewer, and keeps the order among those with equally many.
pub proof fn law_longest_first(entries: Seq<(Seq<char>, Seq<char>)>, count: nat)
    ensures
        falling(longest_first(entries)),
        longest_first(entries).to_multiset() == entries.to_multiset(),
        longest_first(entries).filter(|e: (Seq<char>, Seq<char>)| word_count(e.0) == count)
            == entries.filter(|e: (Seq<char>, Seq<char>)| word_count(e.0) == count),
    decreases entries.len(),
{
    let same = |e: (Seq<char>, Seq<char>)| word_count(e.0) == count;
    reveal(Seq::filter);
    if entries.len() > 0 {
        let before = entries.drop_last();
        let e = entries.last();
        law_longest_first(before, count);
        let sorted = longest_first(before);
        let p = place(sorted, word_count(e.0));
        lemma_place(sorted, word_count(e.0));
        let full = sorted.insert(p, e);
        assert forall|i: int, j: int| 0 <= i <= j < full.len() implies word_count(
            (#[trigger] full[i]).0,
        ) >= word_count((#[trigger] full[j]).0) by {
            if i < p && p > 0 {
                assert(word_count(sorted[i].0) >= word_count(sorted[p - 1].0));
            }
            if i < p {
                assert(full[i] == sorted[i]);
            } else if i > p {
                assert(full[i] == sorted[i - 1]);
            }
            if j < p {
                assert(full[j] == sorted[j]);
            } else if j > p {
                assert(full[j] == sorted[j - 1]);
            }
        }
        broadcast use vstd::seq_lib::group_to_multiset_ensures;

        assert(entries =~= before.push(e));
        assert(full.to_multiset() =~= sorted.to_multiset().insert(e));
        assert(entries.to_multiset() =~= before.to_multiset().insert(e));

        let left = sorted.take(p);
        let right = sorted.skip(p);
        assert(sorted =~= left + right);
        assert(full =~= left.push(e) + right);
        Seq::filter_distributes_over_add(left, right, same);
        Seq::filter_distributes_over_add(left.push(e), right, same);
        assert(left.push(e).drop_last() =~= left);
        assert(left.push(e).filter(same) == if same(e) {
            left.filter(same).push(e)
        } else {
            left.filter(same)
        });
        if same(e) {
            lemma_filter_none(right, same);
            assert(full.filter(same) =~= sorted.filter(same).push(e));
        } else {
            assert(full.filter(same) =~= sorted.filter(same));
        }
        assert(entries.filter(same) == if same(e) {
            before.filter(same).push(e)
        } else {
            before.filter(same)
        });
    } else {
        assert(entries =~= longest_first(entries));
    }
}

proof fn lemma_filter_none<A>(s: Seq<A>, f: spec_fn(A) -> bool)
    requires
        forall|i: int| 0 <= i < s.len() ==> !f(#[trigger] s[i]),
    ensures
        s.filter(f) == Seq::<A>::empty(),
    decreases s.len(),
{
    reveal(Seq::filter);
    if s.len() > 0 {
        lemma_filter_none(s.drop_last(), f);
    }
}

// ---- the formatter ----------------------------------------------------------

/// Turns what was recognised into what is inserted.
#[derive(Clone, Debug)]
pub struct Formatter {
    /// Spoken-to-written replacements on whole words, spoken forms in lower
    /// case, written forms verbatim, those with more words first.
    pub dictionary: Vec<(String, String)>,
    pub capitalise_sentences: bool,
    pub spoken_punctuation: bool,
    pub trailing_space: bool,
}

/// A text with the spoken commands carried out and the replacements made. What a
/// replacement wrote is marked.
pub open spec fn corrected(
    raw: Seq<char>,
    replacements: Seq<(Seq<char>, Seq<char>)>,
    punctuation: bool,
) -> phrases::Marked {
    let said = punctuated(raw, punctuation);
    if replacements.len() > 0 {
        phrases::marked(said, replacements)
    } else {
        phrases::flagged(said, false)
    }
}

/// A text without the white space around it, with the spoken commands carried out.
pub open spec fn punctuated(raw: Seq<char>, punctuation: bool) -> Seq<char> {
    if punctuation {
        phrases::phrased(words::trim(raw), commands())
    } else {
        words::trim(raw)
    }
}

/// What a text becomes, given the replacements and the three switches: gaps and
/// capitals are set in what was said, and written forms stand verbatim.
pub open spec fn formatted(
    raw: Seq<char>,
    replacements: Seq<(Seq<char>, Seq<char>)>,
    capitals: bool,
    punctuation: bool,
    trailing: bool,
) -> Seq<char> {
    let set = marked_spaced(corrected(raw, replacements, punctuation));
    let written = phrases::letters(
        if capitals {
            marked_capitalised(set)
        } else {
            set
        },
    );
    if words::trim(raw).len() == 0 {
        seq![]
    } else if trailing && !(written.len() > 0 && (written.last() == '\n' || written.last()
        == ' ')) {
        written.push(' ')
    } else {
        written
    }
}

impl Formatter {
    /// The replacements in the order in which they are tried.
    pub open spec fn replacements(&self) -> Seq<(Seq<char>, Seq<char>)> {
        dictionary::pairs(self.dictionary@)
    }

    /// What a text becomes under this formatter.
    pub open spec fn result(&self, raw: Seq<char>) -> Seq<char> {
        formatted(
            raw,
            self.replacements(),
            self.capitalise_sentences,
            self.spoken_punctuation,
            self.trailing_space,
        )
    }

    /// The entries of a dictionary as replacements, in the order in which they
    /// are tried: longest source first, so that "lift off consulting" beats
    /// "lift off".
    fn ordered(entries: &Dictionary) -> (out: Vec<(String, String)>)
        ensures
            dictionary::pairs(out@) == longest_first(lowered(entries@)),
    {
        let mut out: Vec<(String, String)> = Vec::new();
        let ghost all = lowered(entries@);
        let n: usize = entries.len();
        let mut i: usize = 0;
        assert(dictionary::pairs(out@) =~= longest_first(all.take(0)));
        while i < n
            invariant
                i <= n == entries@.len(),
                all == lowered(entries@),
                dictionary::pairs(out@) == longest_first(all.take(i as int)),
            decreases n - i,
        {
            let (spoken, written) = entries.entry(i);
            let e: (String, String) = (to_lowercase(spoken.as_str()), written.clone());
            let count: usize = split_words(to_chars(e.0.as_str()).as_slice()).len();
            let ghost sorted = dictionary::pairs(out@);
            let ghost here = (e.0@, e.1@);
            proof {
                assert(words::words(e.0@).len() == count);
                assert(all.take(i + 1).drop_last() =~= all.take(i as int));
                assert(all.take(i + 1).last() == here);
            }
            let mut p: usize = out.len();
            assert(sorted.take(p as int) =~= sorted);
            while p > 0 && split_words(to_chars(out[p - 1].0.as_str()).as_slice()).len() < count
                invariant
                    p <= out@.len(),
                    sorted == dictionary::pairs(out@),
                    place(sorted, count as nat) == place(sorted.take(p as int), count as nat),
                decreases p,
            {
                proof {
                    assert(sorted.take(p as int).last() == sorted[p - 1]);
                    assert(sorted.take(p as int).drop_last() =~= sorted.take(p - 1));
                }
                p -= 1;
            }
            proof {
                if p > 0 {
                    assert(sorted.take(p as int).last() == sorted[p - 1]);
                }
                assert(place(sorted, count as nat) == p);
            }
            out.insert(p, e);
            assert(dictionary::pairs(out@) =~= sorted.insert(p as int, here));
            i += 1;
        }
        assert(all.take(i as int) =~= all);
        out
    }

    /// A formatter with these replacements and every switch on.
    pub fn with_dictionary(entries: &Dictionary) -> (f: Formatter)
        ensures
            f.replacements() == longest_first(lowered(entries@)),
            f.capitalise_sentences,
            f.spoken_punctuation,
            f.trailing_space,
    {
        Formatter {
            dictionary: Self::ordered(entries),
            capitalise_sentences: true,
            spoken_punctuation: true,
            trailing_space: true,
        }
    }

    /// Puts other replacements in place and leaves the switches as they are.
    pub fn set_dictionary(&mut self, entries: &Dictionary)
        ensures
            final(self).replacements() == longest_first(lowered(entries@)),
            final(self).capitalise_sentences == old(self).capitalise_sentences,
            final(self).spoken_punctuation == old(self).spoken_punctuation,
            final(self).trailing_space == old(self).trailing_space,
    {
        self.dictionary = Self::ordered(entries);
    }

    /// The comma-separated list of written forms that is handed to the decoder,
    /// so that the same dictionary biases it and corrects it afterwards.
    pub fn keyterms(&self) -> (out: String)
        ensures
            out@ == words::joined(
                self.replacements().map_values(|e: (Seq<char>, Seq<char>)| e.1),
                ","@,
            ),
    {
        let mut terms: Vec<String> = Vec::new();
        let mut i: usize = 0;
        let ghost all = self.replacements().map_values(|e: (Seq<char>, Seq<char>)| e.1);
        while i < self.dictionary.len()
            invariant
                i <= self.dictionary@.len(),
                all == self.replacements().map_values(|e: (Seq<char>, Seq<char>)| e.1),
                chars::texts(terms@) == all.take(i as int),
            decreases self.dictionary@.len() - i,
        {
            let t: String = self.dictionary[i].1.clone();
            proof {
                assert(chars::texts(terms@.push(t)) =~= chars::texts(terms@).push(t@));
                assert(all.take(i + 1) =~= all.take(i as int).push(all[i as int]));
            }
            terms.push(t);
            i += 1;
        }
        assert(all.take(i as int) =~= all);
        join_texts(terms.as_slice(), ",")
    }

    /// What is inserted for what was recognised.
    pub fn format(&self, raw: &str) -> (out: String)
        ensures
            out@ == self.result(raw@),
    {
        let trimmed: Vec<char> = trim_chars(to_chars(raw).as_slice(), Class::Whitespace);
        let mut text: String = from_chars(trimmed.as_slice());
        if trimmed.len() == 0 {
            return text;
        }
        if self.spoken_punctuation {
            text = apply_phrases(text.as_str(), &command_phrases());
        }
        let mut marks: Vec<(char, bool)> = if self.dictionary.len() > 0 {
            mark_phrases(text.as_str(), &self.dictionary)
        } else {
            to_marks(text.as_str())
        };
        marks = space_marks(marks.as_slice());
        if self.capitalise_sentences {
            marks = capitalise_marks(marks.as_slice());
        }
        text = to_letters(marks.as_slice());
        if self.trailing_space {
            let written: Vec<char> = to_chars(text.as_str());
            let n: usize = written.len();
            if n == 0 || (written[n - 1] != '\n' && written[n - 1] != ' ') {
                text.push(' ');
            }
        }
        text
    }
}

impl Default for Formatter {
    /// No replacements and every switch on.
    fn default() -> (f: Formatter)
        ensures
            f.replacements() == Seq::<(Seq<char>, Seq<char>)>::empty(),
            f.capitalise_sentences,
            f.spoken_punctuation,
            f.trailing_space,
    {
        let dictionary: Vec<(String, String)> = Vec::new();
        assert(dictionary::pairs(dictionary@) =~= seq![]);
        Formatter {
            dictionary,
            capitalise_sentences: true,
            spoken_punctuation: true,
            trailing_space: true,
        }
    }
}

} // verus!
