//! What figures say, how words are counted, and how a command line is read.

use vstd::prelude::*;
use crate::args;
use crate::args::ItemParts;
use crate::bench;
use crate::chars;
use crate::cli;
use crate::cli::RunView;
use crate::control::HotkeyEvent;
use crate::number;
use crate::stats;
use crate::stats::Shown;
use crate::trace;
use crate::trace::ReportShown;
use crate::wer;
use crate::words;
use crate::words_laws;

verus! {

// ---- numbers --------------------------------------------------------------------------

/// A number is written with its digits, the last one being what ten leaves over.
pub proof fn law_numbers_are_written_in_tens(n: nat, d: nat)
    requires
        d < 10,
    ensures
        n > 0 ==> number::decimal(10 * n + d) == number::decimal(n).push(
            seq!['0', '1', '2', '3', '4', '5', '6', '7', '8', '9'][d as int],
        ),
        number::decimal(d) == seq![
            seq!['0', '1', '2', '3', '4', '5', '6', '7', '8', '9'][d as int],
        ],
{
    let all = seq!['0', '1', '2', '3', '4', '5', '6', '7', '8', '9'];
    assert(all[d as int] == (d + 48) as char);
    if n > 0 {
        assert((10 * n + d) / 10 == n);
        assert((10 * n + d) % 10 == d);
    }
}

/// A text is a number where it is digits and nothing else, with or without a plus before
/// them, and not too large. One more digit makes it ten times as much and the digit.
pub proof fn law_numbers_are_read(s: Seq<char>, max: nat, d: nat)
    requires
        forall|i: int| 0 <= i < s.len() ==> '0' <= #[trigger] s[i] && s[i] <= '9',
        s.len() > 0,
        d < 10,
    ensures
        number::value(s) <= max ==> number::parsed(s, max) == Some(number::value(s))
            && number::parsed(seq!['+'] + s, max) == Some(number::value(s)),
        number::value(s) > max ==> number::parsed(s, max) is None && number::parsed(
            seq!['+'] + s,
            max,
        ) is None,
        number::value(
            s.push(seq!['0', '1', '2', '3', '4', '5', '6', '7', '8', '9'][d as int]),
        ) == 10 * number::value(s) + d,
{
    assert(s[0] != '+');
    assert((seq!['+'] + s).drop_first() =~= s);
    let c = seq!['0', '1', '2', '3', '4', '5', '6', '7', '8', '9'][d as int];
    assert(c as nat == 48 + d);
    assert(s.push(c).drop_last() =~= s);
    assert(number::all_digits(s)) by {
        assert forall|i: int| 0 <= i < s.len() implies chars::ascii_digit(#[trigger] s[i]) by {}
    }
}

/// What holds anything but digits behind its first character is no number, and neither is
/// what is empty or a plus alone.
pub proof fn law_other_texts_are_no_numbers(s: Seq<char>, max: nat, i: int)
    requires
        0 < i < s.len() && !('0' <= s[i] && s[i] <= '9') || s.len() == 0 || s == seq!['+'] || (
        s.len() > 0 && s[0] != '+' && !('0' <= s[0] && s[0] <= '9')),
    ensures
        number::parsed(s, max) is None,
{
    let d = number::unsigned_part(s);
    if s.len() > 0 && s[0] != '+' && !('0' <= s[0] && s[0] <= '9') {
        assert(!chars::ascii_digit(d[0]));
    } else if s == seq!['+'] {
        assert(d.len() == 0);
    } else if s.len() > 0 {
        if s[0] == '+' {
            assert(d[i - 1] == s[i]);
            assert(!chars::ascii_digit(d[i - 1]));
        } else {
            assert(!chars::ascii_digit(d[i]));
        }
    }
}

// ---- percentiles ----------------------------------------------------------------------

/// A percentile is the least of the ranks that so many of a hundred reach: the share of the
/// samples up to it is no less than what is asked for, and the share up to the one before is.
pub proof fn law_percentiles_reach_their_share(n: nat, percent: nat)
    requires
        n > 0,
        0 < percent <= 100,
    ensures
        100 * stats::rank(n, percent) >= percent * n,
        100 * (stats::rank(n, percent) - 1) < percent * n,
        1 <= stats::rank(n, percent) <= n,
{
    let p = percent * n;
    assert(0 < p <= 100 * n) by (nonlinear_arith)
        requires
            0 < percent <= 100,
            n > 0,
            p == percent * n,
    ;
}

/// A text that is padded to a width has that width, and is followed or preceded by spaces
/// alone; one that is wider is left as it is.
pub proof fn law_padding(s: Seq<char>, width: int, i: int)
    ensures
        s.len() >= width ==> stats::pad_right(s, width) == s && stats::pad_left(s, width) == s,
        s.len() < width ==> stats::pad_right(s, width).len() == width && stats::pad_left(
            s,
            width,
        ).len() == width,
        0 <= i < s.len() ==> stats::pad_right(s, width)[i] == s[i],
        s.len() <= i < width ==> stats::pad_right(s, width)[i] == ' ',
        0 <= i < width - s.len() ==> stats::pad_left(s, width)[i] == ' ',
        s.len() < width && 0 <= i < s.len() ==> stats::pad_left(s, width)[width - s.len() + i]
            == s[i],
{
    lemma_spaces(width - s.len(), i);
    lemma_spaces(width - s.len(), i - s.len());
}

proof fn lemma_spaces(n: int, i: int)
    ensures
        stats::spaces(n).len() == if n > 0 {
            n
        } else {
            0
        },
        0 <= i < n ==> stats::spaces(n)[i] == ' ',
    decreases n,
{
    if n > 0 {
        lemma_spaces(n - 1, i);
    }
}

/// A line of figures names what it is of and says how many there are, what half of them,
/// nine tenths, ninety-five and ninety-nine hundredths do not exceed, and the greatest, in
/// that order and in columns; or that there are none.
pub proof fn law_line_of_figures(label: Seq<char>, f: Shown)
    ensures
        stats::report_line(label, None) == stats::pad_right(label, 34) + " no samples"@,
        ({
            let columns = seq![
                stats::pad_right(label, 34),
                " n="@,
                stats::pad_right(number::decimal(f.count as nat), 5),
                " p50="@,
                stats::pad_left(f.p50@, 7),
                " p90="@,
                stats::pad_left(f.p90@, 7),
                " p95="@,
                stats::pad_left(f.p95@, 7),
                " p99="@,
                stats::pad_left(f.p99@, 7),
                " max="@,
                stats::pad_left(f.max@, 7),
                "  (ms)"@,
            ];
            stats::report_line(label, Some(f)) == words_laws::chained(columns)
        }),
{
    let c0 = Seq::<Seq<char>>::empty();
    let c1 = c0.push(stats::pad_right(label, 34));
    let c2 = c1.push(" n="@);
    let c3 = c2.push(stats::pad_right(number::decimal(f.count as nat), 5));
    let c4 = c3.push(" p50="@);
    let c5 = c4.push(stats::pad_left(f.p50@, 7));
    let c6 = c5.push(" p90="@);
    let c7 = c6.push(stats::pad_left(f.p90@, 7));
    let c8 = c7.push(" p95="@);
    let c9 = c8.push(stats::pad_left(f.p95@, 7));
    let c10 = c9.push(" p99="@);
    let c11 = c10.push(stats::pad_left(f.p99@, 7));
    let c12 = c11.push(" max="@);
    let c13 = c12.push(stats::pad_left(f.max@, 7));
    let c14 = c13.push("  (ms)"@);
    lemma_chained_longer(c0, c1.last());
    lemma_chained_longer(c1, c2.last());
    lemma_chained_longer(c2, c3.last());
    lemma_chained_longer(c3, c4.last());
    lemma_chained_longer(c4, c5.last());
    lemma_chained_longer(c5, c6.last());
    lemma_chained_longer(c6, c7.last());
    lemma_chained_longer(c7, c8.last());
    lemma_chained_longer(c8, c9.last());
    lemma_chained_longer(c9, c10.last());
    lemma_chained_longer(c10, c11.last());
    lemma_chained_longer(c11, c12.last());
    lemma_chained_longer(c12, c13.last());
    lemma_chained_longer(c13, c14.last());
    assert(words_laws::chained(c0) + c1.last() =~= c1.last());
    assert(c14 =~= seq![
        c1.last(),
        c2.last(),
        c3.last(),
        c4.last(),
        c5.last(),
        c6.last(),
        c7.last(),
        c8.last(),
        c9.last(),
        c10.last(),
        c11.last(),
        c12.last(),
        c13.last(),
        c14.last(),
    ]);
}

proof fn lemma_chained_longer(parts: Seq<Seq<char>>, part: Seq<char>)
    ensures
        words_laws::chained(parts.push(part)) == words_laws::chained(parts) + part,
{
    assert(parts.push(part).drop_last() =~= parts);
}

/// The report has a line for each span: what the user waits for, its two parts, and what
/// comes before; before the first dictation it says that there is nothing to tell.
pub proof fn law_report_has_a_line_for_each_span(r: ReportShown)
    ensures
        r.perceived is None ==> trace::report_text(r) == "No dictations recorded yet."@,
        r.perceived is Some ==> trace::report_text(r) == words::joined(
            seq![
                stats::report_line("KEY UP -> TEXT ON SCREEN"@, r.perceived),
                stats::report_line("  key up -> transcript ready"@, r.finalisation),
                stats::report_line("  transcript -> inserted"@, r.insertion),
                stats::report_line("hotkey -> first audio packet"@, r.activation),
                stats::report_line("hotkey -> first partial"@, r.first_partial),
            ],
            "\n"@,
        ),
{
    let l1 = seq![stats::report_line("KEY UP -> TEXT ON SCREEN"@, r.perceived)];
    let l2 = l1.push(stats::report_line("  key up -> transcript ready"@, r.finalisation));
    let l3 = l2.push(stats::report_line("  transcript -> inserted"@, r.insertion));
    let l4 = l3.push(stats::report_line("hotkey -> first audio packet"@, r.activation));
    let l5 = l4.push(stats::report_line("hotkey -> first partial"@, r.first_partial));
    words_laws::law_joining_one_more(l1, "\n"@, l2.last());
    words_laws::law_joining_one_more(l2, "\n"@, l3.last());
    words_laws::law_joining_one_more(l3, "\n"@, l4.last());
    words_laws::law_joining_one_more(l4, "\n"@, l5.last());
    assert(words::joined(l1, "\n"@) == l1[0]);
    assert(l5 =~= seq![l1[0], l2.last(), l3.last(), l4.last(), l5.last()]);
}

/// A text that is too long to show is cut, and three dots say so; another is shown whole.
pub proof fn law_long_texts_are_cut(s: Seq<char>, n: int)
    requires
        0 <= n,
    ensures
        s.len() <= n ==> bench::truncated(s, n) == s,
        s.len() > n ==> bench::truncated(s, n).len() == n + 3 && bench::truncated(s, n).take(n)
            == s.take(n) && bench::truncated(s, n).skip(n) == seq!['.', '.', '.'],
{
    reveal_strlit("...");
    if s.len() > n {
        assert(bench::truncated(s, n).take(n) =~= s.take(n));
        assert(bench::truncated(s, n).skip(n) =~= seq!['.', '.', '.']);
    }
}

// ---- words that are scored ------------------------------------------------------------

/// What is scored are the words in lower case: letters, digits and apostrophes count, and
/// whatever else there is parts words as a space does.
pub proof fn law_punctuation_does_not_count(s: Seq<char>, plain: Seq<char>)
    requires
        plain.len() == chars::lower(s).len(),
        forall|i: int|
            0 <= i < plain.len() ==> #[trigger] plain[i] == if chars::alphanumeric(
                chars::lower(s)[i],
            ) || chars::lower(s)[i] == '\'' {
                chars::lower(s)[i]
            } else {
                ' '
            },
    ensures
        wer::scored(s) == words::words(plain),
{
    let low = chars::lower(s);
    let want = low.map_values(|c: char| wer::scored_char(c));
    assert forall|i: int| 0 <= i < plain.len() implies #[trigger] plain[i] == want[i] by {
        assert(want[i] == wer::scored_char(low[i]));
    }
    assert(plain =~= want);
}

/// One word more on either side costs at most one: nothing where both are the same.
pub proof fn law_equal_ends_cost_nothing(r: Seq<Seq<char>>, h: Seq<Seq<char>>, i: nat, j: nat)
    requires
        0 < i,
        0 < j,
    ensures
        r[i - 1] == h[j - 1] ==> wer::distance(r, h, i, j) <= wer::distance(
            r,
            h,
            (i - 1) as nat,
            (j - 1) as nat,
        ),
        wer::distance(r, h, i, j) <= 1 + wer::distance(r, h, (i - 1) as nat, (j - 1) as nat),
        wer::distance(r, h, i, j) <= 1 + wer::distance(r, h, (i - 1) as nat, j),
        wer::distance(r, h, i, j) <= 1 + wer::distance(r, h, i, (j - 1) as nat),
{
}

/// How the words of a distance are told apart: where the last two can be paired they are,
/// and that is a substitution unless they are the same; else the last of the reference is
/// deleted where that reaches the distance; else the last of the hypothesis is inserted.
pub proof fn law_pairs_come_before_deletions(
    r: Seq<Seq<char>>,
    h: Seq<Seq<char>>,
    i: nat,
    j: nat,
)
    requires
        0 < i,
        0 < j,
    ensures
        ({
            let d = wer::distance(r, h, i, j);
            let paired = wer::distance(r, h, (i - 1) as nat, (j - 1) as nat) + if r[i - 1] == h[j
                - 1] {
                0int
            } else {
                1
            };
            let dropped = wer::distance(r, h, (i - 1) as nat, j) + 1;
            let b = wer::breakdown(r, h, i, j);
            let p = wer::breakdown(r, h, (i - 1) as nat, (j - 1) as nat);
            let x = wer::breakdown(r, h, (i - 1) as nat, j);
            let y = wer::breakdown(r, h, i, (j - 1) as nat);
            &&& d == paired && r[i - 1] == h[j - 1] ==> b == p
            &&& d == paired && r[i - 1] != h[j - 1] ==> b == (p.0 + 1, p.1, p.2)
            &&& d != paired && d == dropped ==> b == (x.0, x.1 + 1, x.2)
            &&& d != paired && d != dropped ==> b == (y.0, y.1, y.2 + 1)
        }),
{
}

/// Where one side is empty, every word of the other was deleted or inserted.
pub proof fn law_nothing_against_words(r: Seq<Seq<char>>, h: Seq<Seq<char>>, n: nat)
    ensures
        wer::breakdown(r, h, n, 0) == (0int, n as int, 0int),
        wer::breakdown(r, h, 0, n) == (0int, 0int, n as int),
    decreases n,
{
    if n > 0 {
        law_nothing_against_words(r, h, (n - 1) as nat);
    }
}

// ---- the command line -----------------------------------------------------------------

/// An option stands for itself, or takes the argument behind it where it takes a value, or
/// nothing at the very end; what follows is read on its own.
pub proof fn law_options_are_read_in_turn(
    option: Seq<char>,
    value: Seq<char>,
    rest: Seq<Seq<char>>,
    valued: Seq<Seq<char>>,
)
    ensures
        !valued.contains(option) ==> args::items_of(seq![option] + rest, valued) == seq![
            (option, None::<Seq<char>>),
        ] + args::items_of(rest, valued),
        valued.contains(option) ==> args::items_of(seq![option, value] + rest, valued) == seq![
            (option, Some(value)),
        ] + args::items_of(rest, valued),
        valued.contains(option) ==> args::items_of(seq![option], valued) == seq![
            (option, Some(Seq::<char>::empty())),
        ],
        args::items_of(Seq::empty(), valued) == Seq::<ItemParts>::empty(),
{
    let one = seq![option] + rest;
    assert(one[0] == option);
    assert(one.skip(1) =~= rest);
    let two = seq![option, value] + rest;
    assert(two[0] == option && two[1] == value);
    assert(two.skip(2) =~= rest);
}

/// What was given last for an option holds; another option does not touch it, and neither
/// does the same one without a value.
pub proof fn law_last_one_holds(
    items: Seq<ItemParts>,
    name: Seq<char>,
    other: Seq<char>,
    v: Seq<char>,
    given: Option<Seq<char>>,
    default: Seq<char>,
)
    requires
        other != name,
    ensures
        args::last_text(items.push((name, Some(v))), name, default) == v,
        args::last_text(items.push((other, given)), name, default) == args::last_text(
            items,
            name,
            default,
        ),
        args::last_text(Seq::empty(), name, default) == default,
        args::all_texts(items.push((name, Some(v))), name) == args::all_texts(items, name).push(v),
        args::all_texts(items.push((other, given)), name) == args::all_texts(items, name),
        args::all_texts(Seq::empty(), name) == Seq::<Seq<char>>::empty(),
{
    assert(items.push((name, Some(v))).drop_last() =~= items);
    assert(items.push((other, given)).drop_last() =~= items);
}

/// The same of numbers: the last that is one holds, and what is none is passed over.
pub proof fn law_last_number_holds(
    items: Seq<ItemParts>,
    name: Seq<char>,
    other: Seq<char>,
    v: Seq<char>,
    given: Option<Seq<char>>,
    max: nat,
    default: nat,
)
    requires
        other != name,
    ensures
        args::last_number(items.push((name, Some(v))), name, max, default) == (match number::parsed(
            v,
            max,
        ) {
            Some(n) => n,
            None => args::last_number(items, name, max, default),
        }),
        args::last_number(items.push((other, given)), name, max, default) == args::last_number(
            items,
            name,
            max,
            default,
        ),
        args::last_number(Seq::empty(), name, max, default) == default,
{
    assert(items.push((name, Some(v))).drop_last() =~= items);
    assert(items.push((other, given)).drop_last() =~= items);
}

/// A pair is cut at its first equals sign; without one it is none.
pub proof fn law_pairs_are_cut_at_the_equals_sign(name: Seq<char>, value: Seq<char>)
    requires
        !name.contains('='),
    ensures
        args::pair_of(name.push('=') + value) == Some((name, value)),
        args::pair_of(name) is None,
{
    let all = name.push('=') + value;
    let n = name.len() as int;
    assert(all[n] == '=');
    assert forall|i: int| 0 <= i < n implies #[trigger] all[i] != '=' by {
        assert(all[i] == name[i]);
        assert(name.contains(name[i]));
    }
    words::lemma_index_of_is(all, '=', n);
    assert(all.take(n) =~= name);
    assert(all.skip(n + 1) =~= value);
    assert forall|i: int| 0 <= i < n implies #[trigger] name[i] != '=' by {
        assert(name.contains(name[i]));
    }
    words::lemma_index_of_is(name, '=', n);
}

/// Of texts the pairs are kept, in their order.
pub proof fn law_pairs_are_kept(texts: Seq<Seq<char>>, text: Seq<char>)
    ensures
        args::pairs_of(texts.push(text)) == (match args::pair_of(text) {
            Some(p) => args::pairs_of(texts).push(p),
            None => args::pairs_of(texts),
        }),
        args::pairs_of(Seq::empty()) == Seq::<(Seq<char>, Seq<char>)>::empty(),
{
    assert(texts.push(text).drop_last() =~= texts);
}

/// Every option that is not known is remarked on, and what is known is not, unless a pair
/// was asked for and none was given; remarks come in the order of the options.
pub proof fn law_unknown_options_are_remarked_on(
    items: Seq<ItemParts>,
    i: ItemParts,
    known: Seq<Seq<char>>,
    pairs: bool,
)
    ensures
        !known.contains(i.0) ==> args::remarks(items.push(i), known, pairs) == args::remarks(
            items,
            known,
            pairs,
        ).push("ignoring unknown argument "@ + i.0),
        known.contains(i.0) && (i.0 != "--opt"@ || !pairs) ==> args::remarks(
            items.push(i),
            known,
            pairs,
        ) == args::remarks(items, known, pairs),
        known.contains("--opt"@) && i.0 == "--opt"@ && pairs && i.1 is Some ==> args::remarks(
            items.push(i),
            known,
            pairs,
        ) == if i.1->0.contains('=') {
            args::remarks(items, known, pairs)
        } else {
            args::remarks(items, known, pairs).push("--opt expects name=value, got "@ + i.1->0)
        },
        args::remarks(Seq::empty(), known, pairs) == Seq::<Seq<char>>::empty(),
{
    assert(items.push(i).drop_last() =~= items);
    if let Some(v) = i.1 {
        words::lemma_index_of(v, '=');
        let n = words::index_of(v, '=') as int;
        if v.contains('=') {
            let k = v.index_of('=');
            assert(v[k] == '=');
            assert(n <= k);
        } else if n < v.len() {
            assert(v.contains(v[n]));
        }
    }
}

/// A run that is told for how long takes that many seconds, and its own number of them
/// otherwise; the words behind are put together again.
pub proof fn law_runs_are_named(argv: Seq<Seq<char>>)
    requires
        argv.len() >= 1,
    ensures
        ({
            let given = if argv.len() >= 2 {
                number::parsed(argv[1], 18_446_744_073_709_551_615nat)
            } else {
                None
            };
            let for_seconds = |s: int|
                match given {
                    Some(g) => g as int,
                    None => s,
                };
            &&& argv[0] == "--mic-test"@ ==> cli::run_of(argv) == RunView::MicTest(for_seconds(3))
            &&& argv[0] == "--dictate"@ ==> cli::run_of(argv) == RunView::Dictate(for_seconds(5))
            &&& argv[0] == "--overlay-demo"@ ==> (cli::run_of(argv) matches RunView::OverlayDemo(
                s,
                t,
            ) && s == for_seconds(6) && t == words::joined(
                if argv.len() > 2 {
                    argv.skip(2)
                } else {
                    Seq::empty()
                },
                " "@,
            ))
            &&& argv[0] == "--settings-selftest"@ ==> cli::run_of(argv)
                == RunView::SettingsSelftest(words::joined(argv.skip(1), "\n"@))
            &&& argv[0] == "--dictionary"@ ==> cli::run_of(argv) == RunView::Dictionary(
                words::joined(argv.skip(1), " "@),
            )
        }),
{
    reveal_strlit("--mic-test");
    reveal_strlit("--dictate");
    reveal_strlit("--overlay-demo");
    reveal_strlit("--settings");
    reveal_strlit("--settings-selftest");
    reveal_strlit("--dictionary");
    assert("--mic-test"@.len() == 10);
    assert("--dictate"@.len() == 9);
    assert("--overlay-demo"@.len() == 14);
    assert("--settings"@.len() == 10);
    assert("--settings-selftest"@.len() == 19);
    assert("--dictionary"@.len() == 12);
    assert("--mic-test"@[2] == 'm' && "--settings"@[2] == 's');
    if argv.len() <= 2 {
        assert(words::joined(Seq::<Seq<char>>::empty(), " "@) =~= Seq::<char>::empty());
    }
    if argv.len() == 1 {
        assert(argv.skip(1) =~= Seq::<Seq<char>>::empty());
        assert(words::joined(argv.skip(1), " "@) =~= Seq::<char>::empty());
        assert(words::joined(argv.skip(1), "\n"@) =~= Seq::<char>::empty());
    }
}

/// The words that the control socket knows.
pub proof fn law_commands_of_the_socket(cmd: Seq<char>)
    ensures
        cli::event_named(cmd) == Some(HotkeyEvent::Down) <==> cmd == "down"@,
        cli::event_named(cmd) == Some(HotkeyEvent::Up) <==> cmd == "up"@,
        cli::event_named(cmd) == Some(HotkeyEvent::Cancel) <==> cmd == "cancel"@,
        cli::event_named(cmd) == Some(HotkeyEvent::Toggle) <==> cmd == "toggle"@,
        cli::event_named(cmd) == Some(HotkeyEvent::Reload) <==> cmd == "reload"@,
        cli::event_named(cmd) == Some(HotkeyEvent::Report) <==> cmd == "report"@,
        cli::event_named(cmd) == Some(HotkeyEvent::Quit) <==> cmd == "quit"@,
{
    reveal_strlit("down");
    reveal_strlit("up");
    reveal_strlit("cancel");
    reveal_strlit("toggle");
    reveal_strlit("reload");
    reveal_strlit("report");
    reveal_strlit("quit");
    assert("down"@.len() == 4 && "up"@.len() == 2 && "quit"@.len() == 4);
    assert("down"@[0] == 'd' && "quit"@[0] == 'q');
    assert("cancel"@.len() == 6 && "toggle"@.len() == 6 && "reload"@.len() == 6 && "report"@.len()
        == 6);
    assert("cancel"@[0] == 'c' && "toggle"@[0] == 't' && "reload"@[2] == 'l' && "report"@[2]
        == 'p' && "reload"@[0] == 'r' && "report"@[0] == 'r');
}

/// The control socket lies in a directory of its own under the one that the session gives,
/// whether that ends in a slash or not, and otherwise in one that bears the user's number.
pub proof fn law_place_of_the_socket(dir: Seq<char>, uid: u32)
    ensures
        dir.len() > 0 && dir.last() != '/' ==> cli::socket_path(Some(dir), uid) == dir
            + "/flow"@ + "/control.sock"@,
        dir.len() > 0 && dir.last() != '/' ==> cli::socket_path(Some(dir.push('/')), uid)
            == cli::socket_path(Some(dir), uid),
        dir.len() == 0 ==> cli::socket_path(Some(dir), uid) == "/tmp/flow-"@ + number::decimal(
            uid as nat,
        ) + "/control.sock"@,
        cli::socket_path(None, uid) == "/tmp/flow-"@ + number::decimal(uid as nat)
            + "/control.sock"@,
{
    reveal_strlit("/flow");
    reveal_strlit("flow");
    if dir.len() > 0 && dir.last() != '/' {
        assert(dir.push('/') + "flow"@ =~= dir + "/flow"@);
    }
}

} // verus!
