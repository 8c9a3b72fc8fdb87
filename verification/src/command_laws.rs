//! How the harnesses read their command lines.

use vstd::prelude::*;
use crate::args;
use crate::args::ItemParts;
use crate::chars;
use crate::cli;
use crate::cli::{BenchArgs, E2eArgs, WerArgs};
use crate::number;
use crate::target_app;

verus! {

/// A figure is the number that was given, where what was given is one.
pub open spec fn takes(v: Seq<char>, max: nat, figure: nat) -> bool {
    number::parsed(v, max) matches Some(n) ==> figure == n
}

/// No option is read from a command line that does not hold it.
proof fn lemma_only_what_is_there(argv: Seq<Seq<char>>, valued: Seq<Seq<char>>, name: Seq<char>)
    requires
        !argv.contains(name),
    ensures
        forall|i: int|
            0 <= i < args::items_of(argv, valued).len() ==> (#[trigger] args::items_of(
                argv,
                valued,
            )[i]).0 != name,
    decreases argv.len(),
{
    if argv.len() > 0 {
        assert(argv.contains(argv[0]));
        let one = argv.skip(1);
        if one.contains(name) {
            assert(argv[one.index_of(name) + 1] == name);
        }
        lemma_only_what_is_there(one, valued, name);
        if argv.len() > 1 {
            let two = argv.skip(2);
            if two.contains(name) {
                assert(argv[two.index_of(name) + 2] == name);
            }
            lemma_only_what_is_there(two, valued, name);
        }
        let all = args::items_of(argv, valued);
        assert forall|i: int| 0 <= i < all.len() implies (#[trigger] all[i]).0 != name by {
            if i > 0 {
                if valued.contains(argv[0]) {
                    assert(all[i] == args::items_of(argv.skip(2), valued)[i - 1]);
                } else {
                    assert(all[i] == args::items_of(one, valued)[i - 1]);
                }
            }
        }
    }
}

/// What was given first holds where nothing is given later.
proof fn lemma_first_holds(
    items: Seq<ItemParts>,
    name: Seq<char>,
    v: Seq<char>,
    text: Seq<char>,
    max: nat,
    n: nat,
)
    requires
        forall|i: int| 0 <= i < items.len() ==> (#[trigger] items[i]).0 != name,
    ensures
        args::last_text(seq![(name, Some(v))] + items, name, text) == v,
        args::last_number(seq![(name, Some(v))] + items, name, max, n) == (match number::parsed(
            v,
            max,
        ) {
            Some(k) => k,
            None => n,
        }),
        args::all_texts(seq![(name, Some(v))] + items, name) == seq![v],
    decreases items.len(),
{
    let all = seq![(name, Some(v))] + items;
    if items.len() == 0 {
        assert(all.last() == (name, Some(v)));
        assert(all.drop_last() =~= Seq::<ItemParts>::empty());
        assert(args::last_number(all.drop_last(), name, max, n) == n);
        assert(args::all_texts(all.drop_last(), name) =~= Seq::<Seq<char>>::empty());
        assert(args::all_texts(all, name) =~= seq![v]);
    } else {
        let less = items.drop_last();
        assert forall|i: int| 0 <= i < less.len() implies (#[trigger] less[i]).0 != name by {
            assert(less[i] == items[i]);
        }
        lemma_first_holds(less, name, v, text, max, n);
        assert(all.last() == items[items.len() - 1]);
        assert(all.drop_last() =~= seq![(name, Some(v))] + less);
    }
}

/// An option with its value at the head of a command line.
proof fn lemma_head(
    argv: Seq<Seq<char>>,
    opt: Seq<char>,
    v: Seq<char>,
    rest: Seq<Seq<char>>,
    valued: Seq<Seq<char>>,
)
    requires
        argv == seq![opt, v] + rest,
        valued.contains(opt),
        !rest.contains(opt),
    ensures
        args::items_of(argv, valued) == seq![(opt, Some(v))] + args::items_of(rest, valued),
        forall|i: int|
            0 <= i < args::items_of(rest, valued).len() ==> (#[trigger] args::items_of(
                rest,
                valued,
            )[i]).0 != opt,
{
    crate::figure_laws::law_options_are_read_in_turn(opt, v, rest, valued);
    lemma_only_what_is_there(rest, valued, opt);
}

proof fn lemma_bench_options(opt: Seq<char>)
    ensures
        ({
            ||| opt == "--model"@
            ||| opt == "--arch"@
            ||| opt == "--wav"@
            ||| opt == "--chunk-ms"@
            ||| opt == "--cadence-ms"@
            ||| opt == "--hold-secs"@
            ||| opt == "--utterances"@
            ||| opt == "--keyterms"@
            ||| opt == "--opt"@
            ||| opt == "--repeat"@
        }) ==> target_app::fixed(cli::BENCH_VALUED@).contains(opt),
{
    let all = target_app::fixed(cli::BENCH_VALUED@);
    assert(all[0] == "--model"@);
    assert(all[1] == "--arch"@);
    assert(all[2] == "--wav"@);
    assert(all[3] == "--chunk-ms"@);
    assert(all[4] == "--cadence-ms"@);
    assert(all[5] == "--hold-secs"@);
    assert(all[6] == "--utterances"@);
    assert(all[7] == "--keyterms"@);
    assert(all[8] == "--opt"@);
    assert(all[9] == "--repeat"@);
}

/// An option of the latency harness that is given once takes the value behind it.
pub proof fn law_bench_takes_its_options(
    argv: &[String],
    opt: Seq<char>,
    v: Seq<char>,
    rest: Seq<Seq<char>>,
    a: BenchArgs,
)
    requires
        chars::texts(argv@) == seq![opt, v] + rest,
        !rest.contains(opt),
        call_ensures(cli::parse_bench, (argv,), a),
    ensures
        opt == "--model"@ ==> a.model@ == v,
        opt == "--wav"@ ==> a.wav@ == v,
        opt == "--keyterms"@ ==> a.keyterms@ == v,
        opt == "--arch"@ ==> takes(v, u32::MAX as nat, a.arch as nat),
        opt == "--chunk-ms"@ ==> takes(v, u64::MAX as nat, a.chunk_ms as nat),
        opt == "--cadence-ms"@ ==> takes(v, u64::MAX as nat, a.cadence_ms as nat),
        opt == "--utterances"@ ==> takes(v, u64::MAX as nat, a.utterances as nat),
        opt == "--repeat"@ ==> takes(v, u64::MAX as nat, a.repeat as nat),
        opt == "--hold-secs"@ ==> chars::texts(a.hold_secs@) == seq![v],
{
    let all = chars::texts(argv@);
    let valued = target_app::fixed(cli::BENCH_VALUED@);
    lemma_bench_options(opt);
    if valued.contains(opt) {
        lemma_head(all, opt, v, rest, valued);
        let items = args::items_of(rest, valued);
        lemma_first_holds(items, opt, v, "models/small-streaming-en"@, 0, 0);
        lemma_first_holds(items, opt, v, "bench/corpus/two_cities_16k.wav"@, 0, 0);
        lemma_first_holds(items, opt, v, ""@, 0, 0);
        lemma_first_holds(items, opt, v, Seq::empty(), u32::MAX as nat, 4);
        lemma_first_holds(items, opt, v, Seq::empty(), u64::MAX as nat, 40);
        lemma_first_holds(items, opt, v, Seq::empty(), u64::MAX as nat, 200);
        lemma_first_holds(items, opt, v, Seq::empty(), u64::MAX as nat, 8);
        lemma_first_holds(items, opt, v, Seq::empty(), u64::MAX as nat, 1);
    }
}

/// What holds without any option, and what a switch at the head of the line turns.
pub proof fn law_bench_without_options(
    argv: &[String],
    switch: &[String],
    rest: Seq<Seq<char>>,
    opt: Seq<char>,
    a: BenchArgs,
    b: BenchArgs,
)
    requires
        argv@.len() == 0,
        call_ensures(cli::parse_bench, (argv,), a),
        chars::texts(switch@) == seq![opt] + rest,
        call_ensures(cli::parse_bench, (switch,), b),
    ensures
        a.model@ == "models/small-streaming-en"@,
        a.wav@ == "bench/corpus/two_cities_16k.wav"@,
        a.keyterms@ == ""@,
        a.arch == 4,
        a.chunk_ms == 40,
        a.cadence_ms == 200,
        a.utterances == 8,
        a.repeat == 1,
        a.hold_secs@.len() == 0,
        !a.trace,
        opt == "--trace"@ ==> b.trace,
        !a.skip_fragments,
        opt == "--skip-fragments"@ ==> b.skip_fragments,
        !a.force,
        opt == "--force"@ ==> b.force,
        a.complaints@.len() == 0,
{
    let none = chars::texts(argv@);
    assert(none =~= Seq::<Seq<char>>::empty());
    let valued = target_app::fixed(cli::BENCH_VALUED@);
    let items = args::items_of(none, valued);
    assert(items =~= Seq::<ItemParts>::empty());
    assert(chars::texts(a.hold_secs@).len() == 0);
    assert(chars::texts(a.complaints@).len() == 0);
    let all = seq![opt] + rest;
    crate::figure_laws::law_options_are_read_in_turn(opt, opt, rest, valued);
    let read = args::items_of(all, valued);
    lemma_bench_switches(opt);
    if !valued.contains(opt) {
        assert(read[0] == (opt, None::<Seq<char>>));
        assert(args::given(read, opt));
    }
}

proof fn lemma_bench_switches(opt: Seq<char>)
    ensures
        ({
            ||| opt == "--trace"@
            ||| opt == "--skip-fragments"@
            ||| opt == "--force"@
        }) ==> !target_app::fixed(cli::BENCH_VALUED@).contains(opt),
{
    let all = target_app::fixed(cli::BENCH_VALUED@);
    reveal_strlit("--model");
    reveal_strlit("--arch");
    reveal_strlit("--wav");
    reveal_strlit("--chunk-ms");
    reveal_strlit("--cadence-ms");
    reveal_strlit("--hold-secs");
    reveal_strlit("--utterances");
    reveal_strlit("--keyterms");
    reveal_strlit("--opt");
    reveal_strlit("--repeat");
    reveal_strlit("--trace");
    reveal_strlit("--skip-fragments");
    reveal_strlit("--force");
    assert("--model"@.len() == 7);
    assert("--arch"@.len() == 6);
    assert("--wav"@.len() == 5);
    assert("--chunk-ms"@.len() == 10);
    assert("--cadence-ms"@.len() == 12);
    assert("--hold-secs"@.len() == 11);
    assert("--utterances"@.len() == 12);
    assert("--keyterms"@.len() == 10);
    assert("--opt"@.len() == 5);
    assert("--repeat"@.len() == 8);
    assert("--trace"@.len() == 7);
    assert("--skip-fragments"@.len() == 16);
    assert("--force"@.len() == 7);
    assert("--trace"@[2] == 't');
    assert("--model"@[2] == 'm');
    assert("--force"@[2] == 'f');
    assert("--model"@[2] == 'm');
    assert(all[0] == "--model"@);
    assert(all[1] == "--arch"@);
    assert(all[2] == "--wav"@);
    assert(all[3] == "--chunk-ms"@);
    assert(all[4] == "--cadence-ms"@);
    assert(all[5] == "--hold-secs"@);
    assert(all[6] == "--utterances"@);
    assert(all[7] == "--keyterms"@);
    assert(all[8] == "--opt"@);
    assert(all[9] == "--repeat"@);
    if all.contains(opt) {
        let i = all.index_of(opt);
        assert(all[i] == opt);
        assert(0 <= i < 10);
    }
}

proof fn lemma_e2e_options(opt: Seq<char>)
    ensures
        ({
            ||| opt == "--model"@
            ||| opt == "--arch"@
            ||| opt == "--wav"@
            ||| opt == "--chunk-ms"@
            ||| opt == "--cadence-ms"@
            ||| opt == "--holds"@
            ||| opt == "--base-secs"@
            ||| opt == "--phase-step-ms"@
            ||| opt == "--opt"@
        }) ==> target_app::fixed(cli::E2E_VALUED@).contains(opt),
{
    let all = target_app::fixed(cli::E2E_VALUED@);
    assert(all[0] == "--model"@);
    assert(all[1] == "--arch"@);
    assert(all[2] == "--wav"@);
    assert(all[3] == "--chunk-ms"@);
    assert(all[4] == "--cadence-ms"@);
    assert(all[5] == "--holds"@);
    assert(all[6] == "--base-secs"@);
    assert(all[7] == "--phase-step-ms"@);
    assert(all[8] == "--opt"@);
}

/// An option of the end-to-end harness that is given once takes the value behind it.
pub proof fn law_e2e_takes_its_options(
    argv: &[String],
    opt: Seq<char>,
    v: Seq<char>,
    rest: Seq<Seq<char>>,
    a: E2eArgs,
)
    requires
        chars::texts(argv@) == seq![opt, v] + rest,
        !rest.contains(opt),
        call_ensures(cli::parse_e2e, (argv,), a),
    ensures
        opt == "--model"@ ==> a.model@ == v,
        opt == "--wav"@ ==> a.wav@ == v,
        opt == "--arch"@ ==> takes(v, u32::MAX as nat, a.arch as nat),
        opt == "--chunk-ms"@ ==> takes(v, u64::MAX as nat, a.chunk_ms as nat),
        opt == "--cadence-ms"@ ==> takes(v, u64::MAX as nat, a.cadence_ms as nat),
        opt == "--holds"@ ==> takes(v, u64::MAX as nat, a.holds as nat),
        opt == "--phase-step-ms"@ ==> takes(v, u64::MAX as nat, a.phase_step_ms as nat),
        opt == "--base-secs"@ ==> chars::texts(a.base_secs@) == seq![v],
{
    let all = chars::texts(argv@);
    let valued = target_app::fixed(cli::E2E_VALUED@);
    lemma_e2e_options(opt);
    if valued.contains(opt) {
        lemma_head(all, opt, v, rest, valued);
        let items = args::items_of(rest, valued);
        lemma_first_holds(items, opt, v, "models/small-streaming-en"@, 0, 0);
        lemma_first_holds(items, opt, v, "bench/corpus/two_cities_16k.wav"@, 0, 0);
        lemma_first_holds(items, opt, v, Seq::empty(), u32::MAX as nat, 4);
        lemma_first_holds(items, opt, v, Seq::empty(), u64::MAX as nat, 20);
        lemma_first_holds(items, opt, v, Seq::empty(), u64::MAX as nat, 100);
        lemma_first_holds(items, opt, v, Seq::empty(), u64::MAX as nat, 24);
        lemma_first_holds(items, opt, v, Seq::empty(), u64::MAX as nat, 37);
    }
}

/// What holds without any option, and what a switch at the head of the line turns.
pub proof fn law_e2e_without_options(
    argv: &[String],
    switch: &[String],
    rest: Seq<Seq<char>>,
    opt: Seq<char>,
    a: E2eArgs,
    b: E2eArgs,
)
    requires
        argv@.len() == 0,
        call_ensures(cli::parse_e2e, (argv,), a),
        chars::texts(switch@) == seq![opt] + rest,
        call_ensures(cli::parse_e2e, (switch,), b),
    ensures
        a.model@ == "models/small-streaming-en"@,
        a.wav@ == "bench/corpus/two_cities_16k.wav"@,
        a.arch == 4,
        a.chunk_ms == 20,
        a.cadence_ms == 100,
        a.holds == 24,
        a.phase_step_ms == 37,
        a.base_secs@.len() == 0,
        a.force,
        opt == "--no-force"@ ==> !b.force,
        !a.verbose,
        opt == "--verbose"@ ==> b.verbose,
        a.complaints@.len() == 0,
{
    let none = chars::texts(argv@);
    assert(none =~= Seq::<Seq<char>>::empty());
    let valued = target_app::fixed(cli::E2E_VALUED@);
    let items = args::items_of(none, valued);
    assert(items =~= Seq::<ItemParts>::empty());
    assert(chars::texts(a.base_secs@).len() == 0);
    assert(chars::texts(a.complaints@).len() == 0);
    let all = seq![opt] + rest;
    crate::figure_laws::law_options_are_read_in_turn(opt, opt, rest, valued);
    let read = args::items_of(all, valued);
    lemma_e2e_switches(opt);
    if !valued.contains(opt) {
        assert(read[0] == (opt, None::<Seq<char>>));
        assert(args::given(read, opt));
    }
}

proof fn lemma_e2e_switches(opt: Seq<char>)
    ensures
        ({
            ||| opt == "--no-force"@
            ||| opt == "--verbose"@
        }) ==> !target_app::fixed(cli::E2E_VALUED@).contains(opt),
{
    let all = target_app::fixed(cli::E2E_VALUED@);
    reveal_strlit("--model");
    reveal_strlit("--arch");
    reveal_strlit("--wav");
    reveal_strlit("--chunk-ms");
    reveal_strlit("--cadence-ms");
    reveal_strlit("--holds");
    reveal_strlit("--base-secs");
    reveal_strlit("--phase-step-ms");
    reveal_strlit("--opt");
    reveal_strlit("--no-force");
    reveal_strlit("--verbose");
    assert("--model"@.len() == 7);
    assert("--arch"@.len() == 6);
    assert("--wav"@.len() == 5);
    assert("--chunk-ms"@.len() == 10);
    assert("--cadence-ms"@.len() == 12);
    assert("--holds"@.len() == 7);
    assert("--base-secs"@.len() == 11);
    assert("--phase-step-ms"@.len() == 15);
    assert("--opt"@.len() == 5);
    assert("--no-force"@.len() == 10);
    assert("--verbose"@.len() == 9);
    assert("--no-force"@[2] == 'n');
    assert("--chunk-ms"@[2] == 'c');
    assert(all[0] == "--model"@);
    assert(all[1] == "--arch"@);
    assert(all[2] == "--wav"@);
    assert(all[3] == "--chunk-ms"@);
    assert(all[4] == "--cadence-ms"@);
    assert(all[5] == "--holds"@);
    assert(all[6] == "--base-secs"@);
    assert(all[7] == "--phase-step-ms"@);
    assert(all[8] == "--opt"@);
    if all.contains(opt) {
        let i = all.index_of(opt);
        assert(all[i] == opt);
        assert(0 <= i < 9);
    }
}

proof fn lemma_wer_options(opt: Seq<char>)
    ensures
        ({
            ||| opt == "--model"@
            ||| opt == "--arch"@
            ||| opt == "--wav"@
            ||| opt == "--ref"@
            ||| opt == "--cadence-ms"@
            ||| opt == "--chunk-ms"@
        }) ==> target_app::fixed(cli::WER_VALUED@).contains(opt),
{
    let all = target_app::fixed(cli::WER_VALUED@);
    assert(all[0] == "--model"@);
    assert(all[1] == "--arch"@);
    assert(all[2] == "--wav"@);
    assert(all[3] == "--ref"@);
    assert(all[4] == "--cadence-ms"@);
    assert(all[5] == "--chunk-ms"@);
}

/// An option of the scorer that is given once takes the value behind it.
pub proof fn law_wer_takes_its_options(
    argv: &[String],
    opt: Seq<char>,
    v: Seq<char>,
    rest: Seq<Seq<char>>,
    a: WerArgs,
)
    requires
        chars::texts(argv@) == seq![opt, v] + rest,
        !rest.contains(opt),
        call_ensures(cli::parse_wer, (argv,), a),
    ensures
        opt == "--model"@ ==> a.model@ == v,
        opt == "--wav"@ ==> a.wav@ == v,
        opt == "--ref"@ ==> a.reference@ == v,
        opt == "--arch"@ ==> takes(v, u32::MAX as nat, a.arch as nat),
        opt == "--chunk-ms"@ ==> takes(v, u64::MAX as nat, a.chunk_ms as nat),
        opt == "--cadence-ms"@ ==> takes(v, u64::MAX as nat, a.cadence_ms as nat),
{
    let all = chars::texts(argv@);
    let valued = target_app::fixed(cli::WER_VALUED@);
    lemma_wer_options(opt);
    if valued.contains(opt) {
        lemma_head(all, opt, v, rest, valued);
        let items = args::items_of(rest, valued);
        lemma_first_holds(items, opt, v, "models/small-streaming-en"@, 0, 0);
        lemma_first_holds(items, opt, v, "bench/corpus/two_cities_16k.wav"@, 0, 0);
        lemma_first_holds(items, opt, v, "bench/corpus/two_cities.ref.txt"@, 0, 0);
        lemma_first_holds(items, opt, v, Seq::empty(), u32::MAX as nat, 4);
        lemma_first_holds(items, opt, v, Seq::empty(), u64::MAX as nat, 20);
        lemma_first_holds(items, opt, v, Seq::empty(), u64::MAX as nat, 250);
    }
}

/// What holds without any option, and what a switch at the head of the line turns.
pub proof fn law_wer_without_options(
    argv: &[String],
    switch: &[String],
    rest: Seq<Seq<char>>,
    opt: Seq<char>,
    a: WerArgs,
    b: WerArgs,
)
    requires
        argv@.len() == 0,
        call_ensures(cli::parse_wer, (argv,), a),
        chars::texts(switch@) == seq![opt] + rest,
        call_ensures(cli::parse_wer, (switch,), b),
    ensures
        a.model@ == "models/small-streaming-en"@,
        a.wav@ == "bench/corpus/two_cities_16k.wav"@,
        a.reference@ == "bench/corpus/two_cities.ref.txt"@,
        a.arch == 4,
        a.chunk_ms == 20,
        a.cadence_ms == 250,
        !a.show,
        opt == "--show"@ ==> b.show,
        a.complaints@.len() == 0,
{
    let none = chars::texts(argv@);
    assert(none =~= Seq::<Seq<char>>::empty());
    let valued = target_app::fixed(cli::WER_VALUED@);
    let items = args::items_of(none, valued);
    assert(items =~= Seq::<ItemParts>::empty());
    assert(chars::texts(a.complaints@).len() == 0);
    let all = seq![opt] + rest;
    crate::figure_laws::law_options_are_read_in_turn(opt, opt, rest, valued);
    let read = args::items_of(all, valued);
    lemma_wer_switches(opt);
    if !valued.contains(opt) {
        assert(read[0] == (opt, None::<Seq<char>>));
        assert(args::given(read, opt));
    }
}

proof fn lemma_wer_switches(opt: Seq<char>)
    ensures
        ({
            ||| opt == "--show"@
        }) ==> !target_app::fixed(cli::WER_VALUED@).contains(opt),
{
    let all = target_app::fixed(cli::WER_VALUED@);
    reveal_strlit("--model");
    reveal_strlit("--arch");
    reveal_strlit("--wav");
    reveal_strlit("--ref");
    reveal_strlit("--cadence-ms");
    reveal_strlit("--chunk-ms");
    reveal_strlit("--show");
    assert("--model"@.len() == 7);
    assert("--arch"@.len() == 6);
    assert("--wav"@.len() == 5);
    assert("--ref"@.len() == 5);
    assert("--cadence-ms"@.len() == 12);
    assert("--chunk-ms"@.len() == 10);
    assert("--show"@.len() == 6);
    assert("--show"@[2] == 's');
    assert("--arch"@[2] == 'a');
    assert(all[0] == "--model"@);
    assert(all[1] == "--arch"@);
    assert(all[2] == "--wav"@);
    assert(all[3] == "--ref"@);
    assert(all[4] == "--cadence-ms"@);
    assert(all[5] == "--chunk-ms"@);
    if all.contains(opt) {
        let i = all.index_of(opt);
        assert(all[i] == opt);
        assert(0 <= i < 6);
    }
}

} // verus!
