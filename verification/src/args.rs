//! Command lines: a row of options, some with a value behind them.

use vstd::prelude::*;
use crate::chars;
use crate::chars::{push_str, str_eq};
use crate::number;
use crate::number::parse_up_to;
use crate::target_app;

verus! {

/// One option as it was given, with the value that stood behind it.
pub struct Item {
    pub name: String,
    pub value: Option<String>,
}

/// An option as its parts.
pub type ItemParts = (Seq<char>, Option<Seq<char>>);

/// The parts of one option.
pub open spec fn parts_of(i: Item) -> ItemParts {
    (
        i.name@,
        match i.value {
            Some(v) => Some(v@),
            None => None,
        },
    )
}

/// The parts of options.
pub open spec fn item_parts(items: Seq<Item>) -> Seq<ItemParts> {
    items.map_values(|i: Item| parts_of(i))
}

/// A command line as options: an option that takes a value takes the argument
/// behind it, or an empty one where there is none.
pub open spec fn items_of(argv: Seq<Seq<char>>, valued: Seq<Seq<char>>) -> Seq<ItemParts>
    decreases argv.len(),
{
    if argv.len() == 0 {
        seq![]
    } else if !valued.contains(argv[0]) {
        seq![(argv[0], None::<Seq<char>>)] + items_of(argv.skip(1), valued)
    } else if argv.len() == 1 {
        seq![(argv[0], Some(Seq::<char>::empty()))]
    } else {
        seq![(argv[0], Some(argv[1]))] + items_of(argv.skip(2), valued)
    }
}

/// What was last given for an option.
pub open spec fn last_text(
    items: Seq<ItemParts>,
    name: Seq<char>,
    default: Seq<char>,
) -> Seq<char>
    decreases items.len(),
{
    if items.len() == 0 {
        default
    } else if items.last().0 == name && items.last().1 is Some {
        items.last().1->0
    } else {
        last_text(items.drop_last(), name, default)
    }
}

/// The last number that was given for an option. What is no number, or too large
/// a one, is passed over.
pub open spec fn last_number(
    items: Seq<ItemParts>,
    name: Seq<char>,
    max: nat,
    default: nat,
) -> nat
    decreases items.len(),
{
    if items.len() == 0 {
        default
    } else if items.last().0 == name && items.last().1 is Some && number::parsed(
        items.last().1->0,
        max,
    ) is Some {
        number::parsed(items.last().1->0, max)->0
    } else {
        last_number(items.drop_last(), name, max, default)
    }
}

/// Everything that was given for an option, in order.
pub open spec fn all_texts(items: Seq<ItemParts>, name: Seq<char>) -> Seq<Seq<char>>
    decreases items.len(),
{
    if items.len() == 0 {
        seq![]
    } else {
        let before = all_texts(items.drop_last(), name);
        if items.last().0 == name && items.last().1 is Some {
            before.push(items.last().1->0)
        } else {
            before
        }
    }
}

/// An option was given.
pub open spec fn given(items: Seq<ItemParts>, name: Seq<char>) -> bool {
    exists|i: int| 0 <= i < items.len() && (#[trigger] items[i]).0 == name
}

/// What is said of one option, if anything is: that it is none, or, where pairs are
/// asked for, that what was given for the option of pairs is no pair.
pub open spec fn remark(i: ItemParts, known: Seq<Seq<char>>, pairs: bool) -> Option<Seq<char>> {
    if !known.contains(i.0) {
        Some("ignoring unknown argument "@ + i.0)
    } else if pairs && i.0 == "--opt"@ && i.1 is Some && pair_of(i.1->0) is None {
        Some("--opt expects name=value, got "@ + i.1->0)
    } else {
        None
    }
}

/// What is said of options, in the order in which they were given.
pub open spec fn remarks(items: Seq<ItemParts>, known: Seq<Seq<char>>, pairs: bool) -> Seq<
    Seq<char>,
>
    decreases items.len(),
{
    if items.len() == 0 {
        seq![]
    } else {
        let before = remarks(items.drop_last(), known, pairs);
        match remark(items.last(), known, pairs) {
            Some(r) => before.push(r),
            None => before,
        }
    }
}

/// Whether a name stands in a list.
pub fn is_among(names: &[&'static str], s: &str) -> (r: bool)
    ensures
        r == target_app::fixed(names@).contains(s@),
{
    let ghost all = target_app::fixed(names@);
    let mut i: usize = 0;
    while i < names.len()
        invariant
            i <= names@.len(),
            all == target_app::fixed(names@),
            forall|k: int| 0 <= k < i ==> #[trigger] all[k] != s@,
        decreases names@.len() - i,
    {
        if str_eq(names[i], s) {
            assert(all[i as int] == s@);
            return true;
        }
        i += 1;
    }
    false
}

fn push_item(out: &mut Vec<Item>, i: Item)
    ensures
        item_parts(final(out)@) == item_parts(old(out)@).push(parts_of(i)),
{
    out.push(i);
    assert(item_parts(out@) =~= item_parts(old(out)@).push(parts_of(i)));
}

/// A command line as options.
pub fn split_args(argv: &[String], valued: &[&'static str]) -> (out: Vec<Item>)
    ensures
        item_parts(out@) == items_of(chars::texts(argv@), target_app::fixed(valued@)),
{
    let ghost all = chars::texts(argv@);
    let ghost names = target_app::fixed(valued@);
    let n: usize = argv.len();
    let mut out: Vec<Item> = Vec::new();
    let mut i: usize = 0;
    assert(all.skip(0) =~= all);
    assert(item_parts(out@) + items_of(all, names) =~= items_of(all, names));
    while i < n
        invariant
            i <= n == argv@.len(),
            all == chars::texts(argv@),
            names == target_app::fixed(valued@),
            item_parts(out@) + items_of(all.skip(i as int), names) == items_of(all, names),
        decreases n - i,
    {
        let ghost rest = all.skip(i as int);
        let ghost before = item_parts(out@);
        let name: String = argv[i].clone();
        assert(rest[0] == name@);
        if !is_among(valued, argv[i].as_str()) {
            push_item(&mut out, Item { name, value: None });
            i += 1;
            assert(rest.skip(1) =~= all.skip(i as int));
            assert(before + (seq![(rest[0], None::<Seq<char>>)] + items_of(rest.skip(1), names))
                =~= item_parts(out@) + items_of(rest.skip(1), names));
        } else if n - i == 1 {
            push_item(&mut out, Item { name, value: Some(String::new()) });
            i += 1;
            assert(all.skip(i as int) =~= seq![]);
            assert(before + seq![(rest[0], Some(Seq::<char>::empty()))] =~= item_parts(out@)
                + items_of(all.skip(i as int), names));
        } else {
            let value: String = argv[i + 1].clone();
            assert(rest[1] == value@);
            push_item(&mut out, Item { name, value: Some(value) });
            i += 2;
            assert(rest.skip(2) =~= all.skip(i as int));
            assert(before + (seq![(rest[0], Some(rest[1]))] + items_of(rest.skip(2), names))
                =~= item_parts(out@) + items_of(rest.skip(2), names));
        }
    }
    assert(all.skip(n as int) =~= seq![]);
    assert(item_parts(out@) + items_of(all.skip(n as int), names) =~= item_parts(out@));
    out
}

/// What was last given for an option.
pub fn text_of(items: &[Item], name: &str, default: &str) -> (s: String)
    ensures
        s@ == last_text(item_parts(items@), name@, default@),
{
    let ghost all = item_parts(items@);
    let mut i: usize = items.len();
    assert(all.take(i as int) =~= all);
    while i > 0
        invariant
            i <= items@.len(),
            all == item_parts(items@),
            last_text(all, name@, default@) == last_text(all.take(i as int), name@, default@),
        decreases i,
    {
        assert(all.take(i as int).last() == all[i - 1]);
        assert(all.take(i as int).drop_last() =~= all.take(i - 1));
        assert(all[i - 1] == parts_of(items@[i - 1]));
        if str_eq(items[i - 1].name.as_str(), name) {
            if let Some(v) = &items[i - 1].value {
                return v.clone();
            }
        }
        i -= 1;
    }
    default.to_owned()
}

/// The last number that was given for an option.
pub fn number_of(items: &[Item], name: &str, max: u64, default: u64) -> (n: u64)
    ensures
        n == last_number(item_parts(items@), name@, max as nat, default as nat),
{
    let ghost all = item_parts(items@);
    let mut i: usize = items.len();
    assert(all.take(i as int) =~= all);
    while i > 0
        invariant
            i <= items@.len(),
            all == item_parts(items@),
            last_number(all, name@, max as nat, default as nat) == last_number(
                all.take(i as int),
                name@,
                max as nat,
                default as nat,
            ),
        decreases i,
    {
        assert(all.take(i as int).last() == all[i - 1]);
        assert(all.take(i as int).drop_last() =~= all.take(i - 1));
        assert(all[i - 1] == parts_of(items@[i - 1]));
        if str_eq(items[i - 1].name.as_str(), name) {
            if let Some(v) = &items[i - 1].value {
                if let Some(n) = parse_up_to(v.as_str(), max) {
                    return n;
                }
            }
        }
        i -= 1;
    }
    default
}

fn push_text(out: &mut Vec<String>, s: String)
    ensures
        chars::texts(final(out)@) == chars::texts(old(out)@).push(s@),
{
    out.push(s);
    assert(chars::texts(out@) =~= chars::texts(old(out)@).push(s@));
}

/// Everything that was given for an option, in order.
pub fn texts_of(items: &[Item], name: &str) -> (out: Vec<String>)
    ensures
        chars::texts(out@) == all_texts(item_parts(items@), name@),
{
    let ghost all = item_parts(items@);
    let mut out: Vec<String> = Vec::new();
    let mut i: usize = 0;
    assert(chars::texts(out@) =~= all_texts(all.take(0), name@));
    while i < items.len()
        invariant
            i <= items@.len(),
            all == item_parts(items@),
            chars::texts(out@) == all_texts(all.take(i as int), name@),
        decreases items@.len() - i,
    {
        assert(all.take(i + 1).last() == all[i as int]);
        assert(all.take(i + 1).drop_last() =~= all.take(i as int));
        assert(all[i as int] == parts_of(items@[i as int]));
        if str_eq(items[i].name.as_str(), name) {
            if let Some(v) = &items[i].value {
                push_text(&mut out, v.clone());
            }
        }
        i += 1;
    }
    assert(all.take(i as int) =~= all);
    out
}

/// Whether an option was given.
pub fn is_given(items: &[Item], name: &str) -> (r: bool)
    ensures
        r == given(item_parts(items@), name@),
{
    let ghost all = item_parts(items@);
    let mut i: usize = 0;
    while i < items.len()
        invariant
            i <= items@.len(),
            all == item_parts(items@),
            forall|k: int| 0 <= k < i ==> (#[trigger] all[k]).0 != name@,
        decreases items@.len() - i,
    {
        if str_eq(items[i].name.as_str(), name) {
            assert(all[i as int].0 == name@);
            return true;
        }
        i += 1;
    }
    false
}

fn remark_of(i: &Item, known: &[&'static str], pairs: bool) -> (r: Option<String>)
    ensures
        match r {
            Some(s) => remark(parts_of(*i), target_app::fixed(known@), pairs) == Some(s@),
            None => remark(parts_of(*i), target_app::fixed(known@), pairs) is None,
        },
{
    if !is_among(known, i.name.as_str()) {
        let mut s: String = "ignoring unknown argument ".to_owned();
        push_str(&mut s, i.name.as_str());
        return Some(s);
    }
    if pairs && str_eq(i.name.as_str(), "--opt") {
        if let Some(v) = &i.value {
            if split_pair(v.as_str()).is_none() {
                let mut s: String = "--opt expects name=value, got ".to_owned();
                push_str(&mut s, v.as_str());
                return Some(s);
            }
        }
    }
    None
}

/// What is said of options, in the order in which they were given.
pub fn remarks_of(items: &[Item], known: &[&'static str], pairs: bool) -> (out: Vec<String>)
    ensures
        chars::texts(out@) == remarks(item_parts(items@), target_app::fixed(known@), pairs),
{
    let ghost all = item_parts(items@);
    let ghost names = target_app::fixed(known@);
    let mut out: Vec<String> = Vec::new();
    let mut i: usize = 0;
    assert(chars::texts(out@) =~= remarks(all.take(0), names, pairs));
    while i < items.len()
        invariant
            i <= items@.len(),
            all == item_parts(items@),
            names == target_app::fixed(known@),
            chars::texts(out@) == remarks(all.take(i as int), names, pairs),
        decreases items@.len() - i,
    {
        assert(all.take(i + 1).last() == all[i as int]);
        assert(all.take(i + 1).drop_last() =~= all.take(i as int));
        assert(all[i as int] == parts_of(items@[i as int]));
        if let Some(s) = remark_of(&items[i], known, pairs) {
            push_text(&mut out, s);
        }
        i += 1;
    }
    assert(all.take(i as int) =~= all);
    out
}

// ---- name=value -------------------------------------------------------------------

/// A text cut at its first equals sign.
pub open spec fn pair_of(s: Seq<char>) -> Option<(Seq<char>, Seq<char>)> {
    let n = crate::words::index_of(s, '=') as int;
    if n < s.len() {
        Some((s.take(n), s.skip(n + 1)))
    } else {
        None
    }
}

/// The pairs among texts, in order.
pub open spec fn pairs_of(texts: Seq<Seq<char>>) -> Seq<(Seq<char>, Seq<char>)>
    decreases texts.len(),
{
    if texts.len() == 0 {
        seq![]
    } else {
        let before = pairs_of(texts.drop_last());
        match pair_of(texts.last()) {
            Some(p) => before.push(p),
            None => before,
        }
    }
}

/// A text cut at its first equals sign.
pub fn split_pair(s: &str) -> (r: Option<(String, String)>)
    ensures
        match r {
            Some((k, v)) => pair_of(s@) == Some((k@, v@)),
            None => pair_of(s@) is None,
        },
{
    let cs: Vec<char> = chars::to_chars(s);
    let n: usize = cs.len();
    let mut i: usize = 0;
    while i < n && cs[i] != '='
        invariant
            i <= n == cs@.len(),
            forall|k: int| 0 <= k < i ==> #[trigger] cs@[k] != '=',
        decreases n - i,
    {
        i += 1;
    }
    proof {
        crate::words::lemma_index_of_is(cs@, '=', i as int);
    }
    if i == n {
        return None;
    }
    let k: Vec<char> = crate::words::copy_range(cs.as_slice(), 0, i);
    let v: Vec<char> = crate::words::copy_range(cs.as_slice(), i + 1, n);
    assert(cs@.subrange(0, i as int) =~= cs@.take(i as int));
    assert(cs@.subrange(i + 1, n as int) =~= cs@.skip(i + 1));
    Some((chars::from_chars(k.as_slice()), chars::from_chars(v.as_slice())))
}

/// The pairs among texts, in order.
pub fn split_pairs(texts: &[String]) -> (pairs: Vec<(String, String)>)
    ensures
        crate::dictionary::pairs(pairs@) == pairs_of(chars::texts(texts@)),
{
    let ghost all = chars::texts(texts@);
    let mut pairs: Vec<(String, String)> = Vec::new();
    let mut i: usize = 0;
    assert(crate::dictionary::pairs(pairs@) =~= pairs_of(all.take(0)));
    while i < texts.len()
        invariant
            i <= texts@.len(),
            all == chars::texts(texts@),
            crate::dictionary::pairs(pairs@) == pairs_of(all.take(i as int)),
        decreases texts@.len() - i,
    {
        assert(all.take(i + 1).last() == all[i as int]);
        assert(all.take(i + 1).drop_last() =~= all.take(i as int));
        if let Some(p) = split_pair(texts[i].as_str()) {
            let ghost before = crate::dictionary::pairs(pairs@);
            let ghost here = (p.0@, p.1@);
            pairs.push(p);
            assert(crate::dictionary::pairs(pairs@) =~= before.push(here));
        }
        i += 1;
    }
    assert(all.take(i as int) =~= all);
    pairs
}

} // verus!
