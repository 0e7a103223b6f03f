//! The entries of a directory: which of them are shown, and in which order.

use crate::ftree::{is_shown, should_process_file, Config, ConfigView};
use crate::text::chars_of;
use vstd::prelude::*;
use vstd::seq_lib::to_multiset_build;

verus! {

/// An entry of a directory: its name, and whether it is a directory or a
/// plain file. It may be neither, and a link may be what it leads to.
#[derive(Debug, Clone, PartialEq, Eq)]
pub struct Entry {
    pub name: String,
    pub is_dir: bool,
    pub is_file: bool,
}

/// An `Entry` with its name taken as a sequence of characters.
pub struct EntryView {
    pub name: Seq<char>,
    pub is_dir: bool,
    pub is_file: bool,
}

impl View for Entry {
    type V = EntryView;

    open spec fn view(&self) -> EntryView {
        EntryView { name: self.name@, is_dir: self.is_dir, is_file: self.is_file }
    }
}

/// The entries of a list, with their names taken as sequences of
/// characters.
pub open spec fn entry_views(list: Seq<Entry>) -> Seq<EntryView> {
    list.map_values(|e: Entry| e@)
}

/// Whether `a` comes no later than `b` in the order of the dictionary, each
/// character counting by its number.
pub open spec fn text_le(a: Seq<char>, b: Seq<char>) -> bool
    decreases a.len(),
{
    if a.len() == 0 {
        true
    } else if b.len() == 0 {
        false
    } else if a[0] != b[0] {
        a[0] < b[0]
    } else {
        text_le(a.skip(1), b.skip(1))
    }
}

/// Whether `a` comes no later than `b` in the tree: what is no plain file
/// comes before the plain files, and among equals the name decides.
pub open spec fn entry_le(a: EntryView, b: EntryView) -> bool {
    if a.is_file != b.is_file {
        !a.is_file
    } else {
        text_le(a.name, b.name)
    }
}

/// Of two texts, one comes no later than the other.
pub proof fn lemma_text_le_total(a: Seq<char>, b: Seq<char>)
    ensures
        text_le(a, b) || text_le(b, a),
    decreases a.len(),
{
    if a.len() > 0 && b.len() > 0 && a[0] == b[0] {
        lemma_text_le_total(a.skip(1), b.skip(1));
    }
}

/// The order of texts carries over: from `a` to `b` and from `b` to `c` makes
/// from `a` to `c`.
pub proof fn lemma_text_le_transitive(a: Seq<char>, b: Seq<char>, c: Seq<char>)
    requires
        text_le(a, b),
        text_le(b, c),
    ensures
        text_le(a, c),
    decreases a.len(),
{
    if a.len() > 0 && b.len() > 0 && c.len() > 0 && a[0] == b[0] && b[0] == c[0] {
        lemma_text_le_transitive(a.skip(1), b.skip(1), c.skip(1));
    }
}

/// Two texts of which each comes no later than the other are the same.
pub proof fn lemma_text_le_antisymmetric(a: Seq<char>, b: Seq<char>)
    requires
        text_le(a, b),
        text_le(b, a),
    ensures
        a == b,
    decreases a.len(),
{
    if a.len() > 0 && b.len() > 0 {
        lemma_text_le_antisymmetric(a.skip(1), b.skip(1));
        assert(a == seq![a[0]] + a.skip(1));
        assert(b == seq![b[0]] + b.skip(1));
    } else {
        assert(a.len() == 0 && b.len() == 0);
        assert(a == b);
    }
}

/// Of two entries, one comes no later than the other.
pub proof fn lemma_entry_le_total(a: EntryView, b: EntryView)
    ensures
        entry_le(a, b) || entry_le(b, a),
{
    lemma_text_le_total(a.name, b.name);
}

/// The order of entries carries over.
pub proof fn lemma_entry_le_transitive(a: EntryView, b: EntryView, c: EntryView)
    requires
        entry_le(a, b),
        entry_le(b, c),
    ensures
        entry_le(a, c),
{
    if a.is_file == b.is_file && b.is_file == c.is_file {
        lemma_text_le_transitive(a.name, b.name, c.name);
    }
}

/// Whether `a` comes no later than `b` in the order of the dictionary.
pub fn name_le(a: &[char], b: &[char]) -> (r: bool)
    ensures
        r == text_le(a@, b@),
{
    let mut i: usize = 0;
    assert(a@.skip(0) == a@ && b@.skip(0) == b@);
    while i < a.len() && i < b.len()
        invariant
            i <= a.len(),
            i <= b.len(),
            text_le(a@, b@) == text_le(a@.skip(i as int), b@.skip(i as int)),
        decreases a.len() - i,
    {
        assert(a@.skip(i as int)[0] == a@[i as int]);
        assert(b@.skip(i as int)[0] == b@[i as int]);
        if a[i] != b[i] {
            return a[i] < b[i];
        }
        assert(a@.skip(i as int).skip(1) == a@.skip(i as int + 1));
        assert(b@.skip(i as int).skip(1) == b@.skip(i as int + 1));
        i += 1;
    }
    i == a.len()
}

/// Whether `a` comes no later than `b` in the tree.
pub fn comes_first(a: &Entry, b: &Entry) -> (r: bool)
    ensures
        r == entry_le(a@, b@),
{
    if a.is_file != b.is_file {
        !a.is_file
    } else {
        let x = chars_of(a.name.as_str());
        let y = chars_of(b.name.as_str());
        name_le(x.as_slice(), y.as_slice())
    }
}

/// An ordered list with `x` put in: after the last entry that comes no later
/// than `x`.
pub open spec fn placed(list: Seq<EntryView>, x: EntryView) -> Seq<EntryView>
    decreases list.len(),
{
    if list.len() == 0 {
        seq![x]
    } else if entry_le(list.last(), x) {
        list.push(x)
    } else {
        placed(list.drop_last(), x).push(list.last())
    }
}

/// A list put in order, entry by entry: entries that rank alike stay in the
/// order in which they stood.
pub open spec fn arranged(list: Seq<EntryView>) -> Seq<EntryView>
    decreases list.len(),
{
    if list.len() == 0 {
        Seq::empty()
    } else {
        placed(arranged(list.drop_last()), list.last())
    }
}

/// Whether every entry of `list` comes no later than the one after it.
pub open spec fn in_order(list: Seq<EntryView>) -> bool {
    forall|i: int| 0 <= i && i + 1 < list.len() ==> entry_le(#[trigger] list[i], list[i + 1])
}

/// Putting `x` in at the place `at` is what `placed` does, where every entry
/// from `at` on comes later than `x` and the one before `at` does not.
pub proof fn lemma_placed_at(list: Seq<EntryView>, x: EntryView, at: int)
    requires
        0 <= at <= list.len(),
        at > 0 ==> entry_le(list[at - 1], x),
        forall|j: int| at <= j < list.len() ==> !entry_le(#[trigger] list[j], x),
    ensures
        placed(list, x) == list.insert(at, x),
    decreases list.len() - at,
{
    if list.len() == 0 {
        assert(list.insert(0, x) == seq![x]);
    } else if at == list.len() {
        assert(list.insert(at, x) == list.push(x));
    } else {
        assert(!entry_le(list[list.len() - 1], x));
        let front = list.drop_last();
        assert forall|j: int| at <= j < front.len() implies !entry_le(#[trigger] front[j], x) by {
            assert(front[j] == list[j]);
        }
        lemma_placed_at(front, x, at);
        assert(front.insert(at, x).push(list.last()) == list.insert(at, x));
    }
}

/// An ordered list with one more entry put in is in order.
pub proof fn lemma_placed_in_order(list: Seq<EntryView>, x: EntryView)
    requires
        in_order(list),
    ensures
        in_order(placed(list, x)),
        placed(list, x).len() == list.len() + 1,
        placed(list, x).last() == x || (list.len() > 0 && placed(list, x).last() == list.last()),
    decreases list.len(),
{
    if list.len() == 0 {
    } else if entry_le(list.last(), x) {
        let r = list.push(x);
        assert forall|i: int| 0 <= i && i + 1 < r.len() implies entry_le(
            #[trigger] r[i],
            r[i + 1],
        ) by {
            if i + 1 < list.len() {
                assert(entry_le(list[i], list[i + 1]));
            }
        }
    } else {
        let front = list.drop_last();
        assert forall|i: int| 0 <= i && i + 1 < front.len() implies entry_le(
            #[trigger] front[i],
            front[i + 1],
        ) by {
            assert(entry_le(list[i], list[i + 1]));
        }
        lemma_placed_in_order(front, x);
        let inner = placed(front, x);
        let r = inner.push(list.last());
        lemma_entry_le_total(list.last(), x);
        assert forall|i: int| 0 <= i && i + 1 < r.len() implies entry_le(
            #[trigger] r[i],
            r[i + 1],
        ) by {
            if i + 1 < inner.len() {
                assert(entry_le(inner[i], inner[i + 1]));
            } else {
                if inner.last() == x {
                } else {
                    assert(front.len() > 0 && inner.last() == front.last());
                    assert(entry_le(list[list.len() - 2], list[list.len() - 2 + 1]));
                }
            }
        }
    }
}

/// A list put in order is in order: every entry comes no later than the one
/// after it.
pub proof fn lemma_arranged_in_order(list: Seq<EntryView>)
    ensures
        in_order(arranged(list)),
        arranged(list).len() == list.len(),
    decreases list.len(),
{
    if list.len() > 0 {
        lemma_arranged_in_order(list.drop_last());
        lemma_placed_in_order(arranged(list.drop_last()), list.last());
    }
}

/// In a list in order, every entry comes no later than every entry after
/// it.
pub proof fn lemma_in_order_throughout(list: Seq<EntryView>, i: int, j: int)
    requires
        in_order(list),
        0 <= i <= j < list.len(),
    ensures
        entry_le(list[i], list[j]),
    decreases j - i,
{
    if i == j {
        lemma_entry_le_total(list[i], list[i]);
    } else if i + 1 == j {
        assert(entry_le(list[i], list[i + 1]));
    } else {
        lemma_in_order_throughout(list, i, j - 1);
        assert(entry_le(list[j - 1], list[j - 1 + 1]));
        lemma_entry_le_transitive(list[i], list[j - 1], list[j]);
    }
}

/// Putting an entry in adds it to what the list holds, and nothing else
/// changes.
pub proof fn lemma_placed_holds(list: Seq<EntryView>, x: EntryView)
    ensures
        placed(list, x).to_multiset() == list.to_multiset().insert(x),
    decreases list.len(),
{
    if list.len() == 0 {
        assert(placed(list, x) == list.push(x));
        to_multiset_build(list, x);
    } else if entry_le(list.last(), x) {
        to_multiset_build(list, x);
    } else {
        let front = list.drop_last();
        lemma_placed_holds(front, x);
        to_multiset_build(placed(front, x), list.last());
        to_multiset_build(front, list.last());
        assert(front.push(list.last()) == list);
        assert(placed(list, x).to_multiset() =~= list.to_multiset().insert(x));
    }
}

/// A list put in order holds what it held before, each entry as often.
pub proof fn lemma_arranged_holds(list: Seq<EntryView>)
    ensures
        arranged(list).to_multiset() == list.to_multiset(),
    decreases list.len(),
{
    if list.len() > 0 {
        let front = list.drop_last();
        lemma_arranged_holds(front);
        lemma_placed_holds(arranged(front), list.last());
        to_multiset_build(front, list.last());
        assert(front.push(list.last()) == list);
    } else {
        assert(list == Seq::<EntryView>::empty());
    }
}

/// The entries of `list` that are shown, in the order in which they stand.
pub open spec fn kept(list: Seq<EntryView>, config: ConfigView) -> Seq<EntryView>
    decreases list.len(),
{
    if list.len() == 0 {
        Seq::empty()
    } else if is_shown(list.last().name, config, list.last().is_dir) {
        kept(list.drop_last(), config).push(list.last())
    } else {
        kept(list.drop_last(), config)
    }
}

/// Puts a list of entries in the order of the tree.
pub fn sort_entries(list: Vec<Entry>) -> (r: Vec<Entry>)
    ensures
        entry_views(r@) == arranged(entry_views(list@)),
{
    let mut out: Vec<Entry> = Vec::new();
    let ghost all = entry_views(list@);
    let mut i: usize = 0;
    assert(entry_views(out@) =~= arranged(all.take(0)));
    while i < list.len()
        invariant
            i <= list.len(),
            all == entry_views(list@),
            entry_views(out@) == arranged(all.take(i as int)),
            out.len() == i,
        decreases list.len() - i,
    {
        let x = list[i].clone_entry();
        let mut at: usize = out.len();
        while at > 0 && !comes_first(&out[at - 1], &x)
            invariant
                at <= out.len(),
                forall|j: int| at <= j < out.len() ==> !entry_le(#[trigger] out@[j]@, x@),
            decreases at,
        {
            at -= 1;
        }
        proof {
            let sofar = entry_views(out@);
            assert forall|j: int| at <= j < sofar.len() implies !entry_le(
                #[trigger] sofar[j],
                x@,
            ) by {
                assert(sofar[j] == out@[j]@);
            }
            if at > 0 {
                assert(sofar[at - 1] == out@[at - 1]@);
            }
            lemma_placed_at(sofar, x@, at as int);
            assert(all.take(i as int + 1).drop_last() == all.take(i as int));
            assert(all.take(i as int + 1).last() == list@[i as int]@);
        }
        let ghost before = entry_views(out@);
        out.insert(at, x);
        assert(entry_views(out@) == before.insert(at as int, x@));
        i += 1;
    }
    assert(all.take(list.len() as int) == all);
    out
}

impl Entry {
    /// A copy of this entry.
    pub fn clone_entry(&self) -> (r: Entry)
        ensures
            r@ == self@,
    {
        Entry { name: self.name.clone(), is_dir: self.is_dir, is_file: self.is_file }
    }
}

/// The entries of a directory that are shown, in the order of the tree.
pub fn visible_entries(list: &Vec<Entry>, config: &Config) -> (r: Vec<Entry>)
    ensures
        entry_views(r@) == arranged(kept(entry_views(list@), config@)),
{
    let mut shown: Vec<Entry> = Vec::new();
    let ghost all = entry_views(list@);
    let mut i: usize = 0;
    assert(entry_views(shown@) =~= kept(all.take(0), config@));
    while i < list.len()
        invariant
            i <= list.len(),
            all == entry_views(list@),
            entry_views(shown@) == kept(all.take(i as int), config@),
        decreases list.len() - i,
    {
        proof {
            assert(all.take(i as int + 1).drop_last() == all.take(i as int));
            assert(all.take(i as int + 1).last() == list@[i as int]@);
        }
        if should_process_file(list[i].name.as_str(), config, list[i].is_dir) {
            let ghost before = entry_views(shown@);
            shown.push(list[i].clone_entry());
            assert(entry_views(shown@) == before.push(list@[i as int]@));
        }
        i += 1;
    }
    assert(all.take(list.len() as int) == all);
    sort_entries(shown)
}

} // verus!
