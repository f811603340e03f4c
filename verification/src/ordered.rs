//! Names in the order in which they were first seen, each kept once.

use indexmap::IndexSet;
use vstd::prelude::*;
use vstd::seq_lib::lemma_seq_contains_after_push;

verus! {

/// `indexmap::IndexSet`, a set that keeps its items in the order of
/// insertion. Of a set of texts, [`set_items`] says what it holds.
#[verifier::external_type_specification]
#[verifier::external_body]
#[verifier::reject_recursive_types(T)]
#[verifier::reject_recursive_types(S)]
pub struct ExIndexSet<T, S>(IndexSet<T, S>);

/// The items of a set, each by its characters, in the order of insertion.
pub uninterp spec fn set_items(set: IndexSet<String>) -> Seq<Seq<char>>;

/// `items` with `item` at the end, unless it is among them already.
pub open spec fn with_item(items: Seq<Seq<char>>, item: Seq<char>) -> Seq<Seq<char>> {
    if items.contains(item) {
        items
    } else {
        items.push(item)
    }
}

/// `items` after each of `names` was offered in turn: a name that is new
/// goes to the end, one that is there already changes nothing.
pub open spec fn absorb(items: Seq<Seq<char>>, names: Seq<Seq<char>>) -> Seq<Seq<char>>
    decreases names.len(),
{
    if names.len() == 0 {
        items
    } else {
        with_item(absorb(items, names.drop_last()), names.last())
    }
}

/// `names` with only the first of equal names kept, in the same order.
pub open spec fn first_seen(names: Seq<Seq<char>>) -> Seq<Seq<char>> {
    absorb(Seq::empty(), names)
}

/// The characters of each text.
pub open spec fn texts(list: Seq<String>) -> Seq<Seq<char>> {
    list.map_values(|text: String| text@)
}

/// `IndexSet::new`: a set without items.
#[verifier::external_body]
pub(crate) fn empty_set() -> (set: IndexSet<String>)
    ensures
        set_items(set) == Seq::<Seq<char>>::empty(),
{
    IndexSet::new()
}

/// `IndexSet::insert`: an item that the set already holds leaves the set as
/// it was and gives `false`; a new one goes to the end and gives `true`.
#[verifier::external_body]
pub(crate) fn insert_item(set: &mut IndexSet<String>, item: String) -> (added: bool)
    ensures
        added == !set_items(*old(set)).contains(item@),
        set_items(*final(set)) == with_item(set_items(*old(set)), item@),
{
    set.insert(item)
}

/// `IndexSet::is_empty`: whether the set holds no item.
#[verifier::external_body]
pub(crate) fn has_no_items(set: &IndexSet<String>) -> (none: bool)
    ensures
        none == (set_items(*set).len() == 0),
{
    set.is_empty()
}

/// `IndexSet::into_iter`: the items in the order of insertion.
#[verifier::external_body]
pub(crate) fn into_items(set: IndexSet<String>) -> (items: Vec<String>)
    ensures
        texts(items@) == set_items(set),
{
    set.into_iter().collect()
}

/// Offers each of `names` to the set, in their order.
pub(crate) fn insert_all(set: &mut IndexSet<String>, names: &Vec<String>)
    ensures
        set_items(*final(set)) == absorb(set_items(*old(set)), texts(names@)),
{
    let mut i: usize = 0;
    while i < names.len()
        invariant
            i <= names.len(),
            set_items(*set) == absorb(set_items(*old(set)), texts(names@).take(i as int)),
        decreases names.len() - i,
    {
        let name = names[i].clone();
        insert_item(set, name);
        proof {
            let all = texts(names@);
            assert(all.take(i + 1).drop_last() == all.take(i as int));
            assert(all.take(i + 1).last() == names@[i as int]@);
        }
        i += 1;
    }
    proof {
        assert(texts(names@).take(i as int) == texts(names@));
    }
}

/// Offering `first` and then `second` is offering the two in one row.
pub proof fn lemma_absorb_concat(
    items: Seq<Seq<char>>,
    first: Seq<Seq<char>>,
    second: Seq<Seq<char>>,
)
    ensures
        absorb(items, first + second) == absorb(absorb(items, first), second),
    decreases second.len(),
{
    if second.len() == 0 {
        assert(first + second == first);
    } else {
        lemma_absorb_concat(items, first, second.drop_last());
        assert((first + second).drop_last() == first + second.drop_last());
        assert((first + second).last() == second.last());
    }
}

/// What was there stays where it was, and a name is there afterwards exactly
/// when it was there before or was offered.
pub proof fn lemma_absorb_keeps(items: Seq<Seq<char>>, names: Seq<Seq<char>>)
    ensures
        items.is_prefix_of(absorb(items, names)),
        forall|name: Seq<char>|
            absorb(items, names).contains(name) <==> items.contains(name) || names.contains(
                name,
            ),
        items.no_duplicates() ==> absorb(items, names).no_duplicates(),
    decreases names.len(),
{
    if names.len() > 0 {
        let before = absorb(items, names.drop_last());
        let last = names.last();
        lemma_absorb_keeps(items, names.drop_last());
        assert(names == names.drop_last().push(last));
        assert forall|name: Seq<char>|
            absorb(items, names).contains(name) <==> items.contains(name) || names.contains(
                name,
            ) by {
            lemma_seq_contains_after_push(before, last, name);
            lemma_seq_contains_after_push(names.drop_last(), last, name);
        }
        if !before.contains(last) {
            assert(items == before.push(last).subrange(0, items.len() as int));
            if items.no_duplicates() {
                assert forall|i: int, j: int|
                    0 <= i < before.len() + 1 && 0 <= j < before.len() + 1 && i != j implies before.push(
                    last,
                )[i] != before.push(last)[j] by {
                    if i < before.len() {
                        assert(before.contains(before[i]));
                    }
                    if j < before.len() {
                        assert(before.contains(before[j]));
                    }
                }
            }
        }
    }
}

/// Keeping the first of equal names keeps the order of first appearance:
/// where one name stands before the first appearance of another, it also
/// stands before it among the names kept. It does not matter where else
/// either name appears.
pub proof fn first_seen_keeps_order(names: Seq<Seq<char>>, i: int, j: int)
    requires
        0 <= i < j < names.len(),
        forall|k: int| 0 <= k < j ==> names[k] != names[j],
    ensures
        exists|x: int, y: int|
            0 <= x < y < first_seen(names).len() && first_seen(names)[x] == names[i]
                && first_seen(names)[y] == names[j],
{
    let head = names.take(j);
    let upto = names.take(j + 1);
    let tail = names.skip(j + 1);
    let kept = first_seen(head);
    lemma_absorb_keeps(Seq::empty(), head);
    assert(head[i] == names[i]);
    assert(head.contains(names[i]));
    assert(kept.contains(names[i]));
    assert(!head.contains(names[j]));
    assert(!kept.contains(names[j]));
    assert(upto.drop_last() == head);
    assert(first_seen(upto) == kept.push(names[j]));
    assert(names == upto + tail);
    lemma_absorb_concat(Seq::empty(), upto, tail);
    lemma_absorb_keeps(first_seen(upto), tail);
    let all = first_seen(names);
    let x = choose|x: int| 0 <= x < kept.len() && kept[x] == names[i];
    let y = kept.len() as int;
    assert(all.subrange(0, first_seen(upto).len() as int) == first_seen(upto));
    assert(all[x] == first_seen(upto)[x]);
    assert(all[y] == first_seen(upto)[y]);
}

/// Among the names kept, none stands twice, and each name that was offered
/// is among them.
pub proof fn first_seen_keeps_each_once(names: Seq<Seq<char>>)
    ensures
        first_seen(names).no_duplicates(),
        forall|name: Seq<char>| first_seen(names).contains(name) <==> names.contains(name),
{
    lemma_absorb_keeps(Seq::empty(), names);
    assert forall|name: Seq<char>| first_seen(names).contains(name) <==> names.contains(
        name,
    ) by {
        assert(!Seq::<Seq<char>>::empty().contains(name));
    }
}

} // verus!
