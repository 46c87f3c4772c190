//! Merging the change times of several signals into one list.
use vstd::multiset::Multiset;
use vstd::prelude::*;

verus! {

/// The lists behind a vector of slices.
pub open spec fn lists(arrays: Seq<&[u32]>) -> Seq<Seq<u32>> {
    arrays.map_values(|a: &[u32]| a@)
}

/// Every list is taken up to a position that it has.
pub open spec fn within(arrays: Seq<Seq<u32>>, at: Seq<int>) -> bool {
    &&& at.len() == arrays.len()
    &&& forall|i: int| 0 <= i < at.len() ==> 0 <= #[trigger] at[i] <= arrays[i].len()
}

/// Of the next entries of the lists, each taken up to `at`, that of list `i` is a least one.
pub open spec fn least_next(arrays: Seq<Seq<u32>>, at: Seq<int>, i: int) -> bool {
    &&& 0 <= i < arrays.len()
    &&& at[i] < arrays[i].len()
    &&& forall|j: int|
        0 <= j < arrays.len() && #[trigger] at[j] < arrays[j].len() ==> arrays[i][at[i]]
            <= arrays[j][at[j]]
}

/// `out` comes from taking, again and again, a least one of the lists' next entries,
/// until each list is taken up to `at`.
pub open spec fn merged_upto(arrays: Seq<Seq<u32>>, at: Seq<int>, out: Seq<u32>) -> bool
    decreases out.len(),
{
    &&& within(arrays, at)
    &&& if out.len() == 0 {
        forall|i: int| 0 <= i < at.len() ==> #[trigger] at[i] == 0
    } else {
        exists|i: int| #[trigger] last_taken(arrays, at, i, out.last()) && merged_upto(
            arrays,
            at.update(i, at[i] - 1),
            out.drop_last(),
        )
    }
}

/// The entry taken last is `entry`, from list `i`.
pub open spec fn last_taken(arrays: Seq<Seq<u32>>, at: Seq<int>, i: int, entry: u32) -> bool {
    &&& 0 <= i < at.len()
    &&& at[i] > 0
    &&& entry == arrays[i][at[i] - 1]
    &&& least_next(arrays, at.update(i, at[i] - 1), i)
}

/// The lengths of the lists.
pub open spec fn lengths(arrays: Seq<Seq<u32>>) -> Seq<int> {
    arrays.map_values(|a: Seq<u32>| a.len() as int)
}

/// `out` is a merge of the lists: it comes from taking, again and again, a least one of
/// their next entries, until all are taken.
pub open spec fn is_merge(arrays: Seq<Seq<u32>>, out: Seq<u32>) -> bool {
    merged_upto(arrays, lengths(arrays), out)
}

/// A list, and the position up to which it is taken.
struct Item<'a> {
    arr: &'a [u32],
    idx: usize,
}

impl<'a> Item<'a> {
    fn new(arr: &'a [u32], idx: usize) -> (r: Self)
        ensures
            r.arr@ == arr@,
            r.idx == idx,
    {
        Item { arr, idx }
    }

    fn get_item(&self) -> (r: u32)
        requires
            self.idx < self.arr@.len(),
        ensures
            r == self.arr@[self.idx as int],
    {
        self.arr[self.idx]
    }
}

/// The items are the lists, taken up to `at`.
spec fn items_are(items: Seq<Item>, arrays: Seq<Seq<u32>>, at: Seq<int>) -> bool {
    &&& items.len() == arrays.len() == at.len()
    &&& forall|i: int|
        0 <= i < items.len() ==> (#[trigger] items[i]).arr@ == arrays[i] && items[i].idx == at[i]
            && at[i] <= arrays[i].len()
}

/// The position of an item whose next entry is a least one; `None` where all are taken.
fn least_item(items: &Vec<Item>, Ghost(arrays): Ghost<Seq<Seq<u32>>>, Ghost(at): Ghost<Seq<int>>) -> (r:
    Option<usize>)
    requires
        items_are(items@, arrays, at),
    ensures
        match r {
            Some(i) => least_next(arrays, at, i as int),
            None => forall|i: int| 0 <= i < arrays.len() ==> #[trigger] at[i] == arrays[i].len(),
        },
{
    let mut best: Option<usize> = None;
    let mut i: usize = 0;
    while i < items.len()
        invariant
            0 <= i <= items@.len(),
            items_are(items@, arrays, at),
            match best {
                Some(b) => {
                    &&& b < i
                    &&& at[b as int] < arrays[b as int].len()
                    &&& forall|j: int|
                        0 <= j < i && #[trigger] at[j] < arrays[j].len()
                            ==> arrays[b as int][at[b as int]] <= arrays[j][at[j]]
                },
                None => forall|j: int| 0 <= j < i ==> #[trigger] at[j] == arrays[j].len(),
            },
        decreases items@.len() - i,
    {
        assert(items@[i as int].arr@ == arrays[i as int]);
        if items[i].idx < items[i].arr.len() {
            match best {
                Some(b) => {
                    assert(items@[b as int].arr@ == arrays[b as int]);
                    if items[i].get_item() < items[b].get_item() {
                        best = Some(i);
                    }
                },
                None => {
                    best = Some(i);
                },
            }
        }
        i += 1;
    }
    best
}

/// The sum of what is still to be taken.
spec fn left_over(arrays: Seq<Seq<u32>>, at: Seq<int>, n: int) -> int
    decreases n,
{
    if n <= 0 {
        0
    } else {
        left_over(arrays, at, n - 1) + arrays[n - 1].len() - at[n - 1]
    }
}

proof fn left_over_step(arrays: Seq<Seq<u32>>, at: Seq<int>, i: int, n: int)
    requires
        within(arrays, at),
        0 <= i < at.len(),
        0 <= n <= at.len(),
    ensures
        left_over(arrays, at.update(i, at[i] + 1), n) == left_over(arrays, at, n) - (if i < n {
            1int
        } else {
            0
        }),
        left_over(arrays, at, n) >= 0,
    decreases n,
{
    if n > 0 {
        left_over_step(arrays, at, i, n - 1);
        assert(0 <= at[n - 1] <= arrays[n - 1].len());
    }
}

/// Merges the change times of several signals.
pub fn merge_changes(arrays: Vec<&[u32]>) -> (sorted: Vec<u32>)
    requires
        forall|i: int| 0 <= i < arrays@.len() ==> (#[trigger] arrays@[i])@.len() > 0,
    ensures
        is_merge(lists(arrays@), sorted@),
{
    let ghost all = lists(arrays@);
    let mut sorted: Vec<u32> = Vec::new();
    let mut items: Vec<Item> = Vec::new();
    let mut k: usize = 0;
    while k < arrays.len()
        invariant
            0 <= k <= arrays@.len(),
            all == lists(arrays@),
            items@.len() == k,
            forall|i: int|
                0 <= i < k ==> (#[trigger] items@[i]).arr@ == all[i] && items@[i].idx == 0,
        decreases arrays@.len() - k,
    {
        items.push(Item::new(arrays[k], 0));
        k += 1;
    }
    let ghost mut at: Seq<int> = Seq::new(all.len(), |i: int| 0int);
    loop
        invariant
            items_are(items@, all, at),
            merged_upto(all, at, sorted@),
        ensures
            is_merge(all, sorted@),
        decreases left_over(all, at, at.len() as int),
    {
        match least_item(&items, Ghost(all), Ghost(at)) {
            Some(i) => {
                let ghost before = at;
                let ghost taken = sorted@;
                assert(items@[i as int].arr@ == all[i as int]);
                sorted.push(items[i].get_item());
                let len: usize = items[i].arr.len();
                assert(items@[i as int].idx < len);
                let next = Item::new(items[i].arr, items[i].idx + 1);
                items.set(i, next);
                proof {
                    left_over_step(all, at, i as int, at.len() as int);
                    at = at.update(i as int, at[i as int] + 1);
                    left_over_step(all, at, i as int, at.len() as int);
                    assert(at.update(i as int, at[i as int] - 1) =~= before);
                    assert(sorted@.drop_last() =~= taken);
                    assert(last_taken(all, at, i as int, sorted@.last()));
                }
            },
            None => {
                assert(at =~= lengths(all));
                break;
            },
        }
    }
    sorted
}

/// What the lists hold, each up to `at`, of the first `n` lists.
pub open spec fn contents(arrays: Seq<Seq<u32>>, at: Seq<int>, n: int) -> Multiset<u32>
    decreases n,
{
    if n <= 0 {
        Multiset::empty()
    } else {
        contents(arrays, at, n - 1).add(arrays[n - 1].take(at[n - 1]).to_multiset())
    }
}

/// What the lists hold together.
pub open spec fn all_contents(arrays: Seq<Seq<u32>>) -> Multiset<u32> {
    contents(arrays, lengths(arrays), arrays.len() as int)
}

proof fn contents_step(arrays: Seq<Seq<u32>>, at: Seq<int>, i: int, n: int)
    requires
        within(arrays, at),
        0 <= i < at.len(),
        at[i] > 0,
        0 <= n <= at.len(),
    ensures
        contents(arrays, at, n) == if i < n {
            contents(arrays, at.update(i, at[i] - 1), n).insert(arrays[i][at[i] - 1])
        } else {
            contents(arrays, at.update(i, at[i] - 1), n)
        },
    decreases n,
{
    if n > 0 {
        contents_step(arrays, at, i, n - 1);
        if i == n - 1 {
            let short = arrays[i].take(at[i] - 1);
            assert(arrays[i].take(at[i]) =~= short.push(arrays[i][at[i] - 1]));
            broadcast use vstd::seq_lib::group_to_multiset_ensures;

        }
        assert(contents(arrays, at, n) =~= if i < n {
            contents(arrays, at.update(i, at[i] - 1), n).insert(arrays[i][at[i] - 1])
        } else {
            contents(arrays, at.update(i, at[i] - 1), n)
        });
    }
}

proof fn contents_of_nothing(arrays: Seq<Seq<u32>>, at: Seq<int>, n: int)
    requires
        within(arrays, at),
        forall|i: int| 0 <= i < at.len() ==> #[trigger] at[i] == 0,
        0 <= n <= at.len(),
    ensures
        contents(arrays, at, n) == Multiset::<u32>::empty(),
    decreases n,
{
    if n > 0 {
        contents_of_nothing(arrays, at, n - 1);
        assert(arrays[n - 1].take(at[n - 1]) =~= Seq::<u32>::empty());
        broadcast use vstd::seq_lib::group_to_multiset_ensures;

        assert(contents(arrays, at, n) =~= Multiset::<u32>::empty());
    }
}

proof fn merged_contents(arrays: Seq<Seq<u32>>, at: Seq<int>, out: Seq<u32>)
    requires
        merged_upto(arrays, at, out),
    ensures
        out.to_multiset() == contents(arrays, at, arrays.len() as int),
    decreases out.len(),
{
    broadcast use vstd::seq_lib::group_to_multiset_ensures;

    if out.len() == 0 {
        contents_of_nothing(arrays, at, arrays.len() as int);
        assert(out =~= Seq::<u32>::empty());
    } else {
        let i = choose|i: int| #[trigger]
            last_taken(arrays, at, i, out.last()) && merged_upto(
                arrays,
                at.update(i, at[i] - 1),
                out.drop_last(),
            );
        merged_contents(arrays, at.update(i, at[i] - 1), out.drop_last());
        contents_step(arrays, at, i, arrays.len() as int);
        assert(out =~= out.drop_last().push(out.last()));
    }
}

/// A merge holds what the lists hold together, each entry as often.
pub proof fn merge_loses_nothing(arrays: Seq<Seq<u32>>, out: Seq<u32>)
    requires
        is_merge(arrays, out),
    ensures
        out.to_multiset() == all_contents(arrays),
{
    merged_contents(arrays, lengths(arrays), out);
}

/// The entries of a list stand in order.
pub open spec fn in_order(list: Seq<u32>) -> bool {
    forall|i: int, j: int| 0 <= i <= j < list.len() ==> list[i] <= list[j]
}

proof fn merged_in_order(arrays: Seq<Seq<u32>>, at: Seq<int>, out: Seq<u32>)
    requires
        merged_upto(arrays, at, out),
        forall|i: int| 0 <= i < arrays.len() ==> in_order(#[trigger] arrays[i]),
    ensures
        in_order(out),
        forall|k: int, i: int, p: int|
            0 <= k < out.len() && 0 <= i < arrays.len() && at[i] <= p < arrays[i].len()
                ==> #[trigger] out[k] <= #[trigger] arrays[i][p],
    decreases out.len(),
{
    if out.len() > 0 {
        let i = choose|i: int| #[trigger]
            last_taken(arrays, at, i, out.last()) && merged_upto(
                arrays,
                at.update(i, at[i] - 1),
                out.drop_last(),
            );
        let prev = at.update(i, at[i] - 1);
        let rest = out.drop_last();
        merged_in_order(arrays, prev, rest);
        assert(forall|k: int| 0 <= k < rest.len() ==> rest[k] == #[trigger] out[k]);
        assert forall|j: int, p: int|
            0 <= j < arrays.len() && at[j] <= p < arrays[j].len() implies out.last()
            <= #[trigger] arrays[j][p] by {
            assert(prev[j] < arrays[j].len());
            assert(in_order(arrays[j]));
            assert(arrays[j][prev[j]] <= arrays[j][p]);
        }
        assert forall|k: int| 0 <= k < rest.len() implies #[trigger] out[k] <= out.last() by {
            assert(rest[k] <= arrays[i][prev[i]]);
        }
        assert forall|k: int, j: int, p: int|
            0 <= k < out.len() && 0 <= j < arrays.len() && at[j] <= p
                < arrays[j].len() implies #[trigger] out[k] <= #[trigger] arrays[j][p] by {
            if k < rest.len() {
                assert(prev[j] <= p);
                assert(rest[k] <= arrays[j][p]);
            }
        }
    }
}

/// The merge of lists in order is in order.
pub proof fn merge_of_ordered_is_ordered(arrays: Seq<Seq<u32>>, out: Seq<u32>)
    requires
        is_merge(arrays, out),
        forall|i: int| 0 <= i < arrays.len() ==> in_order(#[trigger] arrays[i]),
    ensures
        in_order(out),
{
    merged_in_order(arrays, lengths(arrays), out);
}

proof fn contents_contain(arrays: Seq<Seq<u32>>, at: Seq<int>, n: int, entry: u32)
    requires
        within(arrays, at),
        0 <= n <= at.len(),
    ensures
        contents(arrays, at, n).count(entry) > 0 <==> exists|i: int, p: int|
            0 <= i < n && 0 <= p < at[i] && #[trigger] arrays[i][p] == entry,
    decreases n,
{
    broadcast use vstd::seq_lib::group_to_multiset_ensures;

    if n > 0 {
        contents_contain(arrays, at, n - 1, entry);
        let last = arrays[n - 1].take(at[n - 1]);
        assert(0 <= at[n - 1] <= arrays[n - 1].len());
        if last.contains(entry) {
            let p = choose|p: int| 0 <= p < last.len() && last[p] == entry;
            assert(arrays[n - 1][p] == entry);
        }
        if exists|i: int, p: int|
            0 <= i < n && 0 <= p < at[i] && #[trigger] arrays[i][p] == entry {
            let (i, p) = choose|i: int, p: int|
                0 <= i < n && 0 <= p < at[i] && #[trigger] arrays[i][p] == entry;
            if i == n - 1 {
                assert(last[p] == entry);
            }
        }
    }
}

/// A merge holds an entry exactly where one of the lists does.
pub proof fn merge_holds_every_entry(arrays: Seq<Seq<u32>>, out: Seq<u32>, entry: u32)
    requires
        is_merge(arrays, out),
    ensures
        out.contains(entry) <==> exists|i: int, p: int|
            0 <= i < arrays.len() && 0 <= p < arrays[i].len() && #[trigger] arrays[i][p] == entry,
{
    broadcast use vstd::seq_lib::group_to_multiset_ensures;

    merge_loses_nothing(arrays, out);
    contents_contain(arrays, lengths(arrays), arrays.len() as int, entry);
    assert(forall|i: int| 0 <= i < arrays.len() ==> lengths(arrays)[i] == arrays[i].len());
    assert(out.contains(entry) <==> out.to_multiset().count(entry) > 0);
}

/// Lists in order have one merge.
pub proof fn merge_is_unique(arrays: Seq<Seq<u32>>, a: Seq<u32>, b: Seq<u32>)
    requires
        is_merge(arrays, a),
        is_merge(arrays, b),
        forall|i: int| 0 <= i < arrays.len() ==> in_order(#[trigger] arrays[i]),
    ensures
        a == b,
{
    merge_loses_nothing(arrays, a);
    merge_loses_nothing(arrays, b);
    merge_of_ordered_is_ordered(arrays, a);
    merge_of_ordered_is_ordered(arrays, b);
    vstd::seq_lib::lemma_sorted_unique(a, b, |x: u32, y: u32| x <= y);
}

} // verus!
