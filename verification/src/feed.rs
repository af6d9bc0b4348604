use vstd::prelude::*;
use crate::item::{Item, ItemView};
use crate::source::Source;

verus! {

/// The items of a list, by their contents.
pub open spec fn items_view(items: Seq<Item>) -> Seq<ItemView> {
    items.map_values(|item: Item| item@)
}

/// Whether timestamp `a` comes strictly before timestamp `b`: an absent
/// timestamp comes before any present one.
pub open spec fn timestamp_before(a: Option<i64>, b: Option<i64>) -> bool {
    if a is None {
        b is Some
    } else {
        b is Some && a->0 < b->0
    }
}

/// Timestamps are compared as numbers; an absent timestamp comes before
/// every present one, and no timestamp comes before itself.
pub proof fn law_timestamp_before_is_numeric(x: i64, y: i64)
    ensures
        timestamp_before(Some(x), Some(y)) <==> x < y,
        timestamp_before(None, Some(x)),
        !timestamp_before(Some(x), None),
        !timestamp_before(None, None),
{
}

/// In a list ordered by timestamp, an item without a timestamp never follows
/// one with a timestamp, and present timestamps never decrease.
pub proof fn law_ordered_means_oldest_first(items: Seq<ItemView>)
    requires
        ordered_by_timestamp(items),
    ensures
        forall|i: int, j: int|
            0 <= i < j < items.len() ==> {
                let a = (#[trigger] items[i]).timestamp;
                let b = (#[trigger] items[j]).timestamp;
                &&& (b is None ==> a is None)
                &&& (a is Some && b is Some ==> a->0 <= b->0)
            },
{
    assert forall|i: int, j: int| 0 <= i < j < items.len() implies {
        let a = (#[trigger] items[i]).timestamp;
        let b = (#[trigger] items[j]).timestamp;
        &&& (b is None ==> a is None)
        &&& (a is Some && b is Some ==> a->0 <= b->0)
    } by {
        let a = items[i].timestamp;
        let b = items[j].timestamp;
        assert(!timestamp_before(b, a));
        if b is None && a is Some {
            law_timestamp_before_is_numeric(a->0, a->0);
        }
        if a is Some && b is Some {
            law_timestamp_before_is_numeric(b->0, a->0);
        }
    }
}

/// No item comes after an item with an earlier timestamp.
pub open spec fn ordered_by_timestamp(items: Seq<ItemView>) -> bool {
    forall|i: int, j: int|
        0 <= i < j < items.len() ==> !timestamp_before(
            #[trigger] items[j].timestamp,
            #[trigger] items[i].timestamp,
        )
}

/// The items whose timestamp is `t`, in their order.
pub open spec fn with_timestamp(items: Seq<ItemView>, t: Option<i64>) -> Seq<ItemView> {
    items.filter(|item: ItemView| item.timestamp == t)
}

/// Filtering a sequence in which no element passes gives nothing.
proof fn lemma_filter_none<A>(s: Seq<A>, p: spec_fn(A) -> bool)
    requires
        forall|i: int| 0 <= i < s.len() ==> !p(#[trigger] s[i]),
    ensures
        s.filter(p) == Seq::<A>::empty(),
    decreases s.len(),
{
    reveal(Seq::filter);
    if s.len() > 0 {
        lemma_filter_none(s.drop_last(), p);
    }
}

/// Putting `x` in front adds it in front of the items with its timestamp.
proof fn lemma_prepend_with_timestamp(s: Seq<ItemView>, x: ItemView)
    ensures
        forall|t: Option<i64>|
            #[trigger] with_timestamp(seq![x] + s, t) == if x.timestamp == t {
                seq![x] + with_timestamp(s, t)
            } else {
                with_timestamp(s, t)
            },
{
    assert forall|t: Option<i64>| #[trigger] with_timestamp(seq![x] + s, t) == if x.timestamp == t {
        seq![x] + with_timestamp(s, t)
    } else {
        with_timestamp(s, t)
    } by {
        s.lemma_filter_prepend(x, |item: ItemView| item.timestamp == t);
        if x.timestamp != t {
            assert(Seq::<ItemView>::empty() + with_timestamp(s, t) =~= with_timestamp(s, t));
        }
    }
}

/// Inserting `x` where the timestamps around it allow keeps the order, adds
/// `x` at the front of the items with its timestamp, and adds it once.
proof fn lemma_insert_in_order(s: Seq<ItemView>, pos: int, x: ItemView)
    requires
        ordered_by_timestamp(s),
        0 <= pos <= s.len(),
        forall|k: int| 0 <= k < pos ==> timestamp_before(#[trigger] s[k].timestamp, x.timestamp),
        pos < s.len() ==> !timestamp_before(s[pos].timestamp, x.timestamp),
    ensures
        ordered_by_timestamp(s.insert(pos, x)),
        forall|t: Option<i64>|
            #[trigger] with_timestamp(s.insert(pos, x), t) == if x.timestamp == t {
                seq![x] + with_timestamp(s, t)
            } else {
                with_timestamp(s, t)
            },
        s.insert(pos, x).to_multiset() == s.to_multiset().insert(x),
{
    broadcast use vstd::seq_lib::group_seq_properties;
    broadcast use vstd::multiset::group_multiset_axioms;

    let n = s.insert(pos, x);
    let a = s.subrange(0, pos);
    let b = s.subrange(pos, s.len() as int);
    assert(n =~= a + seq![x] + b);
    assert(s =~= a + b);
    assert forall|k: int| pos <= k < s.len() implies !timestamp_before(
        #[trigger] s[k].timestamp,
        x.timestamp,
    ) by {
        if k > pos {
            assert(!timestamp_before(s[k].timestamp, s[pos].timestamp));
        }
    }
    assert forall|i: int, j: int| 0 <= i < j < n.len() implies !timestamp_before(
        #[trigger] n[j].timestamp,
        #[trigger] n[i].timestamp,
    ) by {
        if j < pos {
            assert(n[i] == s[i] && n[j] == s[j]);
        } else if j == pos {
            assert(n[i] == s[i]);
        } else if i < pos {
            assert(n[i] == s[i] && n[j] == s[j - 1]);
        } else if i == pos {
            assert(n[j] == s[j - 1]);
        } else {
            assert(n[i] == s[i - 1] && n[j] == s[j - 1]);
        }
    }
    assert forall|t: Option<i64>| #[trigger] with_timestamp(n, t) == if x.timestamp == t {
        seq![x] + with_timestamp(s, t)
    } else {
        with_timestamp(s, t)
    } by {
        let p = |item: ItemView| item.timestamp == t;
        Seq::filter_distributes_over_add(a + seq![x], b, p);
        Seq::filter_distributes_over_add(a, seq![x], p);
        Seq::filter_distributes_over_add(a, b, p);
        b.lemma_filter_prepend(x, p);
        assert(seq![x] + b == seq![x].add(b));
        assert(seq![x].filter(p) == (seq![x] + Seq::<ItemView>::empty()).filter(p)) by {
            assert(seq![x] + Seq::<ItemView>::empty() =~= seq![x]);
        }
        Seq::<ItemView>::empty().lemma_filter_prepend(x, p);
        reveal(Seq::filter);
        if x.timestamp == t {
            lemma_filter_none(a, p);
            assert(with_timestamp(n, t) =~= seq![x] + with_timestamp(s, t));
        } else {
            assert(with_timestamp(n, t) =~= with_timestamp(s, t));
        }
    }
    s.insert(pos, x).to_multiset_ensures();
    assert(n.remove(pos) =~= s);
    assert(n[pos] == x);
    assert(n.to_multiset() =~= s.to_multiset().insert(x));
}

/// The items of `s` with the timestamp of its last item end with that item.
proof fn lemma_last_with_own_timestamp(s: Seq<ItemView>)
    requires
        s.len() > 0,
    ensures
        ({
            let f = with_timestamp(s, s.last().timestamp);
            f.len() > 0 && f.last() == s.last() && f.drop_last() == with_timestamp(
                s.drop_last(),
                s.last().timestamp,
            )
        }),
{
    let t = s.last().timestamp;
    s.drop_last().lemma_filter_push(s.last(), |item: ItemView| item.timestamp == t);
    assert(s.drop_last().push(s.last()) =~= s);
}

/// Two lists ordered by timestamp that hold the same items at each
/// timestamp, in the same order, are the same list: the order that
/// `Channel::sort_by_timestamp` gives is the only one its contract allows.
pub proof fn law_timestamp_order_is_unique(a: Seq<ItemView>, b: Seq<ItemView>)
    requires
        ordered_by_timestamp(a),
        ordered_by_timestamp(b),
        forall|t: Option<i64>| #[trigger] with_timestamp(a, t) == with_timestamp(b, t),
    ensures
        a == b,
    decreases a.len() + b.len(),
{
    if a.len() == 0 && b.len() == 0 {
        assert(a =~= b);
    } else if a.len() == 0 {
        lemma_last_with_own_timestamp(b);
        assert(with_timestamp(a, b.last().timestamp) == with_timestamp(b, b.last().timestamp));
        reveal(Seq::filter);
        assert(false);
    } else if b.len() == 0 {
        lemma_last_with_own_timestamp(a);
        assert(with_timestamp(a, a.last().timestamp) == with_timestamp(b, a.last().timestamp));
        reveal(Seq::filter);
        assert(false);
    } else {
        let x = a.last();
        let y = b.last();
        lemma_last_with_own_timestamp(a);
        lemma_last_with_own_timestamp(b);
        let fx = with_timestamp(a, x.timestamp);
        let fy = with_timestamp(b, y.timestamp);
        assert(with_timestamp(b, x.timestamp) == fx);
        assert(with_timestamp(a, y.timestamp) == fy);
        // x occurs in b and y occurs in a
        assert(fx.contains(x)) by {
            assert(fx[fx.len() - 1] == x);
        }
        assert(fy.contains(y)) by {
            assert(fy[fy.len() - 1] == y);
        }
        b.lemma_filter_contains_rev(|item: ItemView| item.timestamp == x.timestamp, x);
        a.lemma_filter_contains_rev(|item: ItemView| item.timestamp == y.timestamp, y);
        let i = choose|i: int| 0 <= i < b.len() && b[i] == x;
        let j = choose|j: int| 0 <= j < a.len() && a[j] == y;
        if i < b.len() - 1 {
            assert(!timestamp_before(b[b.len() - 1].timestamp, b[i].timestamp));
        }
        if j < a.len() - 1 {
            assert(!timestamp_before(a[a.len() - 1].timestamp, a[j].timestamp));
        }
        assert(x.timestamp == y.timestamp);
        assert(x == y);
        let a2 = a.drop_last();
        let b2 = b.drop_last();
        assert forall|t: Option<i64>| #[trigger] with_timestamp(a2, t) == with_timestamp(b2, t) by {
            let p = |item: ItemView| item.timestamp == t;
            a2.lemma_filter_push(x, p);
            b2.lemma_filter_push(y, p);
            assert(a2.push(x) =~= a);
            assert(b2.push(y) =~= b);
            assert(with_timestamp(a, t) == with_timestamp(b, t));
            if x.timestamp == t {
                assert(with_timestamp(a2, t) == with_timestamp(a, t).drop_last());
                assert(with_timestamp(b2, t) == with_timestamp(b, t).drop_last());
            }
        }
        assert forall|k: int, l: int| 0 <= k < l < a2.len() implies !timestamp_before(
            #[trigger] a2[l].timestamp,
            #[trigger] a2[k].timestamp,
        ) by {
            assert(a2[l] == a[l] && a2[k] == a[k]);
        }
        assert forall|k: int, l: int| 0 <= k < l < b2.len() implies !timestamp_before(
            #[trigger] b2[l].timestamp,
            #[trigger] b2[k].timestamp,
        ) by {
            assert(b2[l] == b[l] && b2[k] == b[k]);
        }
        law_timestamp_order_is_unique(a2, b2);
        assert(a =~= a2.push(x));
        assert(b =~= b2.push(y));
    }
}

/// Filtering the kept items again with the same source keeps them all.
pub proof fn law_filtering_twice_changes_nothing(items: Seq<ItemView>, source: Source)
    ensures
        ({
            let p = |item: ItemView| source.includes(item);
            items.filter(p).filter(p) == items.filter(p)
        }),
    decreases items.len(),
{
    let p = |item: ItemView| source.includes(item);
    reveal(Seq::filter);
    if items.len() > 0 {
        law_filtering_twice_changes_nothing(items.drop_last(), source);
        let sub = items.drop_last().filter(p);
        if p(items.last()) {
            sub.lemma_filter_push(items.last(), p);
        }
    }
}

/// The items of an RSS channel.
#[derive(Clone, Debug)]
pub struct Channel {
    pub item: Vec<Item>,
}

/// An RSS document: one channel.
#[derive(Clone, Debug)]
pub struct Feed {
    pub channel: Channel,
}

/// Whether timestamp `a` comes strictly before timestamp `b`.
fn is_before(a: &Option<i64>, b: &Option<i64>) -> (before: bool)
    ensures
        before == timestamp_before(*a, *b),
{
    match a {
        None => b.is_some(),
        Some(x) => match b {
            None => false,
            Some(y) => *x < *y,
        },
    }
}

impl Channel {
    /// Orders the items by timestamp, items without one first; items with
    /// equal timestamps keep their order.
    pub fn sort_by_timestamp(&mut self)
        ensures
            ordered_by_timestamp(items_view(final(self).item@)),
            forall|t: Option<i64>|
                #[trigger] with_timestamp(items_view(final(self).item@), t) == with_timestamp(
                    items_view(old(self).item@),
                    t,
                ),
            items_view(final(self).item@).to_multiset() == items_view(
                old(self).item@,
            ).to_multiset(),
            forall|i: int, j: int|
                0 <= i < j < final(self).item@.len() ==> {
                    let a = (#[trigger] final(self).item@[i]).timestamp;
                    let b = (#[trigger] final(self).item@[j]).timestamp;
                    &&& (b is None ==> a is None)
                    &&& (a is Some && b is Some ==> a->0 <= b->0)
                },
    {
        let mut rest: Vec<Item> = Vec::new();
        std::mem::swap(&mut rest, &mut self.item);
        let ghost input = items_view(rest@);
        let mut sorted: Vec<Item> = Vec::new();
        proof {
            assert(input.skip(input.len() as int) =~= Seq::<ItemView>::empty());
            assert(items_view(sorted@) =~= Seq::<ItemView>::empty());
            assert(items_view(rest@) =~= input.take(input.len() as int));
        }
        while rest.len() > 0
            invariant
                rest@.len() <= input.len(),
                items_view(rest@) == input.take(rest@.len() as int),
                ordered_by_timestamp(items_view(sorted@)),
                forall|t: Option<i64>|
                    #[trigger] with_timestamp(items_view(sorted@), t) == with_timestamp(
                        input.skip(rest@.len() as int),
                        t,
                    ),
                items_view(sorted@).to_multiset() == input.skip(
                    rest@.len() as int,
                ).to_multiset(),
            decreases rest@.len(),
        {
            let ghost m = rest@.len() as int;
            let ghost before_rest = rest@;
            let x = match rest.pop() {
                Some(x) => x,
                None => {
                    return;
                },
            };
            proof {
                assert(x@ == input[m - 1]) by {
                    assert(items_view(before_rest)[m - 1] == input.take(m)[m - 1]);
                }
                assert(items_view(rest@) =~= input.take(m - 1));
                assert(input.skip(m - 1) =~= seq![x@] + input.skip(m));
            }
            let mut pos: usize = 0;
            while pos < sorted.len() && is_before(&sorted[pos].timestamp, &x.timestamp)
                invariant
                    pos <= sorted@.len(),
                    forall|k: int|
                        0 <= k < pos ==> timestamp_before(
                            #[trigger] sorted@[k].timestamp,
                            x.timestamp,
                        ),
                decreases sorted@.len() - pos,
            {
                pos = pos + 1;
            }
            let ghost old_sorted = items_view(sorted@);
            proof {
                lemma_insert_in_order(old_sorted, pos as int, x@);
                lemma_prepend_with_timestamp(input.skip(m), x@);
                (seq![x@] + input.skip(m)).to_multiset_ensures();
                assert((seq![x@] + input.skip(m)).remove(0) =~= input.skip(m));
            }
            sorted.insert(pos, x);
            proof {
                assert(items_view(sorted@) =~= old_sorted.insert(pos as int, x@));
                assert((seq![x@] + input.skip(m)).to_multiset() =~= input.skip(m).to_multiset().insert(x@))
                    by {
                    broadcast use vstd::multiset::group_multiset_axioms;
                };
            }
        }
        proof {
            assert(input.skip(0) =~= input);
            law_ordered_means_oldest_first(items_view(sorted@));
            assert forall|i: int, j: int| 0 <= i < j < sorted@.len() implies {
                let a = (#[trigger] sorted@[i]).timestamp;
                let b = (#[trigger] sorted@[j]).timestamp;
                &&& (b is None ==> a is None)
                &&& (a is Some && b is Some ==> a->0 <= b->0)
            } by {
                assert(items_view(sorted@)[i] == sorted@[i]@);
                assert(items_view(sorted@)[j] == sorted@[j]@);
            }
        }
        self.item = sorted;
    }
}

impl Feed {
    /// The items of the channel that `source` keeps, in channel order.
    pub fn filtered_items(&self, source: &Source) -> (kept: Vec<Item>)
        ensures
            items_view(kept@) == items_view(self.channel.item@).filter(
                |item: ItemView| source.includes(item),
            ),
    {
        let ghost pred = |item: ItemView| source.includes(item);
        let items = &self.channel.item;
        let mut kept: Vec<Item> = Vec::new();
        let n = items.len();
        for i in 0..n
            invariant
                n == items@.len(),
                pred == (|item: ItemView| source.includes(item)),
                items_view(kept@) == items_view(items@.take(i as int)).filter(pred),
        {
            let ghost before = kept@;
            proof {
                assert(items_view(items@.take(i + 1)) =~= items_view(items@.take(i as int)).push(
                    items@[i as int]@,
                ));
                items_view(items@.take(i as int)).lemma_filter_push(items@[i as int]@, pred);
            }
            if source.item_included(&items[i]) {
                kept.push(items[i].duplicate());
                assert(items_view(kept@) =~= items_view(before).push(items@[i as int]@));
            }
        }
        assert(items@.take(n as int) =~= items@);
        kept
    }
}

} // verus!
