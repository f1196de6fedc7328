//! The order of the conversation list: most recently active first.

use crate::state::{channel_views, ChannelView, PrivateChannel};
use vstd::prelude::*;

verus! {

/// Whether no conversation stands before one with a greater sort key.
pub open spec fn is_descending(channels: Seq<ChannelView>) -> bool {
    forall|i: int, j: int|
        0 <= i < j < channels.len() ==> channels[i].sort_id >= channels[j].sort_id
}

/// An ordered list with one more conversation in its place: behind every
/// conversation whose key is at least as great, before all the others.
pub open spec fn placed(ordered: Seq<ChannelView>, channel: ChannelView) -> Seq<ChannelView>
    decreases ordered.len(),
{
    if ordered.len() == 0 {
        seq![channel]
    } else if ordered.last().sort_id >= channel.sort_id {
        ordered.push(channel)
    } else {
        placed(ordered.drop_last(), channel).push(ordered.last())
    }
}

/// The conversations by descending sort key; those with equal keys keep the
/// order they came in.
pub open spec fn most_recent_first(channels: Seq<ChannelView>) -> Seq<ChannelView>
    decreases channels.len(),
{
    if channels.len() == 0 {
        Seq::empty()
    } else {
        placed(most_recent_first(channels.drop_last()), channels.last())
    }
}

/// Placing a conversation is inserting it at the index where the greater or
/// equal keys end.
pub proof fn lemma_placed_is_insert(ordered: Seq<ChannelView>, channel: ChannelView, at: int)
    requires
        0 <= at <= ordered.len(),
        forall|k: int| at <= k < ordered.len() ==> ordered[k].sort_id < channel.sort_id,
        at > 0 ==> ordered[at - 1].sort_id >= channel.sort_id,
    ensures
        placed(ordered, channel) == ordered.insert(at, channel),
    decreases ordered.len(),
{
    if ordered.len() == 0 {
        assert(ordered.insert(at, channel) =~= seq![channel]);
    } else if ordered.last().sort_id >= channel.sort_id {
        assert(at == ordered.len());
        assert(ordered.insert(at, channel) =~= ordered.push(channel));
    } else {
        assert(at < ordered.len());
        lemma_placed_is_insert(ordered.drop_last(), channel, at);
        assert(ordered.drop_last().insert(at, channel).push(ordered.last()) =~= ordered.insert(
            at,
            channel,
        ));
    }
}

/// No key in a list with one more conversation placed is smaller than both
/// the new key and the smallest key the list had.
proof fn lemma_placed_bound(ordered: Seq<ChannelView>, channel: ChannelView)
    requires
        is_descending(ordered),
    ensures
        placed(ordered, channel).len() == ordered.len() + 1,
        forall|k: int|
            0 <= k < ordered.len() + 1 ==> #[trigger] placed(ordered, channel)[k].sort_id
                >= channel.sort_id || (ordered.len() > 0 && placed(ordered, channel)[k].sort_id
                >= ordered.last().sort_id),
    decreases ordered.len(),
{
    if ordered.len() > 0 && ordered.last().sort_id < channel.sort_id {
        let shorter = ordered.drop_last();
        lemma_placed_bound(shorter, channel);
        let inner = placed(shorter, channel);
        let result = inner.push(ordered.last());
        assert forall|k: int| 0 <= k < ordered.len() + 1 implies #[trigger] result[k].sort_id
            >= channel.sort_id || result[k].sort_id >= ordered.last().sort_id by {
            if k < inner.len() && inner[k].sort_id < channel.sort_id {
                assert(shorter.last() == ordered[ordered.len() - 2]);
            }
        }
    }
}

/// Placing keeps a descending list descending and adds exactly the one
/// conversation.
pub proof fn lemma_placed(ordered: Seq<ChannelView>, channel: ChannelView)
    requires
        is_descending(ordered),
    ensures
        is_descending(placed(ordered, channel)),
        placed(ordered, channel).len() == ordered.len() + 1,
        placed(ordered, channel).to_multiset() == ordered.to_multiset().insert(channel),
    decreases ordered.len(),
{
    broadcast use vstd::seq_lib::group_to_multiset_ensures;

    if ordered.len() == 0 {
        assert(ordered =~= Seq::empty());
        assert(seq![channel] =~= Seq::<ChannelView>::empty().push(channel));
    } else if ordered.last().sort_id >= channel.sort_id {
    } else {
        let shorter = ordered.drop_last();
        lemma_placed(shorter, channel);
        lemma_placed_bound(shorter, channel);
        let inner = placed(shorter, channel);
        let result = inner.push(ordered.last());
        assert(ordered =~= shorter.push(ordered.last()));
        assert(ordered.to_multiset() == shorter.to_multiset().insert(ordered.last()));
        assert(result.to_multiset() =~= ordered.to_multiset().insert(channel));
        assert forall|i: int, j: int| 0 <= i < j < result.len() implies result[i].sort_id
            >= result[j].sort_id by {
            if j == result.len() - 1 {
                if inner[i].sort_id >= channel.sort_id {
                } else {
                    assert(shorter.len() > 0 && inner[i].sort_id >= shorter.last().sort_id);
                    assert(shorter.last() == ordered[ordered.len() - 2]);
                }
            }
        }
    }
}

/// The ordered list is descending and holds exactly the conversations given.
pub proof fn lemma_most_recent_first(channels: Seq<ChannelView>)
    ensures
        is_descending(most_recent_first(channels)),
        most_recent_first(channels).len() == channels.len(),
        most_recent_first(channels).to_multiset() == channels.to_multiset(),
    decreases channels.len(),
{
    broadcast use vstd::seq_lib::group_to_multiset_ensures;

    if channels.len() == 0 {
        assert(channels =~= Seq::empty());
    } else {
        lemma_most_recent_first(channels.drop_last());
        lemma_placed(most_recent_first(channels.drop_last()), channels.last());
        assert(channels =~= channels.drop_last().push(channels.last()));
    }
}

/// A list that is already descending is left as it is: conversations with
/// equal keys never change places.
pub proof fn lemma_descending_is_kept(channels: Seq<ChannelView>)
    requires
        is_descending(channels),
    ensures
        most_recent_first(channels) == channels,
    decreases channels.len(),
{
    if channels.len() == 0 {
        assert(channels =~= Seq::empty());
    } else {
        let shorter = channels.drop_last();
        lemma_descending_is_kept(shorter);
        if shorter.len() > 0 {
            assert(shorter.last() == channels[channels.len() - 2]);
        }
        assert(shorter.push(channels.last()) =~= channels);
    }
}

/// Orders the conversations by descending sort key, keeping the order of
/// those with equal keys.
pub fn sort_most_recent_first(channels: &mut Vec<PrivateChannel>)
    ensures
        channel_views(final(channels)@) == most_recent_first(channel_views(old(channels)@)),
{
    let ghost unsorted = channel_views(channels@);
    let n = channels.len();
    let mut i: usize = 0;
    assert(channel_views(channels@).subrange(0, 0) =~= most_recent_first(
        unsorted.subrange(0, 0),
    ));
    while i < n
        invariant
            i <= n,
            n == channels@.len(),
            n == unsorted.len(),
            channel_views(channels@).subrange(0, i as int) == most_recent_first(
                unsorted.subrange(0, i as int),
            ),
            channel_views(channels@).subrange(i as int, n as int) == unsorted.subrange(
                i as int,
                n as int,
            ),
        decreases n - i,
    {
        let ghost before = channel_views(channels@);
        let ghost ordered = before.subrange(0, i as int);
        assert(before[i as int] == before.subrange(i as int, n as int)[0]);
        let channel = channels.remove(i);
        let ghost rest = channels@;
        let mut at: usize = i;
        while at > 0 && channels[at - 1].sort_id < channel.sort_id
            invariant
                at <= i,
                i < n,
                channels@.len() == n - 1,
                channels@ == rest,
                forall|k: int| at <= k < i ==> channels@[k].sort_id < channel.sort_id,
            decreases at,
        {
            at = at - 1;
        }
        channels.insert(at, channel);
        proof {
            let after = channel_views(channels@);
            assert forall|k: int| 0 <= k < i implies #[trigger] ordered[k] == rest[k]@ by {
                assert(before[k] == ordered[k]);
            }
            lemma_placed_is_insert(ordered, channel@, at as int);
            assert(after.subrange(0, i + 1) =~= ordered.insert(at as int, channel@));
            assert forall|k: int| i < k < n implies #[trigger] after[k] == unsorted[k] by {
                assert(before.subrange(i as int, n as int)[k - i] == unsorted.subrange(
                    i as int,
                    n as int,
                )[k - i]);
            }
            assert(after.subrange(i + 1, n as int) =~= unsorted.subrange(i + 1, n as int));
            let longer = unsorted.subrange(0, i + 1);
            assert(longer.drop_last() =~= unsorted.subrange(0, i as int));
            assert(longer.last() == channel@);
        }
        i = i + 1;
    }
    assert(channel_views(channels@).subrange(0, n as int) =~= channel_views(channels@));
    assert(unsorted.subrange(0, n as int) =~= unsorted);
}

} // verus!
