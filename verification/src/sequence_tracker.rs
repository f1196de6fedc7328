//! The high-water mark of the ordering tokens seen on one connection.

use vstd::prelude::*;

verus! {

/// The larger of two sequence values: what a tracker holds after it has seen
/// `seq` while holding `current`.
pub open spec fn merged(current: u64, seq: u64) -> u64 {
    if seq > current { seq } else { current }
}

/// Remembers the highest sequence value it was shown. A fresh tracker holds 0,
/// which no inbound frame carries, so 0 stands for "nothing received yet".
pub struct SequenceTracker {
    value: u64,
}

impl SequenceTracker {
    /// The value the tracker holds.
    pub closed spec fn view(&self) -> u64 {
        self.value
    }

    pub fn new() -> (tracker: Self)
        ensures
            tracker@ == 0,
    {
        SequenceTracker { value: 0 }
    }

    /// Raises the tracked value to `seq` where `seq` is strictly greater;
    /// otherwise leaves it as it is.
    pub fn update(&mut self, seq: u64)
        ensures
            final(self)@ == merged(old(self)@, seq),
    {
        if seq > self.value {
            self.value = seq;
        }
    }

    pub fn get(&self) -> (value: u64)
        ensures
            value == self@,
    {
        self.value
    }

    /// The highest sequence value received, or none where nothing was
    /// received yet.
    pub fn last(&self) -> (sequence: Option<u64>)
        ensures
            sequence == last_received(self@),
    {
        if self.value == 0 {
            None
        } else {
            Some(self.value)
        }
    }
}

/// What a tracked value says was received: nothing where it is still 0.
pub open spec fn last_received(value: u64) -> Option<u64> {
    if value == 0 {
        None
    } else {
        Some(value)
    }
}

/// The value a tracker holds after it has seen `values`, one after another,
/// while holding `current` at first.
pub open spec fn merged_all(current: u64, values: Seq<u64>) -> u64
    decreases values.len(),
{
    if values.len() == 0 {
        current
    } else {
        merged(merged_all(current, values.drop_last()), values.last())
    }
}

/// Whether `bound` is the greatest among `current` and `values`.
pub open spec fn is_greatest(bound: u64, current: u64, values: Seq<u64>) -> bool {
    &&& bound >= current
    &&& forall|i: int| 0 <= i < values.len() ==> bound >= #[trigger] values[i]
    &&& (bound == current || exists|i: int| 0 <= i < values.len() && bound == #[trigger] values[i])
}

/// After any number of updates a tracker holds the greatest value it was
/// shown, or what it held before where that is greater.
pub proof fn lemma_tracker_holds_greatest(current: u64, values: Seq<u64>)
    ensures
        is_greatest(merged_all(current, values), current, values),
    decreases values.len(),
{
    if values.len() > 0 {
        let earlier = values.drop_last();
        lemma_tracker_holds_greatest(current, earlier);
        let before = merged_all(current, earlier);
        let after = merged_all(current, values);
        assert forall|i: int| 0 <= i < values.len() implies after >= #[trigger] values[i] by {
            if i < earlier.len() {
                assert(earlier[i] == values[i]);
            }
        }
        if after != current {
            if after == values.last() {
                assert(after == values[values.len() - 1]);
            } else {
                let i = choose|i: int| 0 <= i < earlier.len() && before == #[trigger] earlier[i];
                assert(after == values[i]);
            }
        }
    }
}

/// The order in which values are shown to a tracker does not matter: two
/// runs over the same values, in any two orders, end with the same value.
pub proof fn lemma_tracker_ignores_order(current: u64, first: Seq<u64>, second: Seq<u64>)
    requires
        first.to_multiset() == second.to_multiset(),
    ensures
        merged_all(current, first) == merged_all(current, second),
{
    broadcast use vstd::seq_lib::group_to_multiset_ensures;

    lemma_tracker_holds_greatest(current, first);
    lemma_tracker_holds_greatest(current, second);
    let a = merged_all(current, first);
    let b = merged_all(current, second);
    assert forall|i: int| 0 <= i < first.len() implies b >= #[trigger] first[i] by {
        assert(first.to_multiset().count(first[i]) > 0);
        assert(second.contains(first[i]));
    }
    assert forall|i: int| 0 <= i < second.len() implies a >= #[trigger] second[i] by {
        assert(second.to_multiset().count(second[i]) > 0);
        assert(first.contains(second[i]));
    }
}

} // verus!
