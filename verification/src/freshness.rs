//! When a loaded unit was last modified, and how the freshness of a whole
//! follows from that of its parts.

use vstd::prelude::*;

verus! {

/// A point in time: whole seconds since the Unix epoch, and the nanoseconds
/// that follow them.
#[derive(Debug, PartialEq, Eq, Clone, Copy)]
pub struct Timestamp {
    pub secs: i64,
    pub nanos: u32,
}

impl Timestamp {
    /// Whether `self` is no later than `other`.
    pub open spec fn at_most(self, other: Timestamp) -> bool {
        self.secs < other.secs || (self.secs == other.secs && self.nanos <= other.nanos)
    }

    /// The later of two points in time.
    pub open spec fn later(self, other: Timestamp) -> Timestamp {
        if self.at_most(other) {
            other
        } else {
            self
        }
    }

    /// The point in time that none precedes.
    pub open spec fn earliest() -> Timestamp {
        Timestamp { secs: i64::MIN, nanos: 0 }
    }

    /// Whether `self` is no later than `other`.
    pub fn le(&self, other: &Timestamp) -> (r: bool)
        ensures
            r == self.at_most(*other),
    {
        self.secs < other.secs || (self.secs == other.secs && self.nanos <= other.nanos)
    }

    /// The later of two points in time.
    pub fn max(self, other: Timestamp) -> (r: Timestamp)
        ensures
            r == self.later(other),
    {
        if self.le(&other) {
            other
        } else {
            self
        }
    }

    /// The point in time that none precedes.
    pub fn min_value() -> (r: Timestamp)
        ensures
            r == Timestamp::earliest(),
    {
        Timestamp { secs: i64::MIN, nanos: 0 }
    }
}

/// The latest of a run of points in time; the earliest point of all where
/// the run is empty.
pub open spec fn latest(times: Seq<Timestamp>) -> Timestamp
    decreases times.len(),
{
    if times.len() == 0 {
        Timestamp::earliest()
    } else {
        latest(times.drop_last()).later(times.last())
    }
}

/// Whether the freshness of every part is known.
pub open spec fn all_known(parts: Seq<Option<Timestamp>>) -> bool {
    forall|i: int| 0 <= i < parts.len() ==> (#[trigger] parts[i]) is Some
}

/// The known values of a run of parts, in order.
pub open spec fn known(parts: Seq<Option<Timestamp>>) -> Seq<Timestamp> {
    Seq::new(parts.len(), |i: int| parts[i].unwrap())
}

/// The freshness of a whole: the latest of its parts where every part is
/// known, unknown as soon as one part is.
pub open spec fn freshness(parts: Seq<Option<Timestamp>>) -> Option<Timestamp> {
    if all_known(parts) {
        Some(latest(known(parts)))
    } else {
        None
    }
}

/// Computes the freshness of a whole from that of its parts.
pub fn aggregate(parts: &[Option<Timestamp>]) -> (r: Option<Timestamp>)
    ensures
        r == freshness(parts@),
{
    let mut best = Timestamp::min_value();
    let mut i: usize = 0;
    while i < parts.len()
        invariant
            i <= parts.len(),
            all_known(parts@.take(i as int)),
            best == latest(known(parts@.take(i as int))),
        decreases parts.len() - i,
    {
        match parts[i] {
            None => {
                return None;
            },
            Some(time) => {
                proof {
                    let now = parts@.take(i + 1);
                    assert(known(now).drop_last() =~= known(parts@.take(i as int)));
                }
                best = best.max(time);
            },
        }
        i += 1;
    }
    assert(parts@.take(i as int) =~= parts@);
    Some(best)
}

/// One part of unknown freshness makes the whole unknown.
pub proof fn unknown_part_wins(parts: Seq<Option<Timestamp>>, i: int)
    requires
        0 <= i < parts.len(),
        parts[i] is None,
    ensures
        freshness(parts) is None,
{
}

/// The whole is as fresh as the fresher of its two parts, where both are
/// known.
pub proof fn later_of_two(first: Timestamp, second: Timestamp)
    ensures
        freshness(seq![Some(first), Some(second)]) == Some(first.later(second)),
        freshness(seq![Some(first), None]) is None,
        freshness(seq![None, Some(second)]) is None,
{
    let both = seq![Some(first), Some(second)];
    assert(known(both) =~= seq![first, second]);
    assert(seq![first, second].drop_last() =~= seq![first]);
    assert(seq![first].drop_last() =~= Seq::<Timestamp>::empty());
    assert(latest(seq![first]) == first) by {
        assert(latest(Seq::<Timestamp>::empty()) == Timestamp::earliest());
    }
}

/// Where every part is known, the whole is no older than any part, and as
/// old as one of them unless there is none.
pub proof fn latest_is_maximum(times: Seq<Timestamp>)
    ensures
        forall|i: int| 0 <= i < times.len() ==> (#[trigger] times[i]).at_most(latest(times)),
        times.len() > 0 ==> exists|i: int|
            0 <= i < times.len() && #[trigger] times[i] == latest(times),
    decreases times.len(),
{
    if times.len() > 0 {
        let before = times.drop_last();
        latest_is_maximum(before);
        assert forall|i: int| 0 <= i < times.len() implies (#[trigger] times[i]).at_most(
            latest(times),
        ) by {
            if i < before.len() {
                assert(before[i].at_most(latest(before)));
            }
        }
        if latest(times) != times.last() {
            let i = choose|i: int| 0 <= i < before.len() && #[trigger] before[i] == latest(before);
            assert(times[i] == latest(times));
        }
    }
}

} // verus!
