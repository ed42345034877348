//! The bounded history of visited points, and its projection onto line
//! segments.
use itertools::Itertools;
use std::collections::VecDeque;
use vstd::prelude::*;

verus! {

/// The newest `limit` entries of `points`, oldest first; all of them where
/// there are no more than `limit`.
pub open spec fn keep_newest<P>(points: Seq<P>, limit: nat) -> Seq<P> {
    if points.len() <= limit {
        points
    } else {
        points.subrange(points.len() - limit, points.len() as int)
    }
}

/// Keeping the newest entries never keeps more than `limit` of them, and
/// drops none while there are no more than `limit`.
pub proof fn lemma_keep_newest_len<P>(points: Seq<P>, limit: nat)
    ensures
        keep_newest(points, limit).len() <= limit,
        keep_newest(points, limit).len() <= points.len(),
        keep_newest(points, limit).len() == if points.len() <= limit {
            points.len()
        } else {
            limit
        },
{
}

/// Eviction takes entries from the old end only and moves none: what is
/// kept is the tail end of `points`, entry for entry, so the entries stay in
/// chronological order and, where anything is kept, the newest entry stays
/// last.
pub proof fn lemma_keep_newest_is_tail<P>(points: Seq<P>, limit: nat)
    ensures
        forall|i: int|
            0 <= i < keep_newest(points, limit).len() ==> #[trigger] keep_newest(points, limit)[i]
                == points[points.len() - keep_newest(points, limit).len() + i],
        limit >= 1 && points.len() >= 1 ==> keep_newest(points, limit).last() == points.last(),
{
}

/// Entries that an earlier eviction dropped would not have outlived a later
/// one: recording onto the evicted trail gives what recording onto the full
/// history gives.
pub proof fn lemma_record_after_eviction<P>(points: Seq<P>, point: P, limit: nat)
    ensures
        keep_newest(keep_newest(points, limit).push(point), limit) == keep_newest(
            points.push(point),
            limit,
        ),
{
    assert(keep_newest(keep_newest(points, limit).push(point), limit) =~= keep_newest(
        points.push(point),
        limit,
    ));
}

/// The pairs of neighbours in `points`, in order: entry `i` pairs
/// `points[i]` with `points[i + 1]`. Fewer than two points give no pair.
pub open spec fn adjacent<P>(points: Seq<P>) -> Seq<(P, P)> {
    Seq::new(
        if points.len() >= 1 {
            (points.len() - 1) as nat
        } else {
            0
        },
        |i: int| (points[i], points[i + 1]),
    )
}

/// One stretch of the trail, between two neighbouring points, with what a
/// renderer needs to fade it by age: the opacity of a segment is `index`
/// over `total`, so that the newest segment is the most opaque.
#[derive(Debug)]
pub struct Segment<P> {
    /// The position of the segment, counted from the oldest, which is 0.
    pub index: usize,
    /// The number of points on the trail that the segment was taken from.
    pub total: usize,
    /// The older end.
    pub from: P,
    /// The newer end.
    pub to: P,
}

impl<P: Copy> Clone for Segment<P> {
    fn clone(&self) -> (copy: Self)
        ensures
            copy == *self,
    {
        *self
    }
}

impl<P: Copy> Copy for Segment<P> {

}

/// The segments of a trail that holds `points`, oldest first: one for each
/// pair of neighbours.
pub open spec fn segments_of<P>(points: Seq<P>) -> Seq<Segment<P>> {
    Seq::new(
        adjacent(points).len(),
        |i: int|
            Segment {
                index: i as usize,
                total: points.len() as usize,
                from: points[i],
                to: points[i + 1],
            },
    )
}

/// A trail of `n` points has `n - 1` segments (none where it is empty). Each
/// index is below the total, so no opacity reaches one, and each segment
/// starts where the one before it ends.
pub proof fn lemma_segments_join<P>(points: Seq<P>)
    requires
        points.len() <= usize::MAX,
    ensures
        points.len() >= 1 ==> segments_of(points).len() == points.len() - 1,
        points.len() == 0 ==> segments_of(points).len() == 0,
        forall|i: int|
            0 <= i < segments_of(points).len() ==> (#[trigger] segments_of(points)[i]).index == i
                && segments_of(points)[i].index < segments_of(points)[i].total,
        forall|i: int|
            0 <= i < segments_of(points).len() - 1 ==> (#[trigger] segments_of(points)[i]).to
                == segments_of(points)[i + 1].from,
{
}

/// Calls `Itertools::tuple_windows` on the points, oldest first, asking for
/// windows of two, and copies each window out. Trusted: the windows are the
/// pairs of neighbours, in order, each point paired with the one after it.
#[verifier::external_body]
fn adjacent_pairs<P: Copy>(points: &VecDeque<P>) -> (pairs: Vec<(P, P)>)
    ensures
        pairs@ == adjacent(points@),
{
    points.iter().tuple_windows().map(|(from, to): (&P, &P)| (*from, *to)).collect()
}

/// A chronological sequence of points, oldest first.
pub struct Trail<P> {
    points: VecDeque<P>,
}

impl<P> View for Trail<P> {
    type V = Seq<P>;

    closed spec fn view(&self) -> Seq<P> {
        self.points@
    }
}

impl<P: Copy> Trail<P> {
    /// A trail that holds `start` alone.
    pub fn new(start: P) -> (trail: Self)
        ensures
            trail@ == seq![start],
    {
        let mut points: VecDeque<P> = VecDeque::new();
        points.push_back(start);
        assert(points@ =~= seq![start]);
        Trail { points }
    }

    /// The number of points held.
    pub fn len(&self) -> (n: usize)
        ensures
            n == self@.len(),
    {
        self.points.len()
    }

    /// The point at position `index`, counted from the oldest, where there
    /// is one.
    pub fn get(&self, index: usize) -> (point: Option<P>)
        ensures
            point == if index < self@.len() {
                Some(self@[index as int])
            } else {
                None
            },
    {
        if index < self.points.len() {
            Some(self.points[index])
        } else {
            None
        }
    }

    /// The most recently recorded point, where the trail holds any.
    pub fn last(&self) -> (point: Option<P>)
        ensures
            point == if self@.len() > 0 {
                Some(self@.last())
            } else {
                None
            },
    {
        let n: usize = self.points.len();
        if n > 0 {
            Some(self.points[n - 1])
        } else {
            None
        }
    }

    /// Appends `point` as the newest entry, then discards the oldest entries
    /// until no more than `limit` are left.
    pub fn record(&mut self, point: P, limit: usize)
        ensures
            final(self)@ == keep_newest(old(self)@.push(point), limit as nat),
    {
        let ghost full = self.points@.push(point);
        let ghost mut dropped: int = 0;
        self.points.push_back(point);
        assert(self.points@ =~= full.subrange(0, full.len() as int));
        while self.points.len() > limit
            invariant
                0 <= dropped <= full.len(),
                self.points@ == full.subrange(dropped, full.len() as int),
                dropped == 0 || full.len() - dropped >= limit,
            decreases self.points@.len(),
        {
            self.points.pop_front();
            proof {
                dropped = dropped + 1;
            }
            assert(self.points@ =~= full.subrange(dropped, full.len() as int));
        }
        assert(self.points@ =~= keep_newest(full, limit as nat));
    }

    /// The trail as line segments, oldest first: one from each point to the
    /// next.
    pub fn segments(&self) -> (segments: Vec<Segment<P>>)
        ensures
            segments@ == segments_of(self@),
    {
        let pairs = adjacent_pairs(&self.points);
        let total: usize = self.points.len();
        let mut segments: Vec<Segment<P>> = Vec::new();
        let mut index: usize = 0;
        while index < pairs.len()
            invariant
                index <= pairs@.len(),
                pairs@ == adjacent(self.points@),
                total == self.points@.len(),
                segments@ == segments_of(self.points@).subrange(0, index as int),
            decreases pairs@.len() - index,
        {
            let (from, to) = pairs[index];
            segments.push(Segment { index, total, from, to });
            index += 1;
            assert(segments@ =~= segments_of(self.points@).subrange(0, index as int));
        }
        assert(segments@ =~= segments_of(self.points@));
        segments
    }

    /// Discards every point and starts over from `start`.
    pub fn reset(&mut self, start: P)
        ensures
            final(self)@ == seq![start],
    {
        self.points.clear();
        self.points.push_back(start);
        assert(self.points@ =~= seq![start]);
    }
}

} // verus!
