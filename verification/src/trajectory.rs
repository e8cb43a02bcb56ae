//! The bounded, append-only buffer of emitted points.

use vstd::prelude::*;

verus! {

/// The most points a trajectory ever holds.
pub const CAPACITY: usize = 10_000;

/// What a trajectory holds after one more point is offered to it: the point
/// is appended while there is room, and dropped once the cap is reached.
pub open spec fn appended<P>(points: Seq<P>, point: P) -> Seq<P> {
    if points.len() < CAPACITY {
        points.push(point)
    } else {
        points
    }
}

/// What a trajectory holds after the points of `offered` were offered to it
/// one by one, in order.
pub open spec fn appended_all<P>(points: Seq<P>, offered: Seq<P>) -> Seq<P>
    decreases offered.len(),
{
    if offered.len() == 0 {
        points
    } else {
        appended_all(appended(points, offered.first()), offered.drop_first())
    }
}

/// How many points a trajectory of `held` points has after `offered` more
/// were offered to it.
pub open spec fn length_after(held: nat, offered: nat) -> nat {
    if held + offered <= CAPACITY {
        held + offered
    } else {
        CAPACITY as nat
    }
}

/// An ordered sequence of points that grows by appending until it holds
/// `CAPACITY` of them and is frozen from then on. Nothing is ever removed
/// or reordered.
pub struct Trajectory<P> {
    points: Vec<P>,
}

impl<P> View for Trajectory<P> {
    type V = Seq<P>;

    closed spec fn view(&self) -> Seq<P> {
        self.points@
    }
}

impl<P> Trajectory<P> {
    #[verifier::type_invariant]
    spec fn bounded(self) -> bool {
        self.points@.len() <= CAPACITY
    }

    /// The empty trajectory.
    pub fn new() -> (t: Self)
        ensures
            t@ == Seq::<P>::empty(),
    {
        Trajectory { points: Vec::new() }
    }

    /// The number of points held, which never exceeds `CAPACITY`.
    pub fn len(&self) -> (n: usize)
        ensures
            n == self@.len(),
            n <= CAPACITY,
    {
        proof {
            use_type_invariant(self);
        }
        self.points.len()
    }

    /// Whether no point is held yet.
    pub fn is_empty(&self) -> (e: bool)
        ensures
            e == (self@.len() == 0),
    {
        self.points.len() == 0
    }

    /// Whether the cap is reached, so that further points are dropped.
    pub fn is_full(&self) -> (full: bool)
        ensures
            full == (self@.len() == CAPACITY),
            !full == (self@.len() < CAPACITY),
    {
        proof {
            use_type_invariant(self);
        }
        self.points.len() >= CAPACITY
    }

    /// Offers one point: it is appended while there is room, and dropped
    /// otherwise. Returns whether it was appended.
    pub fn record(&mut self, point: P) -> (stored: bool)
        ensures
            stored == (old(self)@.len() < CAPACITY),
            final(self)@ == appended(old(self)@, point),
    {
        if self.points.len() < CAPACITY {
            // The buffer is moved out whole, grown, and moved back, so that
            // the bound on its length is never observed broken.
            let mut taken = Trajectory { points: Vec::new() };
            core::mem::swap(self, &mut taken);
            let mut points = taken.points;
            points.push(point);
            *self = Trajectory { points };
            true
        } else {
            false
        }
    }

    /// The point at `index`, counted from the oldest, if there is one.
    pub fn get(&self, index: usize) -> (p: Option<&P>)
        ensures
            index < self@.len() ==> p == Some(&self@[index as int]),
            index >= self@.len() ==> p.is_none(),
    {
        if index < self.points.len() {
            Some(&self.points[index])
        } else {
            None
        }
    }

    /// All points held, oldest first.
    pub fn points(&self) -> (all: &Vec<P>)
        ensures
            all@ == self@,
    {
        &self.points
    }
}

/// Offering points one by one behaves as appending the whole run and then
/// cutting at the cap: the points held before stay in place, the offered
/// ones follow in the order they came, and whatever does not fit is dropped.
pub proof fn lemma_appended_all_is_truncated_concat<P>(points: Seq<P>, offered: Seq<P>)
    requires
        points.len() <= CAPACITY,
    ensures
        appended_all(points, offered) == (points + offered).take(
            length_after(points.len(), offered.len()) as int,
        ),
    decreases offered.len(),
{
    let target = length_after(points.len(), offered.len()) as int;
    if offered.len() == 0 {
        assert((points + offered).take(target) =~= points);
    } else {
        let next = appended(points, offered.first());
        let rest = offered.drop_first();
        lemma_appended_all_is_truncated_concat(next, rest);
        assert(length_after(next.len(), rest.len()) == target);
        assert((next + rest).take(target) =~= (points + offered).take(target));
    }
}

/// After `offered.len()` ticks a trajectory that held `points.len()` points
/// holds that many more, up to the cap and never beyond it.
pub proof fn lemma_length_after_ticks<P>(points: Seq<P>, offered: Seq<P>)
    requires
        points.len() <= CAPACITY,
    ensures
        appended_all(points, offered).len() == length_after(points.len(), offered.len()),
        appended_all(points, offered).len() <= CAPACITY,
{
    lemma_appended_all_is_truncated_concat(points, offered);
}

/// A full trajectory is frozen: however many further points are offered, it
/// stays as it is.
pub proof fn lemma_full_is_frozen<P>(points: Seq<P>, offered: Seq<P>)
    requires
        points.len() == CAPACITY,
    ensures
        appended_all(points, offered) == points,
{
    lemma_appended_all_is_truncated_concat(points, offered);
    assert((points + offered).take(points.len() as int) =~= points);
}

/// Growth is monotone and keeps what was there: the points held before are
/// a prefix of the points held after any run of ticks.
pub proof fn lemma_earlier_points_kept<P>(points: Seq<P>, offered: Seq<P>)
    requires
        points.len() <= CAPACITY,
    ensures
        points.len() <= appended_all(points, offered).len(),
        appended_all(points, offered).take(points.len() as int) == points,
{
    lemma_appended_all_is_truncated_concat(points, offered);
    let after = appended_all(points, offered);
    assert(after.take(points.len() as int) =~= points);
}

} // verus!
