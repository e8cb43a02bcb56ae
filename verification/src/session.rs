//! One viewing session: the trajectory recorded so far and the keys held,
//! driven by key events and ticks.

use vstd::prelude::*;
use crate::keys::{in_order, Direction, HeldKeys};
use crate::trajectory::{appended, Trajectory, CAPACITY};

verus! {

/// A change in what the user holds down.
#[derive(Clone, Copy, Debug, PartialEq, Eq, Structural)]
pub enum KeyEvent {
    Pressed(Direction),
    Released(Direction),
}

/// The set of held keys after a key event.
pub open spec fn keys_after(held: Set<Direction>, event: KeyEvent) -> Set<Direction> {
    match event {
        KeyEvent::Pressed(d) => held.insert(d),
        KeyEvent::Released(d) => held.remove(d),
    }
}

/// What one tick asks of the caller.
pub struct TickPlan {
    /// Whether the attractor is to be advanced by one step and the point it
    /// emits handed to `Session::record`. False once the trajectory is full.
    pub advance: bool,
    /// The held keys whose movements are to be applied to the camera, in
    /// order.
    pub moves: Vec<Direction>,
}

/// The state of a session that the numeric work does not own.
pub struct Session<P> {
    trajectory: Trajectory<P>,
    keys: HeldKeys,
}

impl<P> Session<P> {
    /// The points recorded so far, oldest first.
    pub closed spec fn points(&self) -> Seq<P> {
        self.trajectory@
    }

    /// The keys held at the moment.
    pub closed spec fn held(&self) -> Set<Direction> {
        self.keys@
    }

    /// A session with nothing recorded and no key held.
    pub fn new() -> (s: Self)
        ensures
            s.points() == Seq::<P>::empty(),
            s.held() == Set::<Direction>::empty(),
    {
        Session { trajectory: Trajectory::new(), keys: HeldKeys::new() }
    }

    /// Takes a key event: a press adds the key to the held set, a release
    /// removes it. The trajectory is left alone.
    pub fn on_input(&mut self, event: KeyEvent)
        ensures
            final(self).held() == keys_after(old(self).held(), event),
            final(self).points() == old(self).points(),
    {
        match event {
            KeyEvent::Pressed(d) => {
                self.keys.press(d);
            },
            KeyEvent::Released(d) => {
                self.keys.release(d);
            },
        }
    }

    /// Plans one tick: the attractor advances while the trajectory has room,
    /// and the camera moves by every held key.
    pub fn on_tick(&self) -> (plan: TickPlan)
        ensures
            plan.advance == (self.points().len() < CAPACITY),
            plan.moves@ == in_order(self.held()),
    {
        TickPlan { advance: !self.trajectory.is_full(), moves: self.keys.held() }
    }

    /// Offers the point that the attractor emitted on this tick. It is
    /// appended while there is room and dropped otherwise; the held keys are
    /// left alone. Returns whether it was appended.
    pub fn record(&mut self, point: P) -> (stored: bool)
        ensures
            stored == (old(self).points().len() < CAPACITY),
            final(self).points() == appended(old(self).points(), point),
            final(self).held() == old(self).held(),
    {
        self.trajectory.record(point)
    }

    /// The trajectory, for drawing.
    pub fn trajectory(&self) -> (t: &Trajectory<P>)
        ensures
            t@ == self.points(),
    {
        &self.trajectory
    }

    /// The held keys.
    pub fn keys(&self) -> (k: &HeldKeys)
        ensures
            k@ == self.held(),
    {
        &self.keys
    }
}

} // verus!
