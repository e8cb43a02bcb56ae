//! The movement keys that are held down, and the movement they add up to.

use vstd::prelude::*;

verus! {

/// One of the four movement keys.
#[derive(Clone, Copy, Debug, PartialEq, Eq, Structural)]
pub enum Direction {
    /// Along the camera's forward direction.
    Forward,
    /// Against the camera's forward direction.
    Back,
    /// Against the camera's side direction.
    Right,
    /// Along the camera's side direction.
    Left,
}

/// A movement in units of the camera's two horizontal basis vectors:
/// `ahead` scales the forward direction, `side` scales the side direction
/// (forward crossed with world-up).
#[derive(Clone, Copy, Debug, PartialEq, Eq, Structural)]
pub struct Amount {
    pub side: i8,
    pub ahead: i8,
}

/// How far one key moves along the side direction: +1, -1 or 0.
pub open spec fn side_of(d: Direction) -> int {
    match d {
        Direction::Left => 1,
        Direction::Right => -1,
        _ => 0,
    }
}

/// How far one key moves along the forward direction: +1, -1 or 0.
pub open spec fn ahead_of(d: Direction) -> int {
    match d {
        Direction::Forward => 1,
        Direction::Back => -1,
        _ => 0,
    }
}

/// The held keys among `held`, in the fixed order in which their movements
/// are applied: forward, back, right, left.
pub open spec fn in_order(held: Set<Direction>) -> Seq<Direction> {
    only_if_held(held, Direction::Forward) + only_if_held(held, Direction::Back) + only_if_held(
        held,
        Direction::Right,
    ) + only_if_held(held, Direction::Left)
}

/// The one-element sequence of `d` if it is held, the empty one if not.
pub open spec fn only_if_held(held: Set<Direction>, d: Direction) -> Seq<Direction> {
    if held.contains(d) {
        seq![d]
    } else {
        Seq::empty()
    }
}

/// The side movements of a run of keys, added up.
pub open spec fn total_side(moves: Seq<Direction>) -> int
    decreases moves.len(),
{
    if moves.len() == 0 {
        0
    } else {
        total_side(moves.drop_last()) + side_of(moves.last())
    }
}

/// The forward movements of a run of keys, added up.
pub open spec fn total_ahead(moves: Seq<Direction>) -> int
    decreases moves.len(),
{
    if moves.len() == 0 {
        0
    } else {
        total_ahead(moves.drop_last()) + ahead_of(moves.last())
    }
}

/// The side movement of a set of held keys: each held key counts once.
pub open spec fn net_side(held: Set<Direction>) -> int {
    (if held.contains(Direction::Left) { 1int } else { 0int })
    - (if held.contains(Direction::Right) { 1int } else { 0int })
}

/// The forward movement of a set of held keys: each held key counts once.
pub open spec fn net_ahead(held: Set<Direction>) -> int {
    (if held.contains(Direction::Forward) { 1int } else { 0int })
    - (if held.contains(Direction::Back) { 1int } else { 0int })
}

impl Direction {
    /// The movement this key stands for, as a unit amount.
    pub fn amount(self) -> (a: Amount)
        ensures
            a.side == side_of(self),
            a.ahead == ahead_of(self),
    {
        match self {
            Direction::Forward => Amount { side: 0, ahead: 1 },
            Direction::Back => Amount { side: 0, ahead: -1 },
            Direction::Right => Amount { side: -1, ahead: 0 },
            Direction::Left => Amount { side: 1, ahead: 0 },
        }
    }
}

/// The set of movement keys that are currently held down. A key is in the
/// set once, however often it was pressed.
#[derive(Clone, Copy, Debug)]
pub struct HeldKeys {
    forward: bool,
    back: bool,
    right: bool,
    left: bool,
}

impl HeldKeys {
    spec fn flag(self, d: Direction) -> bool {
        match d {
            Direction::Forward => self.forward,
            Direction::Back => self.back,
            Direction::Right => self.right,
            Direction::Left => self.left,
        }
    }
}

impl View for HeldKeys {
    type V = Set<Direction>;

    closed spec fn view(&self) -> Set<Direction> {
        Set::new(|d: Direction| self.flag(d))
    }
}

impl HeldKeys {
    /// No key held.
    pub fn new() -> (keys: Self)
        ensures
            keys@ == Set::<Direction>::empty(),
    {
        let keys = HeldKeys { forward: false, back: false, right: false, left: false };
        assert(keys@ =~= Set::<Direction>::empty());
        keys
    }

    /// Whether `d` is held.
    pub fn is_held(&self, d: Direction) -> (held: bool)
        ensures
            held == self@.contains(d),
    {
        match d {
            Direction::Forward => self.forward,
            Direction::Back => self.back,
            Direction::Right => self.right,
            Direction::Left => self.left,
        }
    }

    /// Marks `d` as held. Returns whether it was not held before.
    pub fn press(&mut self, d: Direction) -> (added: bool)
        ensures
            final(self)@ == old(self)@.insert(d),
            added == !old(self)@.contains(d),
    {
        let added = !self.is_held(d);
        match d {
            Direction::Forward => {
                self.forward = true;
            },
            Direction::Back => {
                self.back = true;
            },
            Direction::Right => {
                self.right = true;
            },
            Direction::Left => {
                self.left = true;
            },
        }
        assert(self@ =~= old(self)@.insert(d));
        added
    }

    /// Marks `d` as no longer held. Returns whether it was held before.
    pub fn release(&mut self, d: Direction) -> (removed: bool)
        ensures
            final(self)@ == old(self)@.remove(d),
            removed == old(self)@.contains(d),
    {
        let removed = self.is_held(d);
        match d {
            Direction::Forward => {
                self.forward = false;
            },
            Direction::Back => {
                self.back = false;
            },
            Direction::Right => {
                self.right = false;
            },
            Direction::Left => {
                self.left = false;
            },
        }
        assert(self@ =~= old(self)@.remove(d));
        removed
    }

    /// The held keys, each once, in the order forward, back, right, left.
    pub fn held(&self) -> (moves: Vec<Direction>)
        ensures
            moves@ == in_order(self@),
    {
        let mut moves: Vec<Direction> = Vec::new();
        if self.forward {
            moves.push(Direction::Forward);
        }
        assert(moves@ =~= only_if_held(self@, Direction::Forward));
        let ghost one = moves@;
        if self.back {
            moves.push(Direction::Back);
        }
        assert(moves@ =~= one + only_if_held(self@, Direction::Back));
        let ghost two = moves@;
        if self.right {
            moves.push(Direction::Right);
        }
        assert(moves@ =~= two + only_if_held(self@, Direction::Right));
        let ghost three = moves@;
        if self.left {
            moves.push(Direction::Left);
        }
        assert(moves@ =~= three + only_if_held(self@, Direction::Left));
        moves
    }

    /// The movement that all held keys add up to. Keys that oppose each
    /// other cancel; a forward key and a side key held together give the
    /// plain sum of the two, which is not scaled back to unit length.
    pub fn net_amount(&self) -> (net: Amount)
        ensures
            net.side == net_side(self@),
            net.ahead == net_ahead(self@),
    {
        let mut side: i8 = 0;
        let mut ahead: i8 = 0;
        if self.forward {
            ahead = ahead + 1;
        }
        if self.back {
            ahead = ahead - 1;
        }
        if self.left {
            side = side + 1;
        }
        if self.right {
            side = side - 1;
        }
        Amount { side, ahead }
    }
}

/// Holding two disjoint sets of keys at once moves by the sum of what each
/// set moves by on its own: movements compose by addition, with nothing
/// renormalised.
pub proof fn lemma_net_amount_is_additive(a: Set<Direction>, b: Set<Direction>)
    requires
        a.disjoint(b),
    ensures
        net_side(a.union(b)) == net_side(a) + net_side(b),
        net_ahead(a.union(b)) == net_ahead(a) + net_ahead(b),
{
    assert(!(a.contains(Direction::Forward) && b.contains(Direction::Forward)));
    assert(!(a.contains(Direction::Back) && b.contains(Direction::Back)));
    assert(!(a.contains(Direction::Right) && b.contains(Direction::Right)));
    assert(!(a.contains(Direction::Left) && b.contains(Direction::Left)));
}

/// The net movement of a set of held keys is the sum of the unit movements
/// of its keys, taken one by one in the order in which they are handed out.
pub proof fn lemma_net_amount_sums_held_keys(held: Set<Direction>)
    ensures
        total_side(in_order(held)) == net_side(held),
        total_ahead(in_order(held)) == net_ahead(held),
{
    let f = only_if_held(held, Direction::Forward);
    let b = only_if_held(held, Direction::Back);
    let r = only_if_held(held, Direction::Right);
    let l = only_if_held(held, Direction::Left);
    lemma_totals_of_concat(f, b);
    lemma_totals_of_concat(f + b, r);
    lemma_totals_of_concat(f + b + r, l);
    lemma_totals_of_at_most_one(held, Direction::Forward);
    lemma_totals_of_at_most_one(held, Direction::Back);
    lemma_totals_of_at_most_one(held, Direction::Right);
    lemma_totals_of_at_most_one(held, Direction::Left);
}

/// The totals of a run of keys followed by another are the sums of the
/// totals of the two runs.
proof fn lemma_totals_of_concat(first: Seq<Direction>, second: Seq<Direction>)
    ensures
        total_side(first + second) == total_side(first) + total_side(second),
        total_ahead(first + second) == total_ahead(first) + total_ahead(second),
    decreases second.len(),
{
    if second.len() == 0 {
        assert(first + second =~= first);
    } else {
        lemma_totals_of_concat(first, second.drop_last());
        assert((first + second).drop_last() =~= first + second.drop_last());
        assert((first + second).last() == second.last());
    }
}

proof fn lemma_totals_of_at_most_one(held: Set<Direction>, d: Direction)
    ensures
        total_side(only_if_held(held, d)) == if held.contains(d) {
            side_of(d)
        } else {
            0
        },
        total_ahead(only_if_held(held, d)) == if held.contains(d) {
            ahead_of(d)
        } else {
            0
        },
{
    let s = only_if_held(held, d);
    if held.contains(d) {
        assert(s.drop_last() =~= Seq::<Direction>::empty());
        assert(s.last() == d);
        assert(total_side(s.drop_last()) == 0);
        assert(total_ahead(s.drop_last()) == 0);
    }
}

} // verus!
