//! The two sprites that the points of a trajectory are drawn with in turn.

use vstd::prelude::*;

verus! {

/// One of the two interchangeable sprites.
#[derive(Clone, Copy, Debug, PartialEq, Eq, Structural)]
pub enum Sprite {
    A,
    B,
}

/// The sprite of the point at position `i` of the trajectory: the oldest
/// point takes sprite A, and the two alternate from there.
pub open spec fn sprite_at(i: nat) -> Sprite {
    if i % 2 == 0 {
        Sprite::A
    } else {
        Sprite::B
    }
}

impl Sprite {
    /// The other sprite.
    pub open spec fn flipped(self) -> Sprite {
        match self {
            Sprite::A => Sprite::B,
            Sprite::B => Sprite::A,
        }
    }

    /// The position of this sprite among the loaded images: 0 or 1.
    pub open spec fn slot(self) -> nat {
        match self {
            Sprite::A => 0,
            Sprite::B => 1,
        }
    }

    /// The sprite of the oldest point.
    pub fn first() -> (s: Sprite)
        ensures
            s == sprite_at(0),
    {
        Sprite::A
    }

    /// The sprite of the point that follows one drawn with this sprite.
    pub fn next(self) -> (s: Sprite)
        ensures
            s == self.flipped(),
    {
        match self {
            Sprite::A => Sprite::B,
            Sprite::B => Sprite::A,
        }
    }

    /// The sprite of the point at position `i`.
    pub fn at(i: usize) -> (s: Sprite)
        ensures
            s == sprite_at(i as nat),
    {
        if i % 2 == 0 {
            Sprite::A
        } else {
            Sprite::B
        }
    }

    /// The position of this sprite among the loaded images.
    pub fn index(self) -> (i: usize)
        ensures
            i == self.slot(),
            i == 0 || i == 1,
    {
        match self {
            Sprite::A => 0,
            Sprite::B => 1,
        }
    }
}

/// Successive points never share a sprite: stepping with `next` from the
/// first sprite visits exactly the sprites that `at` assigns by position.
pub proof fn lemma_sprites_alternate(i: nat)
    ensures
        sprite_at(i + 1) == sprite_at(i).flipped(),
        sprite_at(i + 1) != sprite_at(i),
        sprite_at(i).slot() == i % 2,
{
}

} // verus!
