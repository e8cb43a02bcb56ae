//! The discrete core of an interactive viewer for the Lorenz attractor.
//!
//! The viewer integrates the attractor one step per tick, keeps the emitted
//! points in a bounded trajectory, and draws them from a free-fly camera.
//! This crate holds the parts of that loop that are exact: the trajectory
//! buffer and its cap, the set of held movement keys and the movement they
//! add up to, the alternation of the two sprites, and the per-tick plan that
//! ties them together. The numeric work on real-valued coordinates is left
//! to the caller, so the types here are generic in the point they store.

pub mod keys;
pub mod session;
pub mod sprite;
pub mod trajectory;

pub use keys::{Amount, Direction, HeldKeys};
pub use session::{KeyEvent, Session, TickPlan};
pub use sprite::Sprite;
pub use trajectory::{Trajectory, CAPACITY};
