//! The simulation core of a side-scrolling arcade game: a bird that falls and
//! jumps, pipes that scroll past it and are recycled off screen, a classifier
//! for the contacts that the physics engine reports, and the session that
//! freezes on death and starts over on request.
//!
//! The crate holds no engine. A host advances the bodies, reports contacts and
//! key presses, and draws; everything here works on plain integers in world
//! units.

pub mod collision;
pub mod config;
pub mod geometry;
pub mod invariants;
pub mod pipe;
pub mod player;
pub mod random;
pub mod recycler;
pub mod score_text;
pub mod session;
