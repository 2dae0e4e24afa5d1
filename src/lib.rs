//! Simulation core of a brick-breaking arcade game: ball, paddle, brick grid,
//! aim pointer and the round state machine, in fixed-point integer geometry.

pub mod ball;
pub mod brick;
pub mod entities;
pub mod geometry;
pub mod instance;
pub mod paddle;
pub mod pointer;
pub mod scene;
pub mod state;
