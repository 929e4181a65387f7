//! Verified core of a Double-DQN trainer for the game of snake.
//!
//! - [`rng`]: the deterministic generator behind weight initialisation,
//!   exploration, replay sampling and food placement.
//! - [`ieee`]: single-precision values as bit patterns, with their order,
//!   their value, and the guards and selections that need no arithmetic.
//! - [`codec`]: little-endian words and arrays of words.
//! - [`linear`], [`relu`], [`network`]: the parameter store of the
//!   three-layer perceptron and its checkpoint.
//! - [`replay`]: the replay memory.
//! - [`agent`]: the agent's state and the decisions of its protocol.
//! - [`snake`], [`food`], [`border`], [`game`]: the environment.
//! - [`render`], [`control`]: the picture of a game and the keys of its
//!   window.
//!
//! Real numbers are carried through this crate as the 32-bit patterns of
//! single-precision values, so that every stored parameter, every guard and
//! every byte of a checkpoint is exact. Arithmetic that rounds is left to
//! the caller: the forward and backward passes, the optimiser step, the
//! blend of the target network and the interpolation of the schedule.

pub mod agent;
pub mod border;
pub mod codec;
pub mod control;
pub mod food;
pub mod game;
pub mod ieee;
pub mod linear;
pub mod network;
pub mod relu;
pub mod render;
pub mod replay;
pub mod rng;
pub mod snake;
