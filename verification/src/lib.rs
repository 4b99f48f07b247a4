//! A guessing toy: the player types the binary digits of a secret number
//! while an animated snowman reacts to keys and clicks.
//!
//! This crate holds the rules of the toy: the animation state machine, the
//! shape morphing, the hat that rests on the changing outline, and the puzzle
//! itself. All lengths are fixed-point integers, counted in thousandths of a
//! model unit, so that every rule can be stated and proved exactly. Drawing,
//! events and timing belong to the program around the library.
pub mod game;
