//! The puzzle-evaluation engine of a "black box" puzzle: a register
//! interpreter for button scripts, edge detection on button input, and the
//! matcher that decides when a box's output stream completes its prompt.
//!
//! - [`num`]: single-precision values held as bit patterns, and what is read
//!   off a pattern exactly (zero, NaN, equality, tolerance, truncation).
//! - [`output`]: the values a box emits.
//! - [`actions`]: the script language and its interpreter. The rounding
//!   arithmetic is supplied by the caller as a function of the operation and
//!   the operands; the interpreter is proved against a semantics that takes
//!   that arithmetic as a parameter.
//! - [`pressable`]: press/release edge detection.
//! - [`progression`]: restart-on-mismatch matching of outputs against a
//!   prompt, with a completion signal given once.
//! - [`boxes`]: a box with its registers, buttons and progression, level-data
//!   validation, and one tick of input.
//! - [`levels`]: the number of the level being played.
pub mod actions;
pub mod boxes;
pub mod levels;
pub mod num;
pub mod output;
pub mod pressable;
pub mod progression;
