//! Fading trails for particles of a chaotic flow: the bounded history of
//! segments, the instance records that carry it to the GPU, the draw that
//! shows it, and the run that feeds it.
//!
//! The crate computes with integers only. A time is kept in whole
//! microseconds for the rules that compare it. Every quantity that the
//! shader reads as a single-precision number is kept as that number's 32-bit
//! pattern and is never interpreted here.

pub mod segment;
pub mod trails;
pub mod instance;
pub mod draw;
pub mod config;
pub mod simulation;
