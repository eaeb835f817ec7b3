//! A modular synthesizer engine: a patch of signal-processing modules, the
//! planner that orders them for block-wise evaluation, and the state machines
//! that drive each module from one sample to the next.
//!
//! Samples are carried as IEEE-754 binary32 bit patterns.  The library moves,
//! compares and stores them; every arithmetic operation on a sample is handed
//! in by the caller as a function value, and the contracts say where its
//! results end up.

pub mod engine;
pub mod patch;
pub mod run;
pub mod synth;
pub mod ui;
