//! Cycle-accurate simulator for the Y86-64 instruction set.
//!
//! An architecture is described in a small hardware control language
//! ([`hcl`]): signals that are computed from the outputs of functional units
//! ([`hardware`]) and from stage registers, and that drive the inputs of the
//! units and the registers' next values. From a description the framework
//! ([`framework`]) computes an order in which every unit and signal is
//! evaluated once in a cycle, and runs the cycles. The architectures that
//! come with the simulator are in [`architectures`].
//!
//! [`isa`] holds the instruction set and an interpreter that executes one
//! instruction at a time, [`object`] and [`assembler`] turn assembly text
//! into a memory image, [`tester`] compares an architecture with the
//! interpreter, [`debugger`] steps a program under the control of a
//! debugging client, and [`webapp`] keeps the records that a view of the
//! pipeline draws from.
pub mod architectures;
pub mod assembler;
pub mod debugger;
pub mod framework;
pub mod hardware;
pub mod hcl;
pub mod isa;
pub mod object;
pub mod signal;
pub mod tester;
pub mod text;
pub mod utils;
pub mod webapp;
