//! A cellular-automaton kernel: a bit-packed grid stepped in place under the
//! birth-on-three, survive-on-two-or-three rule, with a toroidal or a
//! Klein-bottle edge identification.

pub mod cell;
pub mod kernel;
pub mod laws;
pub mod noise;
pub mod topology;
pub mod universe;
