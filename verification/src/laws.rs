//! What the tools are for, stated of all inputs.
//!
//! Each law says in plain terms what must hold of the results of the operations:
//! what is found is found everywhere, what is chosen is what is acted on, and
//! nothing is left out in between.

pub mod counting;
pub mod documents;
pub mod ejecting;
pub mod joining;
pub mod launcher;
pub mod profiling;
pub mod reporting;
pub mod showing;
pub mod texts;
