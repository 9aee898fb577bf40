//! The terminal itself: its descriptors and the queries it answers.

pub mod file_descriptor;
pub mod probe;
pub mod query;
pub mod startup;
pub mod startup_laws;
pub mod startup_results;
pub mod startup_step_laws;
