//! What each suite asks of the provider, and how its answers are judged.
//!
//! The calls into the provider are made elsewhere; every function here takes
//! what was observed and records the checks that follow from it.

pub mod adversarial;
pub mod api_misuse;
pub mod breadth;
pub mod case_names;
pub mod cases;
pub mod churn;
pub mod concurrency;
pub mod lifecycle;
pub mod render;
pub mod stream_faults;
pub mod walk;
