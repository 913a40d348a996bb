//! Judgement core of an adversarial test harness for an SVG thumbnail provider.

pub mod corpus;
pub mod gzip;
pub mod hresult;
pub mod metrics;
pub mod numbers;
pub mod report;
pub mod rng;
pub mod streams;
pub mod suites;
pub mod supervisor;
pub mod text;
pub mod thumb;
pub mod thumb_driver;
pub mod unload_harness;
