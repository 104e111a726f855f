//! Verified core of the sense-maxer input validation and aim lab: raw mouse
//! sample bookkeeping, trial clocks and screen state, deterministic target
//! placement, telemetry identifiers, movement segmentation and condition
//! comparison rules.

pub mod types;
pub mod integrity;
pub mod queue;
pub mod ids;
pub mod civil;
pub mod rng;
pub mod gridshot;
pub mod trial;
pub mod lab;
pub mod tracking;
pub mod segment;
pub mod analysis;
pub mod acquisition;
pub mod processor;
pub mod run;
pub mod scope;
pub mod compare;
pub mod flick;
pub mod task_config;
pub mod session;
pub mod replay;
