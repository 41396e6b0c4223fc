//! A configuration-driven command dispatcher: named command definitions with
//! template placeholders, run as a strictly ordered pre/main/post pipeline.

pub mod aggregation;
pub mod cells;
pub mod details;
pub mod error;
pub mod escaping;
pub mod invocation;
pub mod learning;
pub mod locate;
pub mod messages;
pub mod model;
pub mod pipeline;
pub mod runs;
pub mod stages;
pub mod step;
pub mod system;
pub mod template;
pub mod text;
