//! The report of a training run.

pub mod html;
pub mod plot;
pub mod report;
