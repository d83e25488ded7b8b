//! Scans JavaScript sources for uses of modern syntax and runtime-API
//! features and resolves each detected feature to the minimum browser
//! versions that support it, using a community compatibility dataset.

pub mod bcd;
pub mod cache;
pub mod features;
pub mod laws;
pub mod pipeline;
pub mod report;
pub mod resolver;
pub mod scan;
pub mod targets;
pub mod text;
