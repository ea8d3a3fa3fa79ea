//! Processors
pub mod ci_processor;
pub mod task_processor;
