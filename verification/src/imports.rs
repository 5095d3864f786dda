//! Importing project material: classification, drafting and the job pipeline.

pub mod agent;
pub mod archive;
pub mod classify;
pub mod draft;
pub mod extractors;
pub mod fields;
pub mod jobs;
pub mod names;
pub mod ooxml;
pub mod requests;
