//! Verified core of a Grok-centred realtime source reconnaissance tool:
//! response parsing into a source pack, configuration resolution, search
//! planning, request shaping and background-job bookkeeping.

pub mod json;
pub mod text;
pub mod source;
pub mod config;
pub mod paths;
pub mod cli;
pub mod artifact;
pub mod grok;
pub mod plan;
pub mod web_tools;
pub mod jobs;
pub mod doctor;
pub mod output;
