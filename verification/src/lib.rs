//! Media transcoding: facts, policy, placement, validation and the commit ritual.
pub mod capability;
pub mod cli;
pub mod client;
pub mod commit;
pub mod convert;
pub mod document;
pub mod double;
pub mod error;
pub mod executor;
pub mod facts;
pub mod failure;
pub mod file;
pub mod handshake;
pub mod identity;
pub mod job;
pub mod journal;
pub mod message;
pub mod names;
pub mod pairs;
pub mod paths;
pub mod pb;
pub mod plan;
pub mod policy;
pub mod preflight;
pub mod preset;
pub mod probe;
pub mod probe_caps;
pub mod probe_samples;
pub mod run;
pub mod survey;
pub mod text;
pub mod validate;
pub mod workarea;
pub mod worker;
