//! Assembling an Android application package from native libraries, resources
//! and a manifest, as a pipeline of typed build states.
//!
//! The library starts no process and touches no file. Each operation of the
//! pipeline is a [`job::Job`]: an ordered list of actions for the caller to
//! carry out, one at a time, reporting what happened after each. The job
//! decides what comes next, and hands over the next build state only when
//! every action has succeeded.

pub mod apk;
pub mod command;
pub mod error;
pub mod job;
pub mod manifest;
pub mod ndk;
pub mod path;
pub mod ports;
pub mod runtime;
pub mod staged;
pub mod target;
pub mod text;
pub mod uid;
