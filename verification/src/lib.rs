//! A minimal continuous-delivery agent, with its decision logic verified.
//!
//! The library holds the logic of the agent: the hierarchical secret store
//! with `{{dotted.path}}` interpolation, the job manifest model and
//! reference matching, the post-receive pipeline that turns one push
//! notification into executed jobs and notification orders, and the
//! hook-file inspection of the repository indexer. The surrounding binary
//! performs the I/O (HTTP, git subprocesses, SMTP) and feeds the results
//! back in as plain values.

pub mod api;
pub mod config;
pub mod definition;
pub mod git;
pub mod pipeline;
pub mod repos;
pub mod runner;
pub mod secrets;
pub mod strutil;

