//! The deciding part of a small runner of recurring jobs.
//!
//! A job is a named list of commands with a cron schedule and rules that say
//! which files to keep from each run. This library decides: when a job is
//! due (`schedule`, `cron`), what a run does next (`job`), where its files
//! go (`clock`, `job`), and which files of a workspace are kept (`artifact`,
//! `pattern`). It starts no process and touches no file: a program around
//! it performs what is decided and reports back.

pub mod artifact;
pub mod clock;
pub mod config;
pub mod cron;
pub mod job;
pub mod pattern;
pub mod schedule;
pub mod text;
