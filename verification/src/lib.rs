//! Job lifecycle engine of a media ingest service.
//!
//! Clients submit the URL of a video; the service downloads it, transcodes
//! it to a normalised MP4 and keeps the result for retrieval by job
//! identifier. This crate holds the rules of that service, each with a
//! machine-checked contract: the table of jobs and its status transitions,
//! the bounded priority queue, the retry policy, the two stages, input
//! validation, and the rules of the working directory. The surrounding
//! program does the waiting: it serves HTTP, runs the subprocesses, reads
//! directories and writes the database, and asks this crate what to do.
//!
//! - [`engine`], [`runner`], [`restore`]: submissions, cancellations,
//!   listings, the run of one job, and the restore after a restart.
//! - [`store`], [`status`], [`job`]: the table of job rows.
//! - [`queue`]: waiting and running jobs.
//! - [`retry`]: backoff and the classification of failures.
//! - [`download`], [`process`], [`cleanup`], [`storage`]: the stages and
//!   their files.
//! - [`security`], [`url_rules`], [`host_rules`], [`url_parts`], [`auth`]:
//!   what is accepted from clients.
//! - [`config`], [`database`], [`parse`], [`text`]: settings and text.
//! - [`routes`], [`error`], [`middleware`], [`monitoring`], [`metrics`],
//!   [`pool`], [`retention`]: the edges of the service.
//! - [`store_laws`], [`engine_laws`]: what holds over any run of operations.

pub mod auth;
pub mod cleanup;
pub mod config;
pub mod database;
pub mod download;
pub mod engine;
pub mod engine_laws;
pub mod error;
pub mod host_rules;
pub mod job;
pub mod metrics;
pub mod middleware;
pub mod monitoring;
pub mod parse;
pub mod pool;
pub mod process;
pub mod queue;
pub mod restore;
pub mod retention;
pub mod retry;
pub mod routes;
pub mod runner;
pub mod security;
pub mod status;
pub mod storage;
pub mod store;
pub mod store_laws;
pub mod text;
pub mod url_parts;
pub mod url_rules;
