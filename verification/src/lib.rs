//! Control-flow executor of an interactive command shell.
//!
//! The executor consumes parsed statements, accumulates compound blocks that
//! span several input lines, and runs complete statements as a resumable
//! machine: every piece of outside work (running a pipeline, expanding a
//! word, polling for a signal) is handed to the embedding shell as a
//! [`shell::Request`] and answered with a [`shell::Reply`].
//!
//! The modules, from the leaves up:
//!
//! - [`ast`]: the statement tree and its mathematical view;
//! - [`text`]: decimal numbers, lines and diagnostics;
//! - [`flow_control`]: the accumulator and the block collectors;
//! - [`functions`]: the table of declared functions;
//! - [`shell`]: the state of the machine and its transition function;
//! - [`flow`]: the operations of the executor;
//! - [`balance`], [`collect_laws`]: laws of the collectors;
//! - [`laws`], [`runs`], [`wellformed`]: laws of the machine.

pub mod ast;
pub mod balance;
pub mod collect_laws;
pub mod flow;
pub mod flow_control;
pub mod functions;
pub mod laws;
pub mod runs;
pub mod shell;
pub mod text;
pub mod wellformed;
