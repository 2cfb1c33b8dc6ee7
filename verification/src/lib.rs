//! A search tool's engine: it walks a directory tree under filter rules,
//! compiles one search pattern, and reports the directories, files and
//! lines that match it.
//!
//! - [`rules`] holds the filter rules and what they decide about a path.
//! - [`config`] holds the commands that change the persisted rules.
//! - [`args`] turns the mode flags of a run into the modes in force.
//! - [`pattern`] builds and compiles the regular expression of a search.
//! - [`walk`] lists the entries below a root, in the order of the walk.
//! - [`report`] says which rows a search reports for an entry.
//! - [`laws`] states what holds across these.
//! - [`text`] and [`path`] hold the text operations underneath.

pub mod args;
pub mod config;
pub mod entry;
pub mod laws;
pub mod path;
pub mod pattern;
pub mod report;
pub mod rules;
pub mod text;
pub mod walk;
