//! The engine of an installer that is driven by an install profile: a
//! document that lists libraries, data tokens and an ordered row of
//! processors. The engine resolves the profile's tokens to paths and
//! texts, says how each library and game file is fetched, and runs the
//! processors one after the other, each with its classpath and arguments.
//!
//! This crate decides and computes; it reads no file, asks no host and
//! starts no program. Whoever drives it does that, and hands back what
//! came of it.

pub mod archive;
pub mod cli;
pub mod download;
pub mod error;
pub mod libraries;
pub mod manifest;
pub mod maven;
pub mod meta;
pub mod mirrors;
pub mod path;
pub mod pipeline;
pub mod processors;
pub mod profile;
pub mod seqs;
pub mod side;
pub mod table;
pub mod text;
