//! The core of a behaviour-driven test runner.
//!
//! A test file is a list of steps written as prose. Each line is read into a
//! pattern of literal text, quoted values and named variables ([`parser`],
//! [`segments`]). A registry holds the capabilities that a line can name,
//! each under the pattern that defines it ([`registry`], [`definitions`]),
//! and suggests the closest definitions for a line that names none
//! ([`suggest`], [`report`]). The arguments of a line are bound to the
//! variables of the definition, and placeholders are replaced in them
//! ([`args`]). The steps of a file run in order in a sandbox of their own
//! ([`runner`], [`civilization`]), references to other files run in place
//! ([`universe`]), and the snapshots that a run has retrieved are written back
//! into the document of the file ([`writer`]).
//!
//! The functions are verified against their contracts, which are stated over
//! the mathematical values of the data: texts as sequences of characters,
//! JSON values, patterns and steps. The few functions that call into other
//! crates are not verified but believed, and their comments say what is
//! believed of them.

pub mod args;
pub mod civilization;
pub mod definitions;
pub mod differ;
pub mod errors;
pub mod interactive;
pub mod json;
pub mod logging;
pub mod options;
pub mod parser;
pub mod registry;
pub mod report;
pub mod runner;
pub mod scenarios;
pub mod scheduler;
pub mod segments;
pub mod steps;
pub mod suggest;
pub mod text;
pub mod universe;
pub mod writer;
