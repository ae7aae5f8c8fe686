//! Native command-line interfaces for tool registries.
//!
//! A registry's tool definitions become a tree of `clap` commands, and the selected command's
//! arguments become the JSON object that the registry parses.

pub mod adapter;
pub mod buildable;
pub mod clap_model;
pub mod distinct;
pub mod flatten;
pub mod generate;
pub mod help;
pub mod names;
pub mod options;
pub mod problem;
pub mod reach;
pub mod reading;
pub mod rebuild;
pub mod render;
pub mod schema;
pub mod selecting;
pub mod shown;
pub mod words;

pub use adapter::{Cli, CliBuilder, Invocation, ToolRegistryExt};
pub use options::{ImageMode, InputData, OutputMode, OutputOptions};
pub use problem::{CliBuildError, CliBuildProblem, CliError, CliErrorKind};
pub use render::{present, Artifact, Payload, Rendering};
