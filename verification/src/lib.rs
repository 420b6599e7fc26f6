//! A command-line argument tokenizer with machine-checked contracts.
//!
//! The [`low`] module classifies raw argument tokens into options,
//! positional arguments and errors, following the POSIX/GNU conventions for
//! short-option clusters and `--name[=value]` long options. Its behaviour
//! is stated once, as mathematics, in [`low::model`], and every tokenizer
//! is proved to do what the model says.
//!
//! On top of it, [`Config`], [`Arg`] and [`Iter`] describe a program's
//! arguments with an action each and parse a command line into the values
//! that the actions return.

pub mod arg;
pub mod config;
pub mod error;
pub mod iter;
pub mod low;
pub mod util;

pub use arg::Arg;
pub use config::Config;
pub use error::Error;
pub use iter::Iter;
