//! The tokenizer and the configurations that drive it.

pub mod config;
pub mod flag;
pub mod iter_iter;
pub mod laws;
pub mod model;
pub mod policy;
pub mod slice_iter;
pub mod text;

pub use self::config::{Config, FnConfig, HashConfig};
pub use self::flag::{Flag, IntoFlag};
pub use self::policy::{IntoPolicy, IntoPresence, Policy, Presence};
