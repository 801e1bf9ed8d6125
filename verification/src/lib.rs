pub mod check;
pub mod client;
pub mod config;
pub mod dispatcher;
pub mod driver;
pub mod framer;
pub mod pattern;
pub mod result;
pub mod server;
pub mod supervisor;
pub mod template;
pub mod text;
pub mod threshold;
pub mod waker;
pub mod webclient;

pub use crate::result::{CommandParams, CommandResult};
