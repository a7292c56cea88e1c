pub mod args;
pub mod build_param;
pub mod codec;
pub mod error;
pub mod jenkins;
pub mod job;
pub mod json;
pub mod log;
pub mod node;
pub mod path;
pub mod response;
pub mod text;
pub mod transport;
pub mod walk;
