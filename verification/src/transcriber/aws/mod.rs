//! The Amazon Transcribe streaming service.

pub mod eventstream;
pub mod signing;
pub mod request;
pub mod response;
pub mod model;
pub mod speech;
pub mod run;
