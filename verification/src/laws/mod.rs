//! What holds of the connector as a whole.

pub mod address;
pub mod calls;
pub mod exchanges;
pub mod models;
pub mod options;
pub mod redaction;
pub mod replies;
pub mod security;
pub mod settings;
pub mod tables;
pub mod texts;
