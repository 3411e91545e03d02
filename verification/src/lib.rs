//! The verified core of a native InfluxDB connector.

pub mod codec;
pub mod config;
pub mod connections;
pub mod driver;
pub mod exchange;
pub mod json;
pub mod laws;
pub mod metadata;
pub mod numeral;
pub mod order;
pub mod replace;
pub mod request;
pub mod response;
pub mod rows;
pub mod session;
pub mod shape;
pub mod text;
pub mod tls;
pub mod url;
