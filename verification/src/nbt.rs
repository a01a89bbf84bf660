//! Named Binary Tag data: options, values, conversion from JSON, reading.
pub mod options;
pub mod value;
pub mod error;
pub mod json;
pub mod compression;
pub mod reader;
pub mod writer;
pub mod roundtrip;
pub mod json_laws;
