pub mod broker;
pub mod command;
pub mod fields;
pub mod header;
pub mod laws;
pub mod plain;
pub mod request_code;
