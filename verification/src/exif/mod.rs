pub mod jpeg;
pub mod writer;
pub mod repair;
pub mod validator;
pub mod reader;
pub mod formatter;
