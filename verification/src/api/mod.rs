pub mod login;
pub mod stream;
pub mod stream_types;
