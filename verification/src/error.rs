pub mod engine_error;
pub mod source_error;
