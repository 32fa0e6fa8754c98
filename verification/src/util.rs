pub mod amount;
pub mod decimal;
pub mod text;
