pub mod parser;
pub mod requests;
pub mod shims;
pub mod text;
pub mod types;
pub mod utilities;
