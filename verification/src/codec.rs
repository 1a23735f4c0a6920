pub mod light_records;
pub mod records;
pub mod text;
