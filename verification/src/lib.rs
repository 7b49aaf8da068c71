pub mod annotation;
pub mod colours;
pub mod data_loader;
pub mod data_section;
pub mod dummy_data;
pub mod parser;
pub mod render;
pub mod text;
