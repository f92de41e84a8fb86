pub mod decoder;
pub mod mixer;
