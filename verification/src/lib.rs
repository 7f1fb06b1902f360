pub mod cache;
pub mod error;
pub mod img;
pub mod text;
pub mod metadata;
pub mod models;
