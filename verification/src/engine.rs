pub mod engine;
pub mod scene;
