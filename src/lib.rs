pub mod config;
pub mod document;
pub mod endpoints;
pub mod field;
pub mod health;
pub mod lifecycle;
pub mod orchestrator;
pub mod report;
pub mod stage;
pub mod text;
pub mod transform;

pub use config::ConfigSpec;
pub use field::{Field, FieldType};
