//! Infers Pydantic model declarations from an example JSON document.

pub mod json;
pub mod names;
pub mod parse;
pub mod registry;
pub mod render;

pub use json::JsonValue;
pub use names::{camel_to_snake_case, capitalize_first_letter};
pub use parse::{map_json_to_pydantic_field, scalar_type_name, to_pydantic};
pub use registry::Models;
pub use render::{json_to_pydantic, render_document};
