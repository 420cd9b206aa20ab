//! Analysis model and code generation for Vulkan bindings: C declarations from the
//! registry are classified into Rust-facing types, and Rust source text is produced
//! for them, with every step stated and proved.

pub mod text;
pub mod names;
pub mod ident;
pub mod xml;
pub mod decimal;
pub mod require;
pub mod decl;
pub mod items;
pub mod function;
pub mod to_rust;
pub mod generator;
pub mod output;
pub mod vfs;
pub mod files;
pub mod item;
pub mod loader;
pub mod vk;
pub mod c_str;
pub mod check;
pub mod laws;
