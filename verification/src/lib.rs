//! Model, editing rules and Rust code generator of a small RAD builder for egui.

pub mod widget;
pub mod fmt;
pub mod text;
pub mod tree;
pub mod emit;
pub mod project;
pub mod codegen;
pub mod editor;
pub mod geometry;
pub mod arrange;
pub mod sorting;
pub mod date;
pub mod highlight;
