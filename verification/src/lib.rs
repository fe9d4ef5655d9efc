//! Editing model of a survey CAD workspace: the geometry store behind the
//! 3D view, triangulated surfaces and their topology edits.

pub mod mesh;
pub mod geometry;
pub mod snap;
pub mod commands;
pub mod command_line;
pub mod backend;
pub mod ui_state;
pub mod engine;
pub mod field_book;
pub mod inspector;
pub mod render;
pub mod drawing;
pub mod selection;
pub mod tin_edit;
