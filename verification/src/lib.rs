//! Kazi: a version manager for tasks.
//!
//! The library holds the logic of the tool: how a task's file name (its slug)
//! is derived from its title, how a task file is framed and its front matter
//! read back, how task ids are numbered, how the project's paths are laid out,
//! and the decisions taken while a project is initialised or loaded.
//! Reading and writing files, the clock, YAML and JSON (de)serialisation and
//! the terminal user interface are left to the program around it.

pub mod text;
pub mod task;
pub mod slug;
pub mod paths;
pub mod repo;
pub mod md_repo;
pub mod project;
pub mod json_repo;
pub mod tasks_table;
