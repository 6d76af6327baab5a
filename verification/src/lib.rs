use vstd::prelude::*;

pub mod text;
pub mod git;
pub mod patch;
pub mod logs;
pub mod theme;
pub mod files;
pub mod agent;
pub mod observer;
pub mod runtime;
pub mod model;
pub mod persist;
pub mod context;
pub mod render;
pub mod commands;
pub mod shell;
pub mod keys;
pub mod json;
pub mod memory;
pub mod settings;
pub mod staging;
pub mod screen;
