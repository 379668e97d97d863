//! The verified core of the `logos-scaffold` project tool.

pub mod basecamp;
pub mod config;
pub mod config_laws;
pub mod model;
pub mod naming;
pub mod new_project;
pub mod numbers;
pub mod paths;
pub mod project;
pub mod text;
