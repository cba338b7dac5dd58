//! Client library for a project-management web API: layered settings
//! resolution over JSON documents, request planning, response handling and
//! the shaping of command output.
pub mod json;
pub mod text;
pub mod settings;
pub mod client;
pub mod commands;
