//! Dependency analysis for Cargo manifests: semantic versions, manifests,
//! workspace inheritance, update classification and in-place version edits.

pub mod text;
pub mod version_edit;
pub mod version;
pub mod dependency;
pub mod manifest;
pub mod workspace;
pub mod checker;
pub mod crates_io;
pub mod updater;
pub mod commands;
