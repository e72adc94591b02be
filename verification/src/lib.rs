//! Launcher logic for a Minecraft launcher: version manifests, library
//! coordinates, rule evaluation, argument assembly and mod-loader metadata.

pub mod text;
pub mod client_json;
pub mod maven;
pub mod rules;
pub mod digest;
pub mod runtime;
pub mod launch;
pub mod loaders;
pub mod installer;
pub mod download;
pub mod progress;
pub mod files;
pub mod catalog;
pub mod java;
pub mod archive;
