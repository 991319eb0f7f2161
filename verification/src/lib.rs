//! Resolution and packing of the Python resources that are embedded in, or
//! installed next to, a native executable.

pub mod audit;
pub mod blobs;
pub mod config;
pub mod context;
pub mod install;
pub mod laws;
pub mod materialize;
pub mod name_map;
pub mod name_set;
pub mod name_tree;
pub mod names;
pub mod packages;
pub mod pyembed;
pub mod repair;
pub mod resolve;
pub mod resource;
pub mod rules;
pub mod text;
pub mod working_set;
