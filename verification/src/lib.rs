//! Resolution of conda-style environment manifests into installable package
//! lists, and the decision logic that provisions an environment from them.

pub mod command;
pub mod dependency;
pub mod error;
pub mod manifest;
pub mod naming;
pub mod platform;
pub mod provision;
pub mod requirements;
pub mod text;
pub mod transition;
