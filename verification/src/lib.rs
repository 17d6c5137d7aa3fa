//! Verified core of the PitFast developer CLI: manifest selection and
//! planning, project configuration, unit parsing and the text layouts and
//! decisions of the CLI commands.

pub mod commands;
pub mod digest;
pub mod manifest;
pub mod paths;
pub mod project;
pub mod text;
pub mod units;
