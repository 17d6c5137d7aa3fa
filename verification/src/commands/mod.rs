//! The decisions and text layouts of the CLI commands.

pub mod bench;
pub mod build;
pub mod call;
pub mod circuit;
pub mod config;
pub mod cockpit;
pub mod deploy;
pub mod diagnostics;
pub mod doctor;
pub mod expose;
pub mod init;
pub mod inspect;
pub mod paddock;
pub mod plan;
pub mod resource;
pub mod route;
pub mod service;
pub mod system;
pub mod up;
pub mod web;
