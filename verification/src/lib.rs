pub mod argv;
pub mod broker;
pub mod cli;
pub mod config;
pub mod diagnostics;
pub mod discovery;
pub mod inspect;
pub mod json;
pub mod launch;
pub mod lifecycle;
pub mod paths;
pub mod percent;
pub mod plan;
pub mod process;
pub mod render;
pub mod runtime;
pub mod socket;
pub mod stamp;
pub mod state;
pub mod tcp;
pub mod terminate;
pub mod text;
pub mod update;
