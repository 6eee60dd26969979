//! Launching a Nix flake output as a Linux virtual machine.

pub mod args;
pub mod asking;
pub mod attributes;
pub mod boot;
pub mod control;
pub mod course;
pub mod daemon;
pub mod error;
pub mod gc_root;
pub mod guard;
pub mod host;
pub mod krun;
pub mod launch_id;
pub mod milestones;
pub mod models;
pub mod nix;
pub mod overlay;
pub mod ownership;
pub mod path;
pub mod plan;
pub mod readings;
pub mod realise;
pub mod saving;
pub mod session;
pub mod sidecar;
pub mod state;
pub mod terminal;
pub mod text;
pub mod vm_process;
pub mod vmnet;

pub use args::{parse_pairs, LoadArgs, RunArgs};
pub use error::Error;
pub use session::{load, run};
