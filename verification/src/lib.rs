//! Managed git worktrees: listing, guarded creation and deletion,
//! garbage collection, port leases and the state file that records them.
pub mod text;
pub mod seqs;
pub mod types;
pub mod error;
pub mod git;
pub mod map;
pub mod hash;
pub mod clock;
pub mod ports;
pub mod state;
pub mod guards;
pub mod unmerged;
pub mod manager;
pub mod lifecycle;
pub mod version_law;
pub mod adapter;
pub mod config;
pub mod lock;
pub mod cli;
pub mod mcp;
pub mod copying;

pub use adapter::{CapturedEnv, DefaultAdapter, EcosystemAdapter, EnvVars, SetupContext, ShellCommandAdapter};
pub use config::{Adapter, AdapterConfig, CliConfig};
pub use error::WorktreeError;
pub use manager::Manager;
pub use map::StringMap;
pub use state::StateV2;
pub use types::{
    AttachOptions, Config, CopyOutcome, CreateOptions, DeleteOptions, GcOptions, GcReport, GitCapabilities,
    GitCryptStatus, GitVersion, PortLease, ReflinkMode, WorktreeHandle, WorktreeState,
};
