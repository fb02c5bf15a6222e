//! Adapter configuration as the command-line tool reads it from
//! `.iso-code.toml` (in the repository) or `config.toml` (in the user's
//! configuration directory), and the adapter it describes.
use vstd::prelude::*;

use crate::adapter::{DefaultAdapter, ShellCommandAdapter};

verus! {

/// The `[adapter]` table of a configuration file.
#[derive(Debug, Clone)]
pub enum AdapterConfig {
    /// `type = "shell-command"`.
    ShellCommand {
        post_create: Option<String>,
        pre_delete: Option<String>,
        post_delete: Option<String>,
        timeout_ms: Option<u64>,
    },
    /// `type = "default"`.
    Default {
        files_to_copy: Vec<String>,
    },
}

/// A configuration file.
#[derive(Debug, Clone)]
pub struct CliConfig {
    pub adapter: Option<AdapterConfig>,
}

impl Default for CliConfig {
    fn default() -> (c: Self)
        ensures
            c.adapter is None,
    {
        CliConfig { adapter: None }
    }
}

/// The configuration in effect: the project-local file's when it exists and
/// parses, else the user file's when it does, else the default (no adapter).
/// Each argument is the parsed file, absent when the file is missing or
/// does not parse.
pub fn load_config(project_local: Option<CliConfig>, user: Option<CliConfig>) -> (c: CliConfig)
    ensures
        c == (match project_local {
            Some(l) => l,
            None => match user {
                Some(u) => u,
                None => CliConfig { adapter: None },
            },
        }),
{
    match project_local {
        Some(l) => l,
        None => match user {
            Some(u) => u,
            None => CliConfig { adapter: None },
        },
    }
}

/// An adapter the library can build.
#[derive(Debug, Clone)]
pub enum Adapter {
    Shell(ShellCommandAdapter),
    Copy(DefaultAdapter),
}

fn copy_strings(v: &Vec<String>) -> (r: Vec<String>)
    ensures
        r@ == v@,
{
    let mut r: Vec<String> = Vec::new();
    let mut i: usize = 0;
    while i < v.len()
        invariant
            i <= v@.len(),
            r@ == v@.take(i as int),
        decreases v@.len() - i,
    {
        r.push(v[i].clone());
        proof {
            assert(r@ =~= v@.take(i as int + 1));
        }
        i = i + 1;
    }
    proof {
        assert(v@.take(v@.len() as int) =~= v@);
    }
    r
}

/// The adapter `cfg` describes: a shell adapter with the configured commands
/// and, when given, timeout (else two minutes); or a copying adapter with
/// the listed files.
pub fn build_adapter(cfg: &AdapterConfig) -> (a: Adapter)
    ensures
        match *cfg {
            AdapterConfig::ShellCommand { post_create, pre_delete, post_delete, timeout_ms } => a == Adapter::Shell(
                ShellCommandAdapter {
                    post_create,
                    pre_delete,
                    post_delete,
                    timeout_ms: match timeout_ms {
                        Some(ms) => ms,
                        None => 120_000,
                    },
                },
            ),
            AdapterConfig::Default { files_to_copy } => a matches Adapter::Copy(d) && d.files_to_copy@ == files_to_copy@,
        },
{
    match cfg {
        AdapterConfig::ShellCommand { post_create, pre_delete, post_delete, timeout_ms } => {
            let mut a = ShellCommandAdapter::new();
            match post_create {
                Some(cmd) => {
                    a = a.with_post_create(cmd.clone());
                },
                None => {},
            }
            match pre_delete {
                Some(cmd) => {
                    a = a.with_pre_delete(cmd.clone());
                },
                None => {},
            }
            match post_delete {
                Some(cmd) => {
                    a = a.with_post_delete(cmd.clone());
                },
                None => {},
            }
            match timeout_ms {
                Some(ms) => {
                    a = a.with_timeout_ms(*ms);
                },
                None => {},
            }
            Adapter::Shell(a)
        },
        AdapterConfig::Default { files_to_copy } => Adapter::Copy(DefaultAdapter::new(copy_strings(files_to_copy))),
    }
}

} // verus!
