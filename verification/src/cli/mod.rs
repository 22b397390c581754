//! The command line, once parsed.

pub mod output;

use vstd::prelude::*;

verus! {

/// Everything that was said on the command line.
#[derive(Debug)]
pub struct Cli {
    pub command: Option<Command>,
    /// Branch to spawn (shorthand for `spawn <branch>`).
    pub branch: Option<String>,
    /// Output as JSON.
    pub json: bool,
    /// Verbose output.
    pub verbose: bool,
}

/// The subcommands.
#[derive(Debug)]
#[allow(inconsistent_fields)]
pub enum Command {
    /// Spawn a VM for a branch.
    Spawn { branch: Option<String>, no_interactive: bool },
    /// SSH into a running VM.
    Enter { name: Option<String> },
    /// Execute a command in the VM.
    Exec { cmd: Vec<String> },
    /// Stop a VM.
    Halt { name: Option<String> },
    /// Suspend a VM (save state to disk).
    Suspend { name: Option<String> },
    /// Destroy a VM and its state.
    Destroy { name: Option<String>, force: bool },
    /// List all VMs.
    List { repo: Option<String> },
    /// Show VM status.
    Status { name: Option<String> },
    /// Print worktree path for shell cd.
    Cd { name: Option<String> },
    /// Commit the agent's changes and open a GitHub PR.
    Pr { name: Option<String> },
    /// Prune old VMs.
    Prune { days: Option<u64>, dry_run: bool },
    /// Manage golden images.
    Image { action: ImageAction },
    /// Run diagnostic checks.
    Doctor,
    /// Show configuration.
    Config { edit: bool },
    /// Manage SSH config entries.
    Ssh { action: SshAction },
    /// Generate shell completions.
    Completions { shell: Shell },
    /// Start MCP server (stdio JSON-RPC).
    Mcp,
    /// Manage the credential proxy.
    Proxy { action: Option<ProxyAction> },
}

/// The shells that completions are generated for.
#[derive(Debug, Clone, Copy, PartialEq, Eq, Structural)]
pub enum Shell {
    Bash,
    Elvish,
    Fish,
    PowerShell,
    Zsh,
}

/// What to do with the credential proxy.
#[derive(Debug)]
pub enum ProxyAction {
    /// Start the credential proxy (default when no action given).
    Start { port: Option<u16>, bind: Option<String>, daemon: bool },
    /// Stop the running credential proxy.
    Stop,
    /// Show credential proxy status.
    Status,
}

/// What to do with images.
#[derive(Debug)]
pub enum ImageAction {
    /// Pull base image from registry.
    Pull { name: Option<String> },
    /// Build golden image from base.
    Build { name: Option<String>, force: bool },
    /// Push golden image to registry.
    Push { name: Option<String> },
    /// List available images.
    List,
}

/// What to do with the entries in `~/.ssh/config`.
#[derive(Debug, Clone, Copy, PartialEq, Eq, Structural)]
pub enum SshAction {
    /// Add VM entries.
    Install,
    /// Remove VM entries.
    Uninstall,
    /// Update VM entries.
    Refresh,
}

/// Whether a command works with `tart`. Spawning by a bare branch does, and so does every
/// subcommand but the few that concern the host alone.
pub open spec fn needs_tart(command: Option<Command>) -> bool {
    match command {
        Some(Command::Doctor) => false,
        Some(Command::Completions { .. }) => false,
        Some(Command::Mcp) => false,
        Some(Command::Config { .. }) => false,
        Some(Command::Pr { .. }) => false,
        Some(Command::Proxy { .. }) => false,
        _ => true,
    }
}

/// Whether a command requires `tart` to be installed.
pub fn command_needs_tart(command: &Option<Command>) -> (needs: bool)
    ensures
        needs == needs_tart(*command),
{
    match command {
        Some(Command::Doctor) => false,
        Some(Command::Completions { .. }) => false,
        Some(Command::Mcp) => false,
        Some(Command::Config { .. }) => false,
        Some(Command::Pr { .. }) => false,
        Some(Command::Proxy { .. }) => false,
        _ => true,
    }
}

} // verus!
