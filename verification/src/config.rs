//! The settings that the program works with.

use vstd::prelude::*;

verus! {

/// The settings, once loaded.
#[derive(Debug)]
pub struct Config {
    /// The image that new machines are cloned from.
    pub base_image: String,
    /// How the display of a machine is shown; `none` runs it headless.
    pub vm_display: String,
    /// How long a machine may take to boot, in seconds.
    pub boot_timeout_secs: u64,
    /// The user to log in as.
    pub ssh_user: String,
    /// The name of the coding agent that works in the machines. Its own files are on the host
    /// in the hidden directory of that name under the home directory, so this fixes what a machine
    /// may see of the home directory: directories in that one, and no other. Every mount of them
    /// bears the name too.
    pub agent: String,
    /// What the agent is called where the user is told of it.
    pub agent_title: String,
    /// The directories in the agent's own directory that a machine may read.
    pub share_claude_dirs: Vec<String>,
    /// Where new worktrees go. Without it they go beside the repository.
    pub worktree_dir: Option<String>,
    /// Whether a credential proxy has to run.
    pub credential_proxy: bool,
    /// The address that the credential proxy listens on.
    pub credential_proxy_bind: String,
    /// The TCP port that the credential proxy listens on.
    pub credential_proxy_port: u16,
    /// After how many days without use a machine is pruned.
    pub prune_after_days: u64,
}

/// Whether two records hold the same settings.
pub open spec fn same_settings(a: Config, b: Config) -> bool {
    &&& a.base_image == b.base_image
    &&& a.vm_display == b.vm_display
    &&& a.boot_timeout_secs == b.boot_timeout_secs
    &&& a.ssh_user == b.ssh_user
    &&& a.agent == b.agent
    &&& a.agent_title == b.agent_title
    &&& a.share_claude_dirs@ == b.share_claude_dirs@
    &&& a.worktree_dir == b.worktree_dir
    &&& a.credential_proxy == b.credential_proxy
    &&& a.credential_proxy_bind == b.credential_proxy_bind
    &&& a.credential_proxy_port == b.credential_proxy_port
    &&& a.prune_after_days == b.prune_after_days
}

impl Config {
    /// The same settings once more.
    pub fn duplicate(&self) -> (config: Config)
        ensures
            same_settings(config, *self),
    {
        let mut share_claude_dirs: Vec<String> = Vec::new();
        let mut i: usize = 0;
        while i < self.share_claude_dirs.len()
            invariant
                i <= self.share_claude_dirs.len(),
                share_claude_dirs@ =~= self.share_claude_dirs@.take(i as int),
            decreases self.share_claude_dirs.len() - i,
        {
            share_claude_dirs.push(self.share_claude_dirs[i].clone());
            i += 1;
        }
        assert(share_claude_dirs@ =~= self.share_claude_dirs@);
        Config {
            base_image: self.base_image.clone(),
            vm_display: self.vm_display.clone(),
            boot_timeout_secs: self.boot_timeout_secs,
            ssh_user: self.ssh_user.clone(),
            agent: self.agent.clone(),
            agent_title: self.agent_title.clone(),
            share_claude_dirs,
            worktree_dir: self.worktree_dir.clone(),
            credential_proxy: self.credential_proxy,
            credential_proxy_bind: self.credential_proxy_bind.clone(),
            credential_proxy_port: self.credential_proxy_port,
            prune_after_days: self.prune_after_days,
        }
    }
}

} // verus!
