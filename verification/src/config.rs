//! The configuration of a sandbox run.
use vstd::prelude::*;

use crate::vm::image::PullPolicy;

verus! {

/// Full configuration for a single sandbox run.
#[derive(Debug, Clone)]
pub struct SandboxConfig {
    /// The command name of the agent that is run.
    pub agent: String,
    /// OCI image ref (e.g. `ghcr.io/cirruslabs/macos-sequoia-base:latest`)
    /// or absolute path to a local `.ipsw` file. A run needs one.
    pub vm_image: Option<String>,
    /// Host directory to mount into the VM via VirtioFS at the same absolute path.
    pub mount: String,
    /// MCP server names to allow inside the VM. Empty means that all servers are
    /// passed through.
    pub allow_tools: Vec<String>,
    /// Host binary names to forward into the VM.
    pub allow_binaries: Vec<String>,
    /// When `true`, the VM is not deleted after the run.
    pub persist: bool,
    /// Explicit VM name; if `None` a name is generated.
    pub vm_name: Option<String>,
    /// Arguments forwarded verbatim to the agent inside the VM.
    pub claude_args: Vec<String>,
    /// Controls when `tart pull` is invoked.
    pub pull_policy: PullPolicy,
    /// When `true`, smoke-boot the base image before cloning.
    pub validate_image: bool,
    /// Use the warm VM pool for faster startup.
    pub warm_pool: bool,
}

} // verus!
