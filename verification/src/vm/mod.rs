//! The VM backend.
pub mod guest_setup;
pub mod health;
pub mod image;
pub mod image_cache;
pub mod ssh_key;
pub mod tart;
pub mod warm_pool;

use vstd::prelude::*;

use crate::mount::DirShare;

verus! {

/// Configuration passed to the VM backend when creating a sandbox VM.
#[derive(Debug, Clone)]
pub struct VmConfig {
    /// Name of the VM instance (must be unique on the host).
    pub name: String,
    /// Name of the base image to clone from (already pulled or imported).
    pub base_image: String,
    /// VirtioFS directory shares: (host path, guest tag).
    pub dir_shares: Vec<(String, String)>,
}

/// The configuration of a VM that is cloned from `base_image` and given some shares.
pub fn vm_config(name: &str, base_image: &str, shares: &Vec<DirShare>) -> (r: VmConfig)
    ensures
        r.name@ == name@,
        r.base_image@ == base_image@,
        r.dir_shares.len() == shares.len(),
        forall|i: int|
            0 <= i < shares.len() ==> (#[trigger] r.dir_shares@[i]).0@ == shares@[i].host_path@
                && r.dir_shares@[i].1@ == shares@[i].tag@,
{
    let mut dir_shares: Vec<(String, String)> = Vec::new();
    let mut i: usize = 0;
    while i < shares.len()
        invariant
            i <= shares.len(),
            dir_shares.len() == i,
            forall|j: int|
                0 <= j < i ==> (#[trigger] dir_shares@[j]).0@ == shares@[j].host_path@
                    && dir_shares@[j].1@ == shares@[j].tag@,
        decreases shares.len() - i,
    {
        dir_shares.push((shares[i].host_path.clone(), shares[i].tag.clone()));
        i += 1;
    }
    VmConfig { name: name.to_owned(), base_image: base_image.to_owned(), dir_shares }
}

/// Minimal interface over a VM backend: each operation is one command line.
pub trait Vm {
    /// Clone the base image and create the VM (does not start it).
    fn create(&self, config: &VmConfig) -> (r: Vec<String>);

    /// Stop the VM.
    fn stop(&self, name: &str) -> (r: Vec<String>);

    /// Delete the VM and its disk image.
    fn delete(&self, name: &str) -> (r: Vec<String>);
}

} // verus!
