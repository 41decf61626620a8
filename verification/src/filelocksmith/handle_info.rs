//! Records describing open handles and the processes holding them.

use vstd::prelude::*;

verus! {

/// One open handle.
#[derive(Debug, Clone)]
pub struct HandleInfo {
    /// Process id of the owner.
    pub pid: u32,
    /// The raw handle value.
    pub handle_value: u64,
    /// The object type name (such as `File`).
    pub object_type: String,
    /// The kernel-space path of the file.
    pub kernel_path: String,
}

/// A process that holds some of the queried files open.
#[derive(Debug, Clone)]
pub struct ProcessResult {
    /// Executable name.
    pub name: String,
    pub pid: u32,
    /// The user the process runs as.
    pub user: String,
    /// The queried files it holds open.
    pub files: Vec<String>,
}

} // verus!
