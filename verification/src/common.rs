//! The shared `StorageNode` resource: the parts that are plain values.
use vstd::prelude::*;

verus! {

/// A storage device of a node.
#[derive(Debug, Clone, Default)]
pub struct StorageDevice {
    pub name: String,
}

/// The status of a shared `StorageNode` resource.
#[derive(Debug, Clone, Copy, Default)]
pub struct StorageNodeStatus {
    pub hidden: bool,
}

} // verus!
