//! The custom resources that the manager keeps in Kubernetes: what their specs and
//! statuses hold.
use vstd::prelude::*;

use crate::strmap::StrMap;

verus! {

/// The spec of a `Pool` resource: a pool has nothing to ask for.
#[derive(Debug, Clone, Default)]
pub struct PoolSpec {}

/// The status of a `Pool` resource.
#[derive(Debug)]
pub struct PoolStatus {
    pub imported: bool,
    pub properties: StrMap<String>,
}

pub struct PoolStatusView {
    pub imported: bool,
    pub properties: Map<Seq<char>, Seq<char>>,
}

impl DeepView for PoolStatus {
    type V = PoolStatusView;

    open spec fn deep_view(&self) -> PoolStatusView {
        PoolStatusView { imported: self.imported, properties: self.properties.deep_view() }
    }
}

impl PoolStatus {
    /// Not imported, no properties.
    pub fn new() -> (r: PoolStatus)
        ensures
            r.deep_view().imported == false,
            r.deep_view().properties == Map::<Seq<char>, Seq<char>>::empty(),
    {
        PoolStatus { imported: false, properties: StrMap::new() }
    }
}

/// The spec of a `StorageNode` resource of the manager: empty.
#[derive(Debug, Clone, Default)]
pub struct StorageNodeSpec {}

/// ZFS storage of a node.
#[derive(Debug, Clone, Default)]
pub struct ZfsStorage {}

/// The status of the ZFS storage of a node.
#[derive(Debug, Clone, Default)]
pub struct ZfsStorageStatus {}

/// The status of a `StorageNode` resource of the manager.
#[derive(Debug, Clone, Default)]
pub struct StorageNodeStatus {
    pub zfs: Option<ZfsStorageStatus>,
}

} // verus!
