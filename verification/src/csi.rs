//! The CSI plugin: what its identity, controller and node services answer.
use vstd::prelude::*;

verus! {

/// The CSI plugin of one node.
#[derive(Debug, Clone)]
pub struct CSIPlugin {
    node_name: String,
}

/// The kinds of service a plugin offers.
#[derive(Debug, Clone, Copy, PartialEq, Eq)]
pub enum ServiceType {
    Unknown,
    ControllerService,
    VolumeAccessibilityConstraints,
    GroupControllerService,
}

/// The kinds of volume expansion a plugin supports.
#[derive(Debug, Clone, Copy, PartialEq, Eq)]
pub enum VolumeExpansionType {
    Unknown,
    Online,
    Offline,
}

/// A service the plugin offers.
#[derive(Debug, Clone, Copy, PartialEq, Eq)]
pub struct Service {
    pub service_type: ServiceType,
}

/// The volume expansion the plugin supports.
#[derive(Debug, Clone, Copy, PartialEq, Eq)]
pub struct VolumeExpansion {
    pub expansion_type: VolumeExpansionType,
}

/// What one plugin capability is about.
#[derive(Debug, Clone, Copy, PartialEq, Eq)]
pub enum PluginCapabilityType {
    Service(Service),
    VolumeExpansion(VolumeExpansion),
}

/// One capability of the plugin.
#[derive(Debug, Clone, Copy, PartialEq, Eq)]
pub struct PluginCapability {
    pub capability: Option<PluginCapabilityType>,
}

impl From<ServiceType> for Service {
    fn from(value: ServiceType) -> (r: Service) {
        Service { service_type: value }
    }
}

impl vstd::std_specs::convert::FromSpecImpl<ServiceType> for Service {
    open spec fn obeys_from_spec() -> bool {
        true
    }

    open spec fn from_spec(v: ServiceType) -> Service {
        Service { service_type: v }
    }
}

impl From<PluginCapabilityType> for PluginCapability {
    fn from(value: PluginCapabilityType) -> (r: PluginCapability) {
        PluginCapability { capability: Some(value) }
    }
}

impl vstd::std_specs::convert::FromSpecImpl<PluginCapabilityType> for PluginCapability {
    open spec fn obeys_from_spec() -> bool {
        true
    }

    open spec fn from_spec(v: PluginCapabilityType) -> PluginCapability {
        PluginCapability { capability: Some(v) }
    }
}

impl From<ServiceType> for PluginCapability {
    fn from(value: ServiceType) -> (r: PluginCapability) {
        let service: Service = Service::from(value);
        PluginCapability::from(PluginCapabilityType::Service(service))
    }
}

impl vstd::std_specs::convert::FromSpecImpl<ServiceType> for PluginCapability {
    open spec fn obeys_from_spec() -> bool {
        true
    }

    open spec fn from_spec(v: ServiceType) -> PluginCapability {
        PluginCapability {
            capability: Some(PluginCapabilityType::Service(Service { service_type: v })),
        }
    }
}

/// The node RPCs a plugin may offer.
#[derive(Debug, Clone, Copy, PartialEq, Eq)]
pub enum NodeRpcType {
    Unknown,
    StageUnstageVolume,
    GetVolumeStats,
    ExpandVolume,
    VolumeCondition,
    SingleNodeMultiWriter,
    VolumeMountGroup,
}

/// A node RPC the plugin offers.
#[derive(Debug, Clone, Copy, PartialEq, Eq)]
pub struct NodeRpc {
    pub rpc_type: NodeRpcType,
}

/// What one node capability is about.
#[derive(Debug, Clone, Copy, PartialEq, Eq)]
pub enum NodeCapabilityType {
    Rpc(NodeRpc),
}

/// One capability of the node service.
#[derive(Debug, Clone, Copy, PartialEq, Eq)]
pub struct NodeServiceCapability {
    pub capability: Option<NodeCapabilityType>,
}

impl From<NodeRpcType> for NodeServiceCapability {
    fn from(value: NodeRpcType) -> (r: NodeServiceCapability) {
        NodeServiceCapability { capability: Some(NodeCapabilityType::Rpc(NodeRpc { rpc_type: value })) }
    }
}

impl vstd::std_specs::convert::FromSpecImpl<NodeRpcType> for NodeServiceCapability {
    open spec fn obeys_from_spec() -> bool {
        true
    }

    open spec fn from_spec(v: NodeRpcType) -> NodeServiceCapability {
        NodeServiceCapability { capability: Some(NodeCapabilityType::Rpc(NodeRpc { rpc_type: v })) }
    }
}

/// The controller RPCs a plugin may offer.
#[derive(Debug, Clone, Copy, PartialEq, Eq)]
pub enum ControllerRpcType {
    Unknown,
    CreateDeleteVolume,
    PublishUnpublishVolume,
    ListVolumes,
    GetCapacity,
    CreateDeleteSnapshot,
    ListSnapshots,
    CloneVolume,
    PublishReadonly,
    ExpandVolume,
}

/// What `GetPluginInfo` answers.
#[derive(Debug)]
pub struct PluginInfo {
    pub name: String,
    pub vendor_version: String,
}

/// What `NodeGetInfo` answers.
#[derive(Debug)]
pub struct NodeInfo {
    pub node_id: String,
    pub max_volumes_per_node: i64,
    pub has_accessible_topology: bool,
}

/// What `Probe` answers: readiness, when the plugin reports it.
#[derive(Debug, Clone, Copy)]
pub struct ProbeResponse {
    pub ready: Option<bool>,
}

impl CSIPlugin {
    pub closed spec fn node(&self) -> Seq<char> {
        self.node_name@
    }

    /// The plugin of the node `node_name`.
    pub fn new(node_name: String) -> (r: CSIPlugin)
        ensures
            r.node() == node_name@,
    {
        CSIPlugin { node_name }
    }

    /// `GetPluginInfo`: the driver's name and version, no manifest.
    pub fn get_plugin_info(&self) -> (r: PluginInfo)
        ensures
            r.name@ == "zfs.csi.kuberaid.eu"@,
            r.vendor_version@ == "v0.0.0"@,
    {
        PluginInfo {
            name: crate::text::to_owned_string("zfs.csi.kuberaid.eu"),
            vendor_version: crate::text::to_owned_string("v0.0.0"),
        }
    }

    /// `GetPluginCapabilities`: the controller service, volume accessibility
    /// constraints, online volume expansion.
    pub fn get_plugin_capabilities(&self) -> (r: Vec<PluginCapability>)
        ensures
            r@ == seq![
                PluginCapability {
                    capability: Some(
                        PluginCapabilityType::Service(
                            Service { service_type: ServiceType::ControllerService },
                        ),
                    ),
                },
                PluginCapability {
                    capability: Some(
                        PluginCapabilityType::Service(
                            Service { service_type: ServiceType::VolumeAccessibilityConstraints },
                        ),
                    ),
                },
                PluginCapability {
                    capability: Some(
                        PluginCapabilityType::VolumeExpansion(
                            VolumeExpansion { expansion_type: VolumeExpansionType::Online },
                        ),
                    ),
                },
            ],
    {
        let mut r = Vec::new();
        r.push(PluginCapability::from(ServiceType::ControllerService));
        r.push(PluginCapability::from(ServiceType::VolumeAccessibilityConstraints));
        r.push(
            PluginCapability::from(
                PluginCapabilityType::VolumeExpansion(
                    VolumeExpansion { expansion_type: VolumeExpansionType::Online },
                ),
            ),
        );
        assert(r@ =~= seq![
            PluginCapability {
                capability: Some(
                    PluginCapabilityType::Service(
                        Service { service_type: ServiceType::ControllerService },
                    ),
                ),
            },
            PluginCapability {
                capability: Some(
                    PluginCapabilityType::Service(
                        Service { service_type: ServiceType::VolumeAccessibilityConstraints },
                    ),
                ),
            },
            PluginCapability {
                capability: Some(
                    PluginCapabilityType::VolumeExpansion(
                        VolumeExpansion { expansion_type: VolumeExpansionType::Online },
                    ),
                ),
            },
        ]);
        r
    }

    /// `Probe`: healthy, readiness not reported.
    pub fn probe(&self) -> (r: ProbeResponse)
        ensures
            r.ready is None,
    {
        ProbeResponse { ready: None }
    }

    /// `ControllerGetCapabilities`: volume expansion.
    pub fn controller_get_capabilities(&self) -> (r: Vec<ControllerRpcType>)
        ensures
            r@ == seq![ControllerRpcType::ExpandVolume],
    {
        let mut r = Vec::new();
        r.push(ControllerRpcType::ExpandVolume);
        assert(r@ =~= seq![ControllerRpcType::ExpandVolume]);
        r
    }

    /// `NodeGetCapabilities`: stage/unstage and volume expansion.
    pub fn node_get_capabilities(&self) -> (r: Vec<NodeServiceCapability>)
        ensures
            r@ == seq![
                NodeServiceCapability {
                    capability: Some(
                        NodeCapabilityType::Rpc(NodeRpc { rpc_type: NodeRpcType::StageUnstageVolume }),
                    ),
                },
                NodeServiceCapability {
                    capability: Some(
                        NodeCapabilityType::Rpc(NodeRpc { rpc_type: NodeRpcType::ExpandVolume }),
                    ),
                },
            ],
    {
        let mut r = Vec::new();
        r.push(NodeServiceCapability::from(NodeRpcType::StageUnstageVolume));
        r.push(NodeServiceCapability::from(NodeRpcType::ExpandVolume));
        assert(r@ =~= seq![
            NodeServiceCapability {
                capability: Some(
                    NodeCapabilityType::Rpc(NodeRpc { rpc_type: NodeRpcType::StageUnstageVolume }),
                ),
            },
            NodeServiceCapability {
                capability: Some(
                    NodeCapabilityType::Rpc(NodeRpc { rpc_type: NodeRpcType::ExpandVolume }),
                ),
            },
        ]);
        r
    }

    /// `NodeGetInfo`: this node, no limit on volumes, no topology.
    pub fn node_get_info(&self) -> (r: NodeInfo)
        ensures
            r.node_id@ == self.node(),
            r.max_volumes_per_node == i64::MAX,
            !r.has_accessible_topology,
    {
        NodeInfo {
            node_id: self.node_name.clone(),
            max_volumes_per_node: i64::MAX,
            has_accessible_topology: false,
        }
    }
}

} // verus!
