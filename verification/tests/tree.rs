use kuberaid::cli::{call_outcome, CallOutcome, ZfsCli};
use kuberaid::csi::{
    CSIPlugin, ControllerRpcType, NodeCapabilityType, NodeRpc, NodeRpcType, NodeServiceCapability, PluginCapability,
    PluginCapabilityType, Service, ServiceType, VolumeExpansion, VolumeExpansionType,
};
use kuberaid::error::Error;
use kuberaid::event::{parse_event, Timestamp, ZfsEvent, ZfsEventKind};
use kuberaid::greeter::MyGreeter;
use kuberaid::manager::{get_pool_summary, is_own_node, list_pools, pools_to_apply, reconcile_pool, status_value, PoolReconcile, PoolState};
use kuberaid::object::{take_named, Dataset, Pool as PoolInfo, Property, PropertySource, ZDataset, ZPool, ZfsObject};
use kuberaid::scalar::{Float32, ZfsScalar};
use kuberaid::strmap::StrMap;
use kuberaid::tree::{DatasetId, DatasetTree, Pool, PoolId};
use kuberaid::watch::{forwards, plan_event, Fetched, WatchAction};

fn parse_f32(t: &str) -> Option<Float32> {
    t.parse::<f32>().ok().map(|f| Float32 { bits: f.to_bits(), text: f.to_string() })
}

fn props(entries: &[(&str, ZfsScalar)]) -> StrMap<Property<ZfsScalar>> {
    let mut m = StrMap::new();
    for (k, v) in entries {
        m.insert(k.to_string(), Property { value: v.duplicate(), source: PropertySource::Local });
    }
    m
}

fn zpool(name: &str, guid: u64, entries: &[(&str, ZfsScalar)]) -> ZPool {
    ZfsObject {
        name: name.to_string(),
        kind: "POOL".to_string(),
        inner: PoolInfo { state: "ONLINE".to_string(), pool_guid: guid, txg: 1, spa_version: 5000, zpl_version: 5 },
        properties: props(entries),
    }
}

fn zdataset(name: &str, entries: &[(&str, ZfsScalar)]) -> ZDataset {
    ZfsObject { name: name.to_string(), kind: "FILESYSTEM".to_string(), inner: Dataset {}, properties: props(entries) }
}

fn text(v: &ZfsScalar) -> String {
    status_value(v)
}

#[test]
fn listing_replaces_pools() {
    let mut tree = DatasetTree::new();
    tree.set_pools(vec![zpool("tank", 1, &[]), zpool("lab", 2, &[])]);
    assert_eq!(tree.get_pools().len(), 2);
    let lab = tree.get_pool("lab").unwrap();
    assert_eq!(lab.guid.guid(), 2);
    assert!(!lab.destroyed);
    assert!(tree.get_pool("none").is_none());
    tree.set_pools(vec![zpool("tank", 1, &[])]);
    assert!(tree.get_pool("lab").is_none());
}

#[test]
fn listing_replaces_datasets() {
    let mut tree = DatasetTree::new();
    tree.set_datasets(vec![zdataset("lab", &[]), zdataset("lab/test", &[("atime", ZfsScalar::String("on".into()))])]);
    let d = tree.get_dataset("lab/test").unwrap();
    assert_eq!(d.name, "lab/test");
    assert_eq!(d.path, "lab/test");
    assert_eq!(d.pool.guid(), 0);
    assert!(d.parent.is_none());
    assert_eq!(d.properties.len(), 1);
    tree.set_datasets(vec![]);
    assert!(tree.get_dataset("lab").is_none());
}

#[test]
fn dataset_update_merges_properties() {
    let mut tree = DatasetTree::new();
    tree.set_datasets(vec![zdataset("lab", &[("atime", ZfsScalar::String("on".into())), ("quota", ZfsScalar::Absent)])]);
    tree.delta_dataset(DatasetId::new("lab".into()), Some(zdataset("lab", &[("atime", ZfsScalar::String("off".into()))])));
    let d = tree.get_dataset("lab").unwrap();
    assert_eq!(d.property_text("atime"), Some("off".to_string()));
    assert_eq!(d.properties.len(), 2);
    tree.delta_dataset(DatasetId::new("new".into()), Some(zdataset("new", &[("x", ZfsScalar::U64(1))])));
    let n = tree.get_dataset("new").unwrap();
    assert_eq!(n.path, "");
    tree.delta_dataset(DatasetId::new("lab".into()), None);
    assert!(tree.get_dataset("lab").is_none());
    assert!(tree.get_dataset("new").is_some());
}

trait PropText {
    fn property_text(&self, k: &str) -> Option<String>;
}

impl PropText for kuberaid::tree::Dataset {
    fn property_text(&self, k: &str) -> Option<String> {
        self.properties.get(&k.to_string()).map(|p| text(&p.value))
    }
}

#[test]
fn pool_update_export_destroy() {
    let mut tree = DatasetTree::new();
    tree.delta_pool(PoolId::new(7), Some(zpool("tank", 7, &[("size", ZfsScalar::U64(100))])), false);
    let p = tree.get_pool("tank").unwrap();
    assert_eq!(p.guid.guid(), 7);
    assert!(!p.destroyed);
    tree.delta_pool(PoolId::new(7), None, true);
    assert!(tree.get_pool("tank").unwrap().destroyed);
    tree.delta_pool(PoolId::new(8), None, true);
    assert_eq!(tree.get_pools().len(), 1);
    tree.delta_pool(PoolId::new(7), None, false);
    assert!(tree.get_pool("tank").is_none());
}

fn event(class: &str, extra: &str) -> ZfsEvent<ZfsEventKind> {
    let text = format!(
        "{class}\n\tclass = \"{class}\"\n\tversion = 0x0\n\teid = 0x1\n\tpool = \"tank\"\n\tpool_guid = 0x7\n\tpool_state = 0x0\n\tpool_context = 0x0\n\ttime = 0x100 0x0\n{extra}"
    );
    parse_event(&text, &parse_f32).unwrap()
}

#[test]
fn watcher_plans_and_applies() {
    let start = Timestamp { secs: 0x50, nanos: 0 };
    let import = event("sysevent.fs.zfs.pool_import", "");
    let a = plan_event(&start, &import);
    assert!(matches!(a, WatchAction::RefreshPool { ref pool, guid: 7 } if pool == "tank"));
    assert!(forwards(&a));
    let mut tree = DatasetTree::new();
    tree.apply_watch_action(&a, Fetched::Pool(Some(zpool("tank", 7, &[]))));
    assert!(tree.get_pool("tank").is_some());

    let destroy = event("sysevent.fs.zfs.pool_destroy", "");
    let a = plan_event(&start, &destroy);
    assert!(matches!(a, WatchAction::DestroyPool { guid: 7 }));
    tree.apply_watch_action(&a, Fetched::Nothing);
    assert!(tree.get_pool("tank").unwrap().destroyed);

    let export = event("sysevent.fs.zfs.pool_export", "");
    let a = plan_event(&start, &export);
    assert!(matches!(a, WatchAction::ExportPool { guid: 7 }));
    tree.apply_watch_action(&a, Fetched::Nothing);
    assert!(tree.get_pool("tank").is_none());

    let later = Timestamp { secs: 0x200, nanos: 0 };
    let a = plan_event(&later, &import);
    assert!(matches!(a, WatchAction::Skip));
    assert!(!forwards(&a));
}

#[test]
fn watcher_refreshes_set_properties() {
    let start = Timestamp { secs: 0, nanos: 0 };
    let set_pool = event(
        "sysevent.fs.zfs.history_event",
        "\thistory_hostname = \"n\"\n\thistory_internal_str = \"autotrim=on\"\n\thistory_internal_name = \"set\"\n\thistory_txg = 0x1\n",
    );
    let a = plan_event(&start, &set_pool);
    assert!(matches!(a, WatchAction::RefreshPoolProperty { ref pool, guid: 7, ref property } if pool == "tank" && property == "autotrim"));
    let mut tree = DatasetTree::new();
    tree.apply_watch_action(&a, Fetched::Failed);
    assert!(tree.get_pool("tank").is_none());
    tree.apply_watch_action(&a, Fetched::Pool(Some(zpool("tank", 7, &[("autotrim", ZfsScalar::String("on".into()))]))));
    assert_eq!(tree.get_pool("tank").unwrap().properties.len(), 1);

    let set_ds = event(
        "sysevent.fs.zfs.history_event",
        "\thistory_hostname = \"n\"\n\thistory_internal_str = \"atime=off\"\n\thistory_internal_name = \"set\"\n\thistory_txg = 0x1\n\thistory_dsid = 0x9\n\thistroy_dsname = \"\"\n\thistory_dsname = \"tank/fs\"\n",
    );
    let a = plan_event(&start, &set_ds);
    assert!(matches!(a, WatchAction::RefreshDataset { ref dataset, ref property } if dataset == "tank/fs" && property == "atime"));
    tree.apply_watch_action(&a, Fetched::Dataset(Some(zdataset("tank/fs", &[("atime", ZfsScalar::String("off".into()))]))));
    assert!(tree.get_dataset("tank/fs").is_some());

    let sync = event("sysevent.fs.zfs.config_sync", "");
    assert!(matches!(plan_event(&start, &sync), WatchAction::Publish));
}

fn tree_pool(name: &str, destroyed: bool, entries: &[(&str, ZfsScalar)]) -> Pool {
    Pool { guid: PoolId::new(1), name: name.to_string(), datasets: vec![], destroyed, properties: props(entries) }
}

#[test]
fn pool_controller_decides() {
    assert!(matches!(reconcile_pool(Some(tree_pool("tank", true, &[]))), PoolReconcile::Delete));
    match reconcile_pool(None) {
        PoolReconcile::PatchStatus(s) => {
            assert!(!s.imported);
            assert_eq!(s.properties.len(), 0);
        }
        _ => panic!("expected a status"),
    }
    let f = parse_f32("2.5").unwrap();
    let p = tree_pool(
        "tank",
        false,
        &[("size", ZfsScalar::U64(1024)), ("ratio", ZfsScalar::F32(f)), ("health", ZfsScalar::String("ONLINE".into())), ("comment", ZfsScalar::Absent)],
    );
    match reconcile_pool(Some(p)) {
        PoolReconcile::PatchStatus(s) => {
            assert!(s.imported);
            assert_eq!(s.properties.get(&"size".to_string()).unwrap(), "1024");
            assert_eq!(s.properties.get(&"ratio".to_string()).unwrap(), "2.5");
            assert_eq!(s.properties.get(&"health".to_string()).unwrap(), "ONLINE");
            assert_eq!(s.properties.get(&"comment".to_string()).unwrap(), "");
        }
        _ => panic!("expected a status"),
    }
}

#[test]
fn storage_node_controller_skips_destroyed() {
    let pools = vec![tree_pool("a", false, &[]), tree_pool("b", true, &[]), tree_pool("c", false, &[])];
    assert_eq!(pools_to_apply(&pools), vec!["a".to_string(), "c".to_string()]);
    assert!(is_own_node(&Some("node1".to_string()), "node1"));
    assert!(!is_own_node(&Some("node2".to_string()), "node1"));
    assert!(!is_own_node(&None, "node1"));
}

#[test]
fn api_lists_pools_online() {
    let listed = list_pools(vec![zpool("tank", 1, &[]), zpool("lab", 2, &[])]);
    assert_eq!(listed.len(), 2);
    assert_eq!(listed[1].name, "lab");
    assert_eq!(listed[0].state, PoolState::Online);
    let got = get_pool_summary(vec![zpool("tank", 1, &[]), zpool("lab", 2, &[])], "lab").unwrap();
    assert_eq!(got.name, "lab");
    assert!(get_pool_summary(vec![zpool("tank", 1, &[])], "lab").is_none());
}

#[test]
fn takes_named_object_from_listing() {
    let mut m = StrMap::new();
    m.insert("lab".to_string(), zpool("lab", 2, &[]));
    assert_eq!(take_named(Some(m), "lab").unwrap().inner.pool_guid, 2);
    let m2: StrMap<ZPool> = StrMap::new();
    assert!(take_named(Some(m2), "lab").is_none());
    assert!(take_named::<PoolInfo>(None, "lab").is_none());
}

#[test]
fn csi_answers() {
    let plugin = CSIPlugin::new("node-a".to_string());
    let info = plugin.get_plugin_info();
    assert_eq!(info.name, "zfs.csi.kuberaid.eu");
    assert_eq!(info.vendor_version, "v0.0.0");
    assert_eq!(
        plugin.get_plugin_capabilities(),
        vec![
            PluginCapability::from(ServiceType::ControllerService),
            PluginCapability {
                capability: Some(PluginCapabilityType::Service(Service {
                    service_type: ServiceType::VolumeAccessibilityConstraints
                }))
            },
            PluginCapability {
                capability: Some(PluginCapabilityType::VolumeExpansion(VolumeExpansion {
                    expansion_type: VolumeExpansionType::Online
                }))
            },
        ]
    );
    assert!(plugin.probe().ready.is_none());
    assert_eq!(plugin.controller_get_capabilities(), vec![ControllerRpcType::ExpandVolume]);
    assert_eq!(
        plugin.node_get_capabilities(),
        vec![
            NodeServiceCapability::from(NodeRpcType::StageUnstageVolume),
            NodeServiceCapability {
                capability: Some(NodeCapabilityType::Rpc(NodeRpc { rpc_type: NodeRpcType::ExpandVolume }))
            },
        ]
    );
    let ni = plugin.node_get_info();
    assert_eq!(ni.node_id, "node-a");
    assert_eq!(ni.max_volumes_per_node, i64::MAX);
    assert!(!ni.has_accessible_topology);
}

#[test]
fn greeter_says_hello() {
    assert_eq!(MyGreeter::default().say_hello("Tonic").message, "Hello Tonic!");
}

#[test]
fn cli_builds_get_args() {
    assert_eq!(ZfsCli::get_args(&vec!["atime", ""], "lab/test"), vec!["get", "atime", "lab/test", "-j", "--json-int"]);
    assert_eq!(ZfsCli::get_args(&vec![], "lab"), vec!["get", "all", "lab", "-j", "--json-int"]);
}

#[test]
fn cli_takes_command_outcome() {
    assert!(matches!(call_outcome(true, Some(0), &vec![], &vec![]), CallOutcome::NoOutput));
    assert!(matches!(call_outcome(true, Some(0), &b"{}".to_vec(), &vec![]), CallOutcome::Output));
    match call_outcome(false, Some(1), &b"out".to_vec(), &vec![b'e', 0xff]) {
        CallOutcome::Failed(Error::CommandFailed { code, stdout, stderr }) => {
            assert_eq!(code, Some(1));
            assert_eq!(stdout, "out");
            assert_eq!(stderr, "e\u{fffd}");
        }
        _ => panic!("expected a failure"),
    }
}

#[test]
fn watcher_passes_on_exactly_newer_events() {
    let start = Timestamp { secs: 0x100, nanos: 0 };
    let mut events = vec![
        event("sysevent.fs.zfs.pool_import", ""),
        event("sysevent.fs.zfs.config_sync", ""),
        event("sysevent.fs.zfs.pool_export", ""),
    ];
    events[1].time = Timestamp { secs: 0xff, nanos: 999 };
    events[2].time = Timestamp { secs: 0x100, nanos: 0 };
    let mut tree = DatasetTree::new();
    let mut passed = Vec::new();
    for e in &events {
        let a = plan_event(&start, e);
        let fetched = match a {
            WatchAction::RefreshPool { .. } => Fetched::Pool(Some(zpool("tank", 7, &[]))),
            _ => Fetched::Nothing,
        };
        tree.apply_watch_action(&a, fetched);
        if forwards(&a) {
            passed.push(e.class.clone());
        }
    }
    assert_eq!(passed, vec!["sysevent.fs.zfs.pool_import", "sysevent.fs.zfs.pool_export"]);
    assert!(tree.get_pool("tank").is_none());
}
