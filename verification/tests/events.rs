use kuberaid::cli::read_event_block;
use kuberaid::error::Error;
use kuberaid::event::{
    event_kind_would_panic, event_text_would_panic, get_key, parse_event, parse_time, time_from_parts, HistoryEventKind, RawProps, Timestamp,
    ZfsEvent, ZfsEventKind,
};
use kuberaid::number::IntErrorKind;
use kuberaid::scalar::{Float32, ZfsScalar};
use kuberaid::strmap::StrMap;

fn parse_f32(t: &str) -> Option<Float32> {
    t.parse::<f32>().ok().map(|f| Float32 { bits: f.to_bits(), text: f.to_string() })
}

const COMMON: &str = "class = \"CLASS\"\n\tversion = 0x0\n\teid = 0x5\n\tpool = \"tank\"\n\tpool_guid = 0x2a\n\tpool_state = 0x0\n\tpool_context = 0x1\n\ttime = 0x67890abc 0x1f\n";

fn event_text(class: &str, extra: &str) -> String {
    format!("{class}\n\t{}{extra}", COMMON.replace("CLASS", class))
}

#[test]
fn reads_pool_import_event() {
    let text = event_text("sysevent.fs.zfs.pool_import", "");
    let e = parse_event(&text, &parse_f32).unwrap();
    assert_eq!(e.class, "sysevent.fs.zfs.pool_import");
    assert_eq!((e.version, e.eid, e.pool_guid, e.pool_state, e.pool_context), (0, 5, 42, 0, 1));
    assert_eq!(e.pool, "tank");
    assert_eq!(e.time, Timestamp { secs: 0x67890abc, nanos: 31 });
    assert!(matches!(e.kind, ZfsEventKind::PoolImport));
}

#[test]
fn reads_export_destroy_and_sync_events() {
    for (class, want) in [
        ("sysevent.fs.zfs.pool_export", 0),
        ("sysevent.fs.zfs.pool_destroy", 1),
        ("sysevent.fs.zfs.config_sync", 2),
    ] {
        let e = parse_event(&event_text(class, ""), &parse_f32).unwrap();
        let got = match e.kind {
            ZfsEventKind::PoolExport => 0,
            ZfsEventKind::PoolDestroy => 1,
            ZfsEventKind::ConfigSync => 2,
            _ => 9,
        };
        assert_eq!(got, want);
    }
}

#[test]
fn reads_history_set_event() {
    let extra = "\thistory_hostname = \"node1\"\n\thistory_internal_str = \"atime=off\"\n\thistory_internal_name = \"set\"\n\thistory_txg = 0x10\n";
    let e = parse_event(&event_text("sysevent.fs.zfs.history_event", extra), &parse_f32).unwrap();
    match e.kind {
        ZfsEventKind::HistoryEvent { hostname, txg, kind } => {
            assert_eq!(hostname, "node1");
            assert_eq!(txg, 16);
            match kind {
                HistoryEventKind::SetProperty { property, value, dataset } => {
                    assert_eq!(property, "atime");
                    assert!(matches!(value, ZfsScalar::String(ref s) if s == "off"));
                    assert!(dataset.is_none());
                }
                _ => panic!("expected a set"),
            }
        }
        _ => panic!("expected a history event"),
    }
}

#[test]
fn history_dataset_needs_both_keys() {
    let extra = "\thistory_hostname = \"node1\"\n\thistory_internal_str = \"quota=0x400\"\n\thistory_internal_name = \"set\"\n\thistory_txg = 0x10\n\thistory_dsid = 0x7\n\thistroy_dsname = \"x\"\n\thistory_dsname = \"tank/data\"\n";
    let e = parse_event(&event_text("sysevent.fs.zfs.history_event", extra), &parse_f32).unwrap();
    match e.kind {
        ZfsEventKind::HistoryEvent { kind: HistoryEventKind::SetProperty { value, dataset, .. }, .. } => {
            assert!(matches!(value, ZfsScalar::U64(1024)));
            let d = dataset.unwrap();
            assert_eq!((d.id, d.name.as_str()), (7, "tank/data"));
        }
        _ => panic!("expected a set"),
    }
    let extra = "\thistory_hostname = \"node1\"\n\thistory_internal_str = \"quota=0x400\"\n\thistory_internal_name = \"set\"\n\thistory_txg = 0x10\n\thistory_dsid = 0x7\n\thistory_dsname = \"tank/data\"\n";
    let e = parse_event(&event_text("sysevent.fs.zfs.history_event", extra), &parse_f32).unwrap();
    match e.kind {
        ZfsEventKind::HistoryEvent { kind: HistoryEventKind::SetProperty { dataset, .. }, .. } => {
            assert!(dataset.is_none())
        }
        _ => panic!("expected a set"),
    }
}

#[test]
fn history_other_name_is_unknown() {
    let extra = "\thistory_hostname = \"node1\"\n\thistory_internal_str = \"pool version 5000\"\n\thistory_internal_name = \"create\"\n\thistory_txg = 0x4\n";
    let e = parse_event(&event_text("sysevent.fs.zfs.history_event", extra), &parse_f32).unwrap();
    match e.kind {
        ZfsEventKind::HistoryEvent { kind: HistoryEventKind::Unknown { name, value, dataset }, .. } => {
            assert_eq!(name, "create");
            assert_eq!(value, "pool version 5000");
            assert!(dataset.is_none());
        }
        _ => panic!("expected an unknown history kind"),
    }
}

#[test]
fn history_missing_hostname_fails() {
    let extra = "\thistory_internal_str = \"a=b\"\n\thistory_internal_name = \"set\"\n\thistory_txg = 0x4\n";
    let r = parse_event(&event_text("sysevent.fs.zfs.history_event", extra), &parse_f32);
    assert!(matches!(r, Err(Error::MissingKey(ref k)) if k == "history_hostname"));
}

#[test]
fn other_class_keeps_raw_properties() {
    let extra = "\tvdev_guid = 0x99\n\tzio_err = \"5\"\n";
    let e = parse_event(&event_text("ereport.fs.zfs.io", extra), &parse_f32).unwrap();
    match e.kind {
        ZfsEventKind::Raw(mut props) => {
            assert_eq!(props.len(), 2);
            assert_eq!(get_key::<u64>(&mut props, "vdev_guid").unwrap(), 0x99);
            assert_eq!(get_key::<u64>(&mut props, "zio_err").unwrap(), 5);
            assert!(!props.contains_key(&"vdev_guid".to_string()));
        }
        _ => panic!("expected raw"),
    }
}

#[test]
fn raw_event_reads_until_empty_line() {
    let text = format!("{}\n\tignored_key_without_equals\n", event_text("ereport.fs.zfs.io", ""));
    let raw = ZfsEvent::<RawProps>::from_str(&text, &parse_f32).unwrap();
    assert_eq!(raw.class, "ereport.fs.zfs.io");
    assert_eq!(raw.kind.len(), 0);
}

#[test]
fn text_without_time_or_class_is_no_event() {
    let text = "something\n\tfoo = 1\n";
    let r = ZfsEvent::<RawProps>::from_str(text, &parse_f32);
    assert!(matches!(r, Err(Error::EventParse(ref m)) if m == "not an event: something\n\tfoo = 1\n"));
}

#[test]
fn event_without_time_gets_epoch() {
    let text = "c\n\tclass = \"c\"\n\tversion = 0x1\n\teid = 0x2\n\tpool = \"p\"\n\tpool_guid = 0x3\n\tpool_state = 0x4\n\tpool_context = 0x5\n";
    let raw = ZfsEvent::<RawProps>::from_str(text, &parse_f32).unwrap();
    assert_eq!(raw.time, Timestamp::epoch());
    assert_eq!(raw.pool_context, 5);
}

#[test]
fn event_missing_version_fails() {
    let text = "c\n\tclass = \"c\"\n\ttime = 0x1 0x0\n";
    let r = ZfsEvent::<RawProps>::from_str(text, &parse_f32);
    assert!(matches!(r, Err(Error::MissingKey(ref k)) if k == "version"));
}

#[test]
fn event_bad_hex_value_fails() {
    let text = "c\n\tclass = \"c\"\n\tversion = 0xzz\n";
    let r = ZfsEvent::<RawProps>::from_str(text, &parse_f32);
    assert!(matches!(r, Err(Error::EventParse(ref m)) if m == "parse error: invalid digit found in string"));
}

#[test]
fn event_float_version_is_invalid_property() {
    let text = "c\n\tclass = \"c\"\n\tversion = 1.5\n\ttime = 0x1 0x0\n";
    let r = ZfsEvent::<RawProps>::from_str(text, &parse_f32);
    assert!(matches!(r, Err(Error::InvalidProperty { property: "u64", .. })));
}

#[test]
fn reads_times() {
    assert_eq!(parse_time("0x5f5e1000 0x0").unwrap(), Timestamp { secs: 0x5f5e1000, nanos: 0 });
    assert_eq!(parse_time("0x0x3b 0x59682f00").unwrap(), Timestamp { secs: 59, nanos: 1_500_000_000 });
    assert!(matches!(parse_time("0x3a 0x59682f00"), Err(Error::EventParse(ref m)) if m == "timestamp out of range: 58"));
    assert!(matches!(parse_time("nospace"), Err(Error::EventParse(ref m)) if m == "invalid time format: expected 'secs nanos', got 'nospace'"));
    assert!(matches!(parse_time("zz 0x0"), Err(Error::EventParse(ref m)) if m == "invalid seconds hex in: zz 0x0"));
    assert!(matches!(parse_time("0x1 0x100000000"), Err(Error::EventParse(ref m)) if m == "invalid nanoseconds hex in: 0x1 0x100000000"));
    assert!(matches!(parse_time("0x7fffffffffffffff 0x0"), Err(Error::EventParse(ref m)) if m == "timestamp out of range: 9223372036854775807"));
    assert!(matches!(parse_time("-0x1 0x0"), Err(Error::EventParse(_))));
    assert_eq!(parse_time("0x-1 0x0").unwrap(), Timestamp { secs: -1, nanos: 0 });
}

#[test]
fn time_parts_take_chrono_answer() {
    assert_eq!(time_from_parts(5, 6, Some(Timestamp { secs: 5, nanos: 6 })).unwrap(), Timestamp { secs: 5, nanos: 6 });
    assert!(matches!(time_from_parts(-12, 0, None), Err(Error::EventParse(ref m)) if m == "timestamp out of range: -12"));
}

#[test]
fn get_key_takes_value_out() {
    let mut props: RawProps = StrMap::new();
    props.insert("a".to_string(), ZfsScalar::U64(3));
    assert_eq!(get_key::<u64>(&mut props, "a").unwrap(), 3);
    assert!(matches!(get_key::<u64>(&mut props, "a"), Err(Error::MissingKey(ref k)) if k == "a"));
}

#[test]
fn later_instants_compare() {
    let a = Timestamp { secs: 10, nanos: 5 };
    let b = Timestamp { secs: 10, nanos: 6 };
    assert!(b.is_later_than(&a));
    assert!(!a.is_later_than(&b));
    assert!(!a.is_later_than(&a));
    let _ = IntErrorKind::Empty;
}

#[test]
fn detects_texts_the_reader_stops_on() {
    assert!(event_text_would_panic("", &parse_f32));
    assert!(event_text_would_panic("c\n\tno equals sign\n", &parse_f32));
    assert!(!event_text_would_panic("c\n\tversion = 0xzz\n\tno equals sign\n", &parse_f32));
    assert!(event_text_would_panic("c\n\tclass = \"d\"\n\ttime = 0x1 0x0\n", &parse_f32));
    assert!(!event_text_would_panic(&event_text("sysevent.fs.zfs.pool_import", ""), &parse_f32));

    let extra = "\thistory_hostname = \"node1\"\n\thistory_internal_str = \"nothing\"\n\thistory_internal_name = \"set\"\n\thistory_txg = 0x10\n";
    let raw = ZfsEvent::<RawProps>::from_str(&event_text("sysevent.fs.zfs.history_event", extra), &parse_f32).unwrap();
    assert!(event_kind_would_panic(&raw));
    let extra = "\thistory_hostname = \"node1\"\n\thistory_internal_str = \"a=b\"\n\thistory_internal_name = \"set\"\n\thistory_txg = 0x10\n";
    let raw = ZfsEvent::<RawProps>::from_str(&event_text("sysevent.fs.zfs.history_event", extra), &parse_f32).unwrap();
    assert!(!event_kind_would_panic(&raw));
}

#[test]
fn time_range_follows_chrono() {
    assert_eq!(parse_time("0x7779a0a6b7f 0x0").unwrap(), Timestamp { secs: 8_210_266_876_799, nanos: 0 });
    assert!(matches!(parse_time("0x7779a0a6b80 0x0"), Err(Error::EventParse(ref m)) if m == "timestamp out of range: 8210266876800"));
    assert_eq!(parse_time("-7948cf21200 0x0").unwrap(), Timestamp { secs: -8_334_601_228_800, nanos: 0 });
    assert!(matches!(parse_time("-7948cf21201 0x0"), Err(Error::EventParse(ref m)) if m == "timestamp out of range: -8334601228801"));
}

fn raw_props(entries: &[(&str, ZfsScalar)]) -> RawProps {
    let mut p: RawProps = StrMap::new();
    for (k, v) in entries {
        p.insert(k.to_string(), v.duplicate());
    }
    p
}

#[test]
fn history_kind_failure_takes_out_what_was_read() {
    let mut p = raw_props(&[("history_internal_str", ZfsScalar::String("a=b".to_string())), ("x", ZfsScalar::U64(1))]);
    let r = HistoryEventKind::try_from(&mut p, &parse_f32);
    assert!(matches!(r, Err(Error::MissingKey(ref k)) if k == "history_internal_name"));
    assert_eq!(p.len(), 2);
    assert!(p.contains_key(&"history_internal_str".to_string()));

    let mut p = raw_props(&[("history_internal_name", ZfsScalar::String("set".to_string())), ("x", ZfsScalar::U64(1))]);
    let r = HistoryEventKind::try_from(&mut p, &parse_f32);
    assert!(matches!(r, Err(Error::MissingKey(ref k)) if k == "history_internal_str"));
    assert_eq!(p.len(), 1);
    assert!(p.contains_key(&"x".to_string()));

    let mut p = raw_props(&[
        ("history_internal_name", ZfsScalar::String("set".to_string())),
        ("history_internal_str", ZfsScalar::String("a=b".to_string())),
        ("history_dsid", ZfsScalar::String("zz".to_string())),
        ("histroy_dsname", ZfsScalar::String("d".to_string())),
        ("history_dsname", ZfsScalar::String("tank/d".to_string())),
    ]);
    assert!(HistoryEventKind::try_from(&mut p, &parse_f32).is_err());
    assert_eq!(p.len(), 2);
    assert!(p.contains_key(&"histroy_dsname".to_string()));
    assert!(p.contains_key(&"history_dsname".to_string()));
}

#[test]
fn reading_ignores_text_after_empty_line() {
    let base = event_text("sysevent.fs.zfs.pool_import", "");
    let s1 = base.trim_end_matches('\n');
    for t in ["", "no equals sign", "\tversion = 0xzz\n\tclass = \"other\"\n"] {
        for first in [s1, base.as_str()] {
            let text = format!("{first}\n\n{t}");
            assert!(!event_text_would_panic(&text, &parse_f32));
            let a = parse_event(first, &parse_f32).unwrap();
            let b = parse_event(&text, &parse_f32).unwrap();
            assert_eq!((a.class, a.pool, a.eid, a.time), (b.class, b.pool, b.eid, b.time));
        }
    }
    let text = "c\n\tfoo = 0x1\n\nclass = \"c\"";
    assert!(matches!(ZfsEvent::<RawProps>::from_str(text, &parse_f32), Err(Error::EventParse(ref m)) if m == &format!("not an event: {text}")));
}

#[test]
fn reads_event_blocks() {
    let text = event_text("sysevent.fs.zfs.pool_export", "");
    match read_event_block(&text.as_bytes().to_vec(), &parse_f32) {
        Some(Ok(e)) => assert!(matches!(e.kind, ZfsEventKind::PoolExport)),
        _ => panic!("expected an event"),
    }
    assert!(read_event_block(&b"c\n\tno equals sign\n".to_vec(), &parse_f32).is_none());
    let mut bad = b"c\n\tfoo = \"a".to_vec();
    bad.push(0xff);
    bad.extend_from_slice(b"\"\n\ttime = 0x1 0x0\n");
    assert!(matches!(read_event_block(&bad, &parse_f32), Some(Err(Error::MissingKey(ref k))) if k == "class"));
    let extra = "\thistory_hostname = \"node1\"\n\thistory_internal_str = \"nothing\"\n\thistory_internal_name = \"set\"\n\thistory_txg = 0x10\n";
    let text = event_text("sysevent.fs.zfs.history_event", extra);
    assert!(read_event_block(&text.as_bytes().to_vec(), &parse_f32).is_none());
}

#[test]
fn reading_ignores_text_after_empty_line_with_carriage_returns() {
    let base = event_text("sysevent.fs.zfs.pool_import", "");
    let s1 = format!("{}\r", base.trim_end_matches('\n'));
    let text = format!("{s1}\n\nno equals sign");
    let a = parse_event(&s1, &parse_f32).unwrap();
    let b = parse_event(&text, &parse_f32).unwrap();
    assert_eq!((a.class, a.time), (b.class, b.time));
    // A single line ending in `\r` is no event either way.
    assert!(matches!(ZfsEvent::<RawProps>::from_str("c\r", &parse_f32), Err(Error::EventParse(_))));
    assert!(matches!(ZfsEvent::<RawProps>::from_str("c\r\n\nx", &parse_f32), Err(Error::EventParse(_))));
    // The exception: a last line that is a bare `\r` becomes the empty line.
    assert!(event_text_would_panic("c\n\r", &parse_f32));
    assert!(!event_text_would_panic("c\n\r\n\nx", &parse_f32));
}
