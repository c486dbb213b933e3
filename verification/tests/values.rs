use kuberaid::error::Error;
use kuberaid::number::{parse_i64, parse_u32, parse_u64, render_i64, render_u64, IntErrorKind};
use kuberaid::object::{props_argument, Property, PropertySource, ZfsObject, Dataset};
use kuberaid::scalar::{Float32, FromZfs, Health, JsonScalar, ZfsScalar};
use kuberaid::strmap::StrMap;
use kuberaid::text::{lines, split_once_char, trim};

fn parse_f32(t: &str) -> Option<Float32> {
    t.parse::<f32>().ok().map(|f| Float32 { bits: f.to_bits(), text: f.to_string() })
}

fn scalar(s: &str) -> ZfsScalar {
    ZfsScalar::from_str(s, &parse_f32).unwrap()
}

#[test]
fn trims_unicode_whitespace() {
    assert_eq!(trim(" \t\u{3000}value\u{a0}\n"), "value");
    assert_eq!(trim("   "), "");
}

#[test]
fn splits_lines_like_std() {
    assert_eq!(lines("a\r\nb\n\nc"), vec!["a", "b", "", "c"]);
    assert_eq!(lines("a\n"), vec!["a"]);
    assert_eq!(lines("a\r"), vec!["a\r"]);
    assert!(lines("").is_empty());
}

#[test]
fn splits_once_at_first_char() {
    assert_eq!(split_once_char("a=b=c", '='), Some(("a", "b=c")));
    assert_eq!(split_once_char("abc", '='), None);
}

#[test]
fn parses_integers_like_from_str_radix() {
    assert_eq!(parse_u64("42", 10), Ok(42));
    assert_eq!(parse_u64("+42", 10), Ok(42));
    assert_eq!(parse_u64("", 10), Err(IntErrorKind::Empty));
    assert_eq!(parse_u64("+", 10), Err(IntErrorKind::InvalidDigit));
    assert_eq!(parse_u64("-5", 10), Err(IntErrorKind::InvalidDigit));
    assert_eq!(parse_u64("18446744073709551615", 10), Ok(u64::MAX));
    assert_eq!(parse_u64("18446744073709551616", 10), Err(IntErrorKind::PosOverflow));
    assert_eq!(parse_u64("fF", 16), Ok(255));
    assert_eq!(parse_u32("100000000", 16), Err(IntErrorKind::PosOverflow));
    assert_eq!(parse_i64("-8000000000000000", 16), Ok(i64::MIN));
    assert_eq!(parse_i64("-8000000000000001", 16), Err(IntErrorKind::NegOverflow));
    assert_eq!(parse_i64("-", 16), Err(IntErrorKind::InvalidDigit));
}

#[test]
fn renders_integers_like_to_string() {
    assert_eq!(render_u64(0), "0");
    assert_eq!(render_u64(u64::MAX), u64::MAX.to_string());
    assert_eq!(render_i64(i64::MIN), i64::MIN.to_string());
    assert_eq!(render_i64(-7), "-7");
}

#[test]
fn reads_scalars() {
    assert!(matches!(scalar("-"), ZfsScalar::Absent));
    assert!(matches!(scalar("0x1f"), ZfsScalar::U64(31)));
    assert!(matches!(scalar("0x0x10"), ZfsScalar::U64(16)));
    assert!(matches!(scalar("0x1 2"), ZfsScalar::String(ref s) if s == "0x1 2"));
    assert!(matches!(scalar("42"), ZfsScalar::U64(42)));
    assert!(matches!(scalar("1.5"), ZfsScalar::F32(ref f) if f.bits == 1.5f32.to_bits() && f.text == "1.5"));
    assert!(matches!(scalar("nan"), ZfsScalar::F32(ref f) if f.text == "NaN"));
    assert!(matches!(scalar("on"), ZfsScalar::String(ref s) if s == "on"));
    assert!(matches!(scalar(""), ZfsScalar::String(ref s) if s.is_empty()));
}

#[test]
fn bad_hex_scalar_is_parse_error() {
    let r = ZfsScalar::from_str("0xzz", &parse_f32);
    assert!(matches!(r, Err(Error::ParseInt(IntErrorKind::InvalidDigit))));
    let r = ZfsScalar::from_str("0x", &parse_f32);
    assert!(matches!(r, Err(Error::ParseInt(IntErrorKind::Empty))));
}

#[test]
fn json_dash_is_absent() {
    assert!(matches!(ZfsScalar::from_json(JsonScalar::String("-".to_string())), ZfsScalar::Absent));
    assert!(matches!(ZfsScalar::from_json(JsonScalar::String("x".to_string())), ZfsScalar::String(_)));
    assert!(matches!(ZfsScalar::from_json(JsonScalar::U64(3)), ZfsScalar::U64(3)));
}

#[test]
fn converts_to_u64() {
    assert_eq!(u64::from_scalar(ZfsScalar::U64(7)).unwrap(), 7);
    assert_eq!(u64::from_scalar(ZfsScalar::String("12".to_string())).unwrap(), 12);
    assert!(matches!(
        u64::from_scalar(ZfsScalar::String("x".to_string())),
        Err(Error::ParseInt(IntErrorKind::InvalidDigit))
    ));
    assert!(matches!(
        u64::from_scalar(ZfsScalar::Absent),
        Err(Error::InvalidProperty { property: "u64", src: "expected u64 or string representation" })
    ));
}

#[test]
fn converts_to_string() {
    assert_eq!(String::from_scalar(ZfsScalar::U64(42)).unwrap(), "42");
    assert_eq!(String::from_scalar(ZfsScalar::Absent).unwrap(), "-");
    assert_eq!(String::from_scalar(scalar("1e3")).unwrap(), "1000");
    assert_eq!(String::from_scalar(ZfsScalar::String("tank".to_string())).unwrap(), "tank");
}

#[test]
fn u64_text_round_trip() {
    for n in [0u64, 9, 10, 1234567890, u64::MAX] {
        let text = String::from_scalar(ZfsScalar::U64(n)).unwrap();
        assert!(matches!(scalar(&text), ZfsScalar::U64(m) if m == n));
        assert_eq!(u64::from_scalar(ZfsScalar::String(text)).unwrap(), n);
    }
}

#[test]
fn converts_to_bool() {
    for (w, b) in [("on", true), ("off", false), ("enabled", true), ("disabled", false), ("active", true), ("inactive", false)] {
        assert_eq!(bool::from_scalar(ZfsScalar::String(w.to_string())).unwrap(), b);
    }
    assert!(bool::from_scalar(ZfsScalar::U64(2)).unwrap());
    assert!(!bool::from_scalar(ZfsScalar::U64(0)).unwrap());
    assert!(!bool::from_scalar(ZfsScalar::Absent).unwrap());
    assert!(!bool::from_scalar(scalar("-0.0")).unwrap());
    assert!(bool::from_scalar(scalar("nan")).unwrap());
    assert!(bool::from_scalar(scalar("0.5")).unwrap());
    assert!(matches!(
        bool::from_scalar(ZfsScalar::String("maybe".to_string())),
        Err(Error::UnknownValue { what: "boolean", ref value }) if value == "maybe"
    ));
}

#[test]
fn absent_converts_to_none() {
    assert_eq!(Option::<u64>::from_scalar(ZfsScalar::Absent).unwrap(), None);
    assert_eq!(Option::<u64>::from_scalar(ZfsScalar::U64(5)).unwrap(), Some(5));
    assert!(Option::<u64>::from_scalar(ZfsScalar::String("x".to_string())).is_err());
}

#[test]
fn converts_health() {
    assert_eq!(Health::from_scalar(ZfsScalar::String("ONLINE".to_string())).unwrap(), Health::Online);
    assert_eq!(Health::from_scalar(ZfsScalar::String("DEGRADED".to_string())).unwrap(), Health::Degraded);
    assert_eq!(Health::from_scalar(ZfsScalar::String("OFFLINE".to_string())).unwrap(), Health::Offline);
    assert!(matches!(
        Health::from_scalar(ZfsScalar::String("FAULTED".to_string())),
        Err(Error::UnknownValue { what: "health", ref value }) if value == "FAULTED"
    ));
    assert!(matches!(
        Health::from_scalar(ZfsScalar::U64(1)),
        Err(Error::InvalidProperty { property: "health", src: "expected string" })
    ));
}

fn dataset_with(props: &[(&str, ZfsScalar)]) -> ZfsObject<Dataset> {
    let mut properties = StrMap::new();
    for (k, v) in props {
        properties.insert(k.to_string(), Property { value: v.duplicate(), source: PropertySource::Local });
    }
    ZfsObject { name: "lab/test".to_string(), kind: "FILESYSTEM".to_string(), inner: Dataset {}, properties }
}

#[test]
fn reads_dataset_property() {
    let d = dataset_with(&[("atime", ZfsScalar::String("on".to_string())), ("quota", ZfsScalar::Absent)]);
    assert_eq!(d.property::<bool>("atime").unwrap(), Some(true));
    assert_eq!(d.property::<Option<u64>>("quota").unwrap(), Some(None));
    assert_eq!(d.property::<bool>("missing").unwrap(), None);
    assert!(d.property::<u64>("atime").is_err());
}

#[test]
fn refreshes_dataset_property() {
    let mut d = dataset_with(&[("atime", ZfsScalar::String("on".to_string()))]);
    let fetched = dataset_with(&[("atime", ZfsScalar::String("off".to_string()))]);
    assert_eq!(d.refresh_property_with::<bool, Dataset>("atime", Some(fetched)).unwrap(), Some(false));
    assert_eq!(d.property::<bool>("atime").unwrap(), Some(false));
    assert_eq!(d.refresh_property_with::<bool, Dataset>("atime", None).unwrap(), None);
    assert_eq!(d.property::<bool>("atime").unwrap(), Some(false));
}

#[test]
fn converts_raw_property() {
    let p = Property::<bool>::from_raw(ZfsScalar::String("on".to_string()), PropertySource::Default).unwrap();
    assert!(p.value);
    assert!(matches!(p.source, PropertySource::Default));
    assert!(Property::<u64>::from_raw(ZfsScalar::Absent, PropertySource::Local).is_err());
}

#[test]
fn builds_property_argument() {
    assert_eq!(props_argument(&vec![]), "all");
    assert_eq!(props_argument(&vec!["", ""]), "all");
    assert_eq!(props_argument(&vec!["atime"]), "atime");
    assert_eq!(props_argument(&vec!["atime", "", "quota"]), "atime,quota");
}

#[test]
fn hex_text_reads_back() {
    for n in [0u64, 1, 15, 16, 255, 0xdead_beef, u64::MAX] {
        assert!(matches!(scalar(&format!("{n:#x}")), ZfsScalar::U64(v) if v == n));
        assert!(matches!(scalar(&n.to_string()), ZfsScalar::U64(v) if v == n));
    }
}
