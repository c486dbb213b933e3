//! Events of `zpool events -vH`: the text of one event, its properties, and the typed
//! event made from them.
use vstd::prelude::*;

use crate::error::{parse_int_display, parse_int_message, result_view, Error, ErrorView};
use crate::number::{parse_i64, parse_i64_spec, parse_u32, parse_u32_spec, signed_decimal};
use crate::scalar::{
    float_parse_of, float_parser, scalar_from_str_spec, Float32, FloatView, FromZfs, ScalarView,
    ZfsScalar,
};
use crate::strmap::StrMap;
use crate::text::{
    lines, lines_spec, split_once_char, split_once_spec, str_equal, strip_hex_prefixes,
    strip_hex_prefixes_exec, trim, trim_set, trim_spec, views, CharSet,
};

verus! {

/// An instant in UTC: seconds since the Unix epoch and nanoseconds into that second (at
/// or above one billion during a leap second).
#[derive(Debug, Clone, Copy, PartialEq, Eq)]
pub struct Timestamp {
    pub secs: i64,
    pub nanos: u32,
}

impl DeepView for Timestamp {
    type V = Timestamp;

    open spec fn deep_view(&self) -> Timestamp {
        *self
    }
}

impl Timestamp {
    /// The Unix epoch, the default instant.
    pub fn epoch() -> (r: Timestamp)
        ensures
            r == (Timestamp { secs: 0, nanos: 0 }),
    {
        Timestamp { secs: 0, nanos: 0 }
    }

    pub open spec fn later_than(self, other: Timestamp) -> bool {
        self.secs > other.secs || (self.secs == other.secs && self.nanos > other.nanos)
    }

    /// Whether `self` comes after `other`.
    pub fn is_later_than(&self, other: &Timestamp) -> (b: bool)
        ensures
            b == self.later_than(*other),
    {
        self.secs > other.secs || (self.secs == other.secs && self.nanos > other.nanos)
    }
}

/// Whether the day of the Unix time `secs` lies within the dates that chrono represents:
/// from January 1 of the year -262143 to December 31 of the year 262142 (chrono's
/// `NaiveDate::MIN` and `NaiveDate::MAX`), that is days -95,746,129 to 95,745,399 when
/// January 1 of the year 1 is day 1 and the Unix epoch day 719,163.
pub open spec fn chrono_day_in_range(secs: i64) -> bool {
    -8_334_601_228_800 <= secs <= 8_210_266_876_799
}

/// Whether chrono's `DateTime::from_timestamp(secs, nanos)` gives an instant.
pub open spec fn chrono_accepts(secs: i64, nanos: u32) -> bool {
    &&& chrono_day_in_range(secs)
    &&& nanos < 2_000_000_000
    &&& nanos >= 1_000_000_000 ==> secs % 60 == 59
}

/// Calls chrono's `DateTime::<Utc>::from_timestamp(secs, nanos)`. Its source returns
/// `None` when the day is out of chrono's date range, when `nanos` reaches two billion,
/// or when it reaches one billion outside the last second of a minute; otherwise it
/// returns the instant, which gives back `secs` and `nanos` (chrono documents the round
/// trip). The date range is that of `chrono_day_in_range`.
#[verifier::external_body]
fn chrono_timestamp(secs: i64, nanos: u32) -> (r: Option<Timestamp>)
    ensures
        r is Some == (chrono_day_in_range(secs) && nanos < 2_000_000_000 && (nanos
            >= 1_000_000_000 ==> secs % 60 == 59)),
        r is Some ==> r->0 == (Timestamp { secs, nanos }),
{
    chrono::DateTime::<chrono::Utc>::from_timestamp(secs, nanos).map(
        |d| Timestamp { secs: d.timestamp(), nanos: d.timestamp_subsec_nanos() },
    )
}

/// The error for a time whose instant chrono refuses.
pub open spec fn out_of_range_message(secs: i64) -> Seq<char> {
    "timestamp out of range: "@ + signed_decimal(secs as int)
}

/// The outcome of reading a time given as `secs` and `nanos`, where `checked` is what
/// chrono gave for them.
pub open spec fn time_from_parts_spec(secs: i64, nanos: u32, checked: Option<Timestamp>) -> Result<
    Timestamp,
    ErrorView,
> {
    match checked {
        Some(t) => Ok(t),
        None => Err(ErrorView::EventParse(out_of_range_message(secs))),
    }
}

/// The instant chrono gave, or the out-of-range error naming `secs`.
pub fn time_from_parts(secs: i64, nanos: u32, checked: Option<Timestamp>) -> (r: Result<
    Timestamp,
    Error,
>)
    ensures
        result_view(r) == time_from_parts_spec(secs, nanos, checked),
{
    match checked {
        Some(t) => Ok(t),
        None => {
            let digits = crate::number::render_i64(secs);
            Err(Error::EventParse(crate::text::concat_str("timestamp out of range: ", digits.as_str())))
        },
    }
}

/// `parse_time`: two hexadecimal numbers, each with any `0x` prefixes, separated by a
/// space: seconds (`i64`) and nanoseconds (`u32`).
pub open spec fn parse_time_spec(s: Seq<char>) -> Result<Timestamp, ErrorView> {
    match split_once_spec(s, ' ') {
        None => Err(
            ErrorView::EventParse(
                "invalid time format: expected 'secs nanos', got '"@ + s + "'"@,
            ),
        ),
        Some(parts) => match parse_i64_spec(strip_hex_prefixes(parts.0), 16) {
            Err(_) => Err(ErrorView::EventParse("invalid seconds hex in: "@ + s)),
            Ok(secs) => match parse_u32_spec(strip_hex_prefixes(parts.1), 16) {
                Err(_) => Err(ErrorView::EventParse("invalid nanoseconds hex in: "@ + s)),
                Ok(nanos) => if chrono_accepts(secs as i64, nanos as u32) {
                    Ok(Timestamp { secs: secs as i64, nanos: nanos as u32 })
                } else {
                    Err(ErrorView::EventParse(out_of_range_message(secs as i64)))
                },
            },
        },
    }
}

/// Reads the time of an event, `secs nanos` in hexadecimal.
pub fn parse_time(s: &str) -> (r: Result<Timestamp, Error>)
    ensures
        result_view(r) == parse_time_spec(s@),
{
    let (a, b) = match split_once_char(s, ' ') {
        Some(p) => p,
        None => {
            let head = crate::text::concat_str(
                "invalid time format: expected 'secs nanos', got '",
                s,
            );
            let msg = crate::text::concat_str(head.as_str(), "'");
            return Err(Error::EventParse(msg));
        },
    };
    let secs = match parse_i64(strip_hex_prefixes_exec(a), 16) {
        Ok(v) => v,
        Err(_) => {
            return Err(Error::EventParse(crate::text::concat_str("invalid seconds hex in: ", s)));
        },
    };
    let nanos = match parse_u32(strip_hex_prefixes_exec(b), 16) {
        Ok(v) => v,
        Err(_) => {
            return Err(
                Error::EventParse(crate::text::concat_str("invalid nanoseconds hex in: ", s)),
            );
        },
    };
    time_from_parts(secs, nanos, chrono_timestamp(secs, nanos))
}

/// The properties of an event that are not yet read into typed fields.
pub type RawProps = StrMap<ZfsScalar>;

/// `get_key`: the value of `key` converted to `T`, or `MissingKey` when there is none.
pub open spec fn get_key_spec<T: FromZfs>(m: Map<Seq<char>, ScalarView>, key: Seq<char>) -> Result<
    T::V,
    ErrorView,
> {
    if m.dom().contains(key) {
        T::from_scalar_spec(m[key])
    } else {
        Err(ErrorView::MissingKey(key))
    }
}

/// Takes `key` out of the properties and converts its value to `T`.
pub fn get_key<T: FromZfs>(v: &mut RawProps, key: &str) -> (r: Result<T, Error>)
    ensures
        final(v).deep_view() == old(v).deep_view().remove(key@),
        result_view(r) == get_key_spec::<T>(old(v).deep_view(), key@),
{
    let k = crate::text::to_owned_string(key);
    match v.remove(&k) {
        Some(x) => T::from_scalar(x),
        None => Err(Error::MissingKey(k)),
    }
}

} // verus!

verus! {

/// One event of the pool's event stream; `kind` holds what the event's class says beyond
/// the fields common to all events.
#[derive(Debug)]
pub struct ZfsEvent<T = ZfsEventKind> {
    pub class: String,
    pub version: u64,
    pub eid: u64,
    pub pool: String,
    pub pool_state: u64,
    pub pool_context: u64,
    pub pool_guid: u64,
    pub kind: T,
    pub time: Timestamp,
}

pub struct EventView<K> {
    pub class: Seq<char>,
    pub version: u64,
    pub eid: u64,
    pub pool: Seq<char>,
    pub pool_state: u64,
    pub pool_context: u64,
    pub pool_guid: u64,
    pub kind: K,
    pub time: Timestamp,
}

impl<T: DeepView> DeepView for ZfsEvent<T> {
    type V = EventView<T::V>;

    open spec fn deep_view(&self) -> EventView<T::V> {
        EventView {
            class: self.class@,
            version: self.version,
            eid: self.eid,
            pool: self.pool@,
            pool_state: self.pool_state,
            pool_context: self.pool_context,
            pool_guid: self.pool_guid,
            kind: self.kind.deep_view(),
            time: self.time,
        }
    }
}

/// An event whose properties are not yet read into a typed kind.
pub type RawZfsEvent = ZfsEvent<RawProps>;

pub type PropsView = Map<Seq<char>, ScalarView>;

/// A line `key=value` read as its key and value: the line trimmed of whitespace, split at
/// the first `=`, each side trimmed of whitespace and then of double quotes. `None` when
/// the line has no `=`.
pub open spec fn line_entry(line: Seq<char>) -> Option<(Seq<char>, Seq<char>)> {
    match split_once_spec(trim_spec(line, CharSet::Whitespace), '=') {
        None => None,
        Some(p) => Some(
            (
                trim_spec(trim_spec(p.0, CharSet::Whitespace), CharSet::DoubleQuote),
                trim_spec(trim_spec(p.1, CharSet::Whitespace), CharSet::DoubleQuote),
            ),
        ),
    }
}

/// The lines of an event after its class line, up to the first empty line.
pub open spec fn take_until_empty(ls: Seq<Seq<char>>) -> Seq<Seq<char>>
    decreases ls.len(),
{
    if ls.len() == 0 || ls[0].len() == 0 {
        seq![]
    } else {
        seq![ls[0]] + take_until_empty(ls.drop_first())
    }
}

/// How a failure to read a value shows in an event: its text, wrapped as an event error.
pub open spec fn as_event_error(e: ErrorView) -> ErrorView {
    match e {
        ErrorView::ParseInt(k) => ErrorView::EventParse(parse_int_display(k)),
        other => other,
    }
}

/// The properties and time read from the lines of an event, line by line: `time` is read
/// as a time (the last one counts), every other key as a value (the last one counts).
/// The first line that fails decides the error.
pub open spec fn read_props<F: Fn(&str) -> Option<Float32>>(
    body: Seq<Seq<char>>,
    props: PropsView,
    time: Option<Timestamp>,
    f: F,
) -> Result<(PropsView, Option<Timestamp>), ErrorView>
    decreases body.len(),
{
    if body.len() == 0 {
        Ok((props, time))
    } else {
        match line_entry(body[0]) {
            None => Ok((props, time)),
            Some(kv) => if kv.0 == "time"@ {
                match parse_time_spec(kv.1) {
                    Ok(t) => read_props(body.drop_first(), props, Some(t), f),
                    Err(e) => Err(e),
                }
            } else {
                let t = trim_spec(kv.1, CharSet::Whitespace);
                match scalar_from_str_spec(t, float_parse_of(f, t)) {
                    Ok(x) => read_props(body.drop_first(), props.insert(kv.0, x), time, f),
                    Err(e) => Err(as_event_error(e)),
                }
            },
        }
    }
}

/// Whether reading the lines of an event meets a line without `=` before any error:
/// the reader stops with a panic there.
pub open spec fn body_panics(body: Seq<Seq<char>>) -> bool
    decreases body.len(),
{
    if body.len() == 0 {
        false
    } else {
        match line_entry(body[0]) {
            None => true,
            Some(kv) => if kv.0 == "time"@ {
                parse_time_spec(kv.1) is Ok && body_panics(body.drop_first())
            } else {
                scalar_from_str_spec(trim_spec(kv.1, CharSet::Whitespace), None) is Ok
                    && body_panics(body.drop_first())
            },
        }
    }
}

/// The body lines of an event text: after the first line, up to the first empty line.
pub open spec fn event_body(s: Seq<char>) -> Seq<Seq<char>> {
    take_until_empty(lines_spec(s).drop_first())
}

/// Whether the event text `s` reaches the reader's (debug) check that its first line
/// equals its `class` property, with another class.
pub open spec fn class_mismatch<F: Fn(&str) -> Option<Float32>>(s: Seq<char>, f: F) -> bool {
    match read_props(event_body(s), Map::empty(), None, f) {
        Ok(r) => {
            &&& r.0.dom().contains("class"@)
            &&& <String as FromZfs>::from_scalar_spec(r.0["class"@]) != Ok::<
                Seq<char>,
                ErrorView,
            >(lines_spec(s)[0])
        },
        Err(_) => false,
    }
}

/// Whether reading the event text `s` panics: it has no line, a body line without `=` is
/// reached, or the class check fails.
pub open spec fn event_text_panics<F: Fn(&str) -> Option<Float32>>(s: Seq<char>, f: F) -> bool {
    s.len() == 0 || body_panics(event_body(s)) || class_mismatch(s, f)
}

/// The common fields taken out of the properties in order: `class`, `version`, `eid`,
/// `pool`, `pool_guid`, `pool_state`, `pool_context`; the first missing or malformed one
/// decides the error; what is left are the event's raw properties.
pub open spec fn finish_raw_event(class: Seq<char>, props: PropsView, time: Option<Timestamp>) -> Result<
    EventView<PropsView>,
    ErrorView,
> {
    match get_key_spec::<String>(props, "class"@) {
        Err(e) => Err(e),
        Ok(_) => {
            let p1 = props.remove("class"@);
            match get_key_spec::<u64>(p1, "version"@) {
                Err(e) => Err(e),
                Ok(version) => {
                    let p2 = p1.remove("version"@);
                    match get_key_spec::<u64>(p2, "eid"@) {
                        Err(e) => Err(e),
                        Ok(eid) => {
                            let p3 = p2.remove("eid"@);
                            match get_key_spec::<String>(p3, "pool"@) {
                                Err(e) => Err(e),
                                Ok(pool) => {
                                    let p4 = p3.remove("pool"@);
                                    match get_key_spec::<u64>(p4, "pool_guid"@) {
                                        Err(e) => Err(e),
                                        Ok(pool_guid) => {
                                            let p5 = p4.remove("pool_guid"@);
                                            match get_key_spec::<u64>(p5, "pool_state"@) {
                                                Err(e) => Err(e),
                                                Ok(pool_state) => {
                                                    let p6 = p5.remove("pool_state"@);
                                                    match get_key_spec::<u64>(p6, "pool_context"@) {
                                                        Err(e) => Err(e),
                                                        Ok(pool_context) => Ok(
                                                            EventView {
                                                                class,
                                                                version,
                                                                eid,
                                                                pool,
                                                                pool_state,
                                                                pool_context,
                                                                pool_guid,
                                                                kind: p6.remove("pool_context"@),
                                                                time: match time {
                                                                    Some(t) => t,
                                                                    None => Timestamp {
                                                                        secs: 0,
                                                                        nanos: 0,
                                                                    },
                                                                },
                                                            },
                                                        ),
                                                    }
                                                },
                                            }
                                        },
                                    }
                                },
                            }
                        },
                    }
                },
            }
        },
    }
}

/// Reading one event's text: the first line is the class; the body lines give properties
/// and time; a body with neither a time nor a `class` property is no event.
pub open spec fn raw_event_spec<F: Fn(&str) -> Option<Float32>>(s: Seq<char>, f: F) -> Result<
    EventView<PropsView>,
    ErrorView,
> {
    match read_props(event_body(s), Map::empty(), None, f) {
        Err(e) => Err(e),
        Ok(r) => if r.1 is None && !r.0.dom().contains("class"@) {
            Err(ErrorView::EventParse("not an event: "@ + s))
        } else {
            finish_raw_event(lines_spec(s)[0], r.0, r.1)
        },
    }
}

/// The key and value of one property line.
fn line_entry_exec(line: &str) -> (r: Option<(&str, &str)>)
    ensures
        match r {
            None => line_entry(line@) is None,
            Some(p) => line_entry(line@) == Some((p.0@, p.1@)),
        },
{
    match split_once_char(trim(line), '=') {
        None => None,
        Some((k, v)) => {
            let k = trim_set(trim(k), CharSet::DoubleQuote);
            let v = trim_set(trim(v), CharSet::DoubleQuote);
            Some((k, v))
        },
    }
}

proof fn lemma_lines_nonempty(s: Seq<char>)
    requires
        s.len() > 0,
    ensures
        lines_spec(s).len() >= 1,
{
    crate::text::lemma_span_until_le(s, '\n');
}

/// The properties and time read from the body lines of an event text.
fn read_body<F: Fn(&str) -> Option<Float32>>(s: &str, parse_f32: &F) -> (r: Result<
    (RawProps, Option<Timestamp>),
    Error,
>)
    requires
        float_parser(*parse_f32),
        s@.len() > 0,
        !body_panics(event_body(s@)),
    ensures
        match r {
            Ok(p) => read_props(event_body(s@), Map::empty(), None, *parse_f32) == Ok::<
                (PropsView, Option<Timestamp>),
                ErrorView,
            >((p.0.deep_view(), p.1)),
            Err(e) => read_props(event_body(s@), Map::empty(), None, *parse_f32) == Err::<
                (PropsView, Option<Timestamp>),
                ErrorView,
            >(e.deep_view()),
        },
{
    let ls = lines(s);
    let ghost lv = views(ls@);
    proof {
        lemma_lines_nonempty(s@);
        assert(lv.len() == ls@.len());
    }
    let ghost body = event_body(s@);
    proof {
        assert(lv.skip(1) =~= lv.drop_first());
    }
    let mut props: RawProps = StrMap::new();
    let mut time: Option<Timestamp> = None;
    let mut i: usize = 1;
    while i < ls.len() && ls[i].unicode_len() > 0
        invariant
            1 <= i <= ls@.len(),
            lv == views(ls@),
            lv == lines_spec(s@),
            body == take_until_empty(lv.skip(1)),
            float_parser(*parse_f32),
            read_props(body, Map::empty(), None, *parse_f32) == read_props(
                take_until_empty(lv.skip(i as int)),
                props.deep_view(),
                time,
                *parse_f32,
            ),
            !body_panics(take_until_empty(lv.skip(i as int))),
        decreases ls@.len() - i,
    {
        let line = ls[i];
        let ghost rest = lv.skip(i as int);
        proof {
            assert(rest[0] == line@);
            assert(rest.drop_first() =~= lv.skip(i + 1));
            assert(take_until_empty(rest) == seq![line@] + take_until_empty(rest.drop_first()));
            let tb = take_until_empty(rest);
            assert(tb[0] == line@);
            assert(tb.drop_first() =~= take_until_empty(lv.skip(i + 1)));
        }
        let (k, v) = match line_entry_exec(line) {
            Some(p) => p,
            None => {
                return vstd::pervasive::unreached();
            },
        };
        if str_equal(k, "time") {
            match parse_time(v) {
                Ok(t) => {
                    time = Some(t);
                },
                Err(e) => {
                    return Err(e);
                },
            }
        } else {
            let t = trim(v);
            match ZfsScalar::from_str(t, parse_f32) {
                Ok(x) => {
                    props.insert(crate::text::to_owned_string(k), x);
                },
                Err(e) => {
                    let e2 = match e {
                        Error::ParseInt(kind) => Error::EventParse(parse_int_message(kind)),
                        other => other,
                    };
                    return Err(e2);
                },
            }
        }
        i = i + 1;
    }
    proof {
        let rest = lv.skip(i as int);
        assert(take_until_empty(rest).len() == 0);
    }
    Ok((props, time))
}

impl ZfsEvent<RawProps> {
    /// Reads the text of one event: a class line, then `key=value` lines up to an empty
    /// line. `parse_f32` is `str::parse::<f32>`, given as plain values.
    pub fn from_str<F: Fn(&str) -> Option<Float32>>(s: &str, parse_f32: &F) -> (r: Result<
        RawZfsEvent,
        Error,
    >)
        requires
            float_parser(*parse_f32),
            !event_text_panics(s@, *parse_f32),
        ensures
            result_view(r) == raw_event_spec(s@, *parse_f32),
    {
        let ls = lines(s);
        proof {
            lemma_lines_nonempty(s@);
        }
        let class = ls[0];
        let (mut props, time) = match read_body(s, parse_f32) {
            Ok(p) => p,
            Err(e) => {
                return Err(e);
            },
        };
        let class_prop_missing = !props.contains_key(&crate::text::to_owned_string("class"));
        if time.is_none() && class_prop_missing {
            return Err(Error::EventParse(crate::text::concat_str("not an event: ", s)));
        }
        let _class_prop: String = match get_key::<String>(&mut props, "class") {
            Ok(c) => c,
            Err(e) => {
                return Err(e);
            },
        };
        let version: u64 = match get_key::<u64>(&mut props, "version") {
            Ok(x) => x,
            Err(e) => {
                return Err(e);
            },
        };
        let eid: u64 = match get_key::<u64>(&mut props, "eid") {
            Ok(x) => x,
            Err(e) => {
                return Err(e);
            },
        };
        let pool: String = match get_key::<String>(&mut props, "pool") {
            Ok(x) => x,
            Err(e) => {
                return Err(e);
            },
        };
        let pool_guid: u64 = match get_key::<u64>(&mut props, "pool_guid") {
            Ok(x) => x,
            Err(e) => {
                return Err(e);
            },
        };
        let pool_state: u64 = match get_key::<u64>(&mut props, "pool_state") {
            Ok(x) => x,
            Err(e) => {
                return Err(e);
            },
        };
        let pool_context: u64 = match get_key::<u64>(&mut props, "pool_context") {
            Ok(x) => x,
            Err(e) => {
                return Err(e);
            },
        };
        let time = match time {
            Some(t) => t,
            None => Timestamp::epoch(),
        };
        Ok(
            ZfsEvent {
                class: crate::text::to_owned_string(class),
                kind: props,
                time,
                version,
                eid,
                pool,
                pool_state,
                pool_guid,
                pool_context,
            },
        )
    }
}

} // verus!

verus! {

/// The dataset that a history event names.
#[derive(Debug)]
pub struct DatasetRef {
    pub id: u64,
    pub name: String,
}

pub struct DatasetRefView {
    pub id: u64,
    pub name: Seq<char>,
}

impl DeepView for DatasetRef {
    type V = DatasetRefView;

    open spec fn deep_view(&self) -> DatasetRefView {
        DatasetRefView { id: self.id, name: self.name@ }
    }
}

/// What a history event records.
#[derive(Debug)]
pub enum HistoryEventKind {
    SetProperty { property: String, value: ZfsScalar, dataset: Option<DatasetRef> },
    Import,
    Open,
    Unknown { name: String, value: String, dataset: Option<DatasetRef> },
}

pub enum HistoryKindView {
    SetProperty { property: Seq<char>, value: ScalarView, dataset: Option<DatasetRefView> },
    Import,
    Open,
    Unknown { name: Seq<char>, value: Seq<char>, dataset: Option<DatasetRefView> },
}

impl DeepView for HistoryEventKind {
    type V = HistoryKindView;

    open spec fn deep_view(&self) -> HistoryKindView {
        match self {
            HistoryEventKind::SetProperty { property, value, dataset } => HistoryKindView::SetProperty {
                property: property@,
                value: value.deep_view(),
                dataset: dataset.deep_view(),
            },
            HistoryEventKind::Import => HistoryKindView::Import,
            HistoryEventKind::Open => HistoryKindView::Open,
            HistoryEventKind::Unknown { name, value, dataset } => HistoryKindView::Unknown {
                name: name@,
                value: value@,
                dataset: dataset.deep_view(),
            },
        }
    }
}

/// What an event is, by its class.
#[derive(Debug)]
pub enum ZfsEventKind {
    HistoryEvent { hostname: String, txg: u64, kind: HistoryEventKind },
    ConfigSync,
    PoolImport,
    PoolExport,
    PoolDestroy,
    Raw(RawProps),
}

pub enum EventKindView {
    HistoryEvent { hostname: Seq<char>, txg: u64, kind: HistoryKindView },
    ConfigSync,
    PoolImport,
    PoolExport,
    PoolDestroy,
    Raw(PropsView),
}

impl DeepView for ZfsEventKind {
    type V = EventKindView;

    open spec fn deep_view(&self) -> EventKindView {
        match self {
            ZfsEventKind::HistoryEvent { hostname, txg, kind } => EventKindView::HistoryEvent {
                hostname: hostname@,
                txg: *txg,
                kind: kind.deep_view(),
            },
            ZfsEventKind::ConfigSync => EventKindView::ConfigSync,
            ZfsEventKind::PoolImport => EventKindView::PoolImport,
            ZfsEventKind::PoolExport => EventKindView::PoolExport,
            ZfsEventKind::PoolDestroy => EventKindView::PoolDestroy,
            ZfsEventKind::Raw(p) => EventKindView::Raw(p.deep_view()),
        }
    }
}

/// The dataset named by a history event's properties: present only when both
/// `history_dsid` and `histroy_dsname` are keys (the second spelled as the event
/// reader has always spelled it); then `history_dsid` and `history_dsname` are read.
pub open spec fn history_dataset_spec(p: PropsView) -> Result<Option<DatasetRefView>, ErrorView> {
    if p.dom().contains("history_dsid"@) && p.dom().contains("histroy_dsname"@) {
        match get_key_spec::<u64>(p, "history_dsid"@) {
            Err(e) => Err(e),
            Ok(id) => match get_key_spec::<String>(p.remove("history_dsid"@), "history_dsname"@) {
                Err(e) => Err(e),
                Ok(name) => Ok(Some(DatasetRefView { id, name })),
            },
        }
    } else {
        Ok(None)
    }
}

/// The properties left once the dataset has been read.
pub open spec fn history_dataset_rest(p: PropsView) -> PropsView {
    if p.dom().contains("history_dsid"@) && p.dom().contains("histroy_dsname"@) {
        p.remove("history_dsid"@).remove("history_dsname"@)
    } else {
        p
    }
}

/// The kind of a history event: `history_internal_name`, `history_internal_str`, the
/// dataset; a `set` splits the internal string at its first `=` into property and value.
pub open spec fn history_kind_spec<F: Fn(&str) -> Option<Float32>>(p: PropsView, f: F) -> Result<
    HistoryKindView,
    ErrorView,
> {
    match get_key_spec::<String>(p, "history_internal_name"@) {
        Err(e) => Err(e),
        Ok(name) => {
            let p1 = p.remove("history_internal_name"@);
            match get_key_spec::<String>(p1, "history_internal_str"@) {
                Err(e) => Err(e),
                Ok(internal) => {
                    let p2 = p1.remove("history_internal_str"@);
                    match history_dataset_spec(p2) {
                        Err(e) => Err(e),
                        Ok(dataset) => if name == "set"@ {
                            match split_once_spec(internal, '=') {
                                None => Ok(HistoryKindView::Unknown { name, value: internal, dataset }),
                                Some(kv) => match scalar_from_str_spec(
                                    kv.1,
                                    float_parse_of(f, kv.1),
                                ) {
                                    Err(e) => Err(e),
                                    Ok(x) => Ok(
                                        HistoryKindView::SetProperty { property: kv.0, value: x, dataset },
                                    ),
                                },
                            }
                        } else {
                            Ok(HistoryKindView::Unknown { name, value: internal, dataset })
                        },
                    }
                },
            }
        },
    }
}

/// The properties left once the kind of a history event has been read from them.
pub open spec fn history_rest(p: PropsView) -> PropsView {
    history_dataset_rest(p.remove("history_internal_name"@).remove("history_internal_str"@))
}

/// The properties after reading the kind of a history event, whether or not it is read:
/// each key the reader reaches is taken out, also when its value fails to convert; the
/// reader stops at the first key that is missing or does not convert.
pub open spec fn history_props_after(p: PropsView) -> PropsView {
    let p1 = p.remove("history_internal_name"@);
    if get_key_spec::<String>(p, "history_internal_name"@) is Err {
        p1
    } else {
        let p2 = p1.remove("history_internal_str"@);
        if get_key_spec::<String>(p1, "history_internal_str"@) is Err {
            p2
        } else if p2.dom().contains("history_dsid"@) && p2.dom().contains("histroy_dsname"@) {
            let p3 = p2.remove("history_dsid"@);
            if get_key_spec::<u64>(p2, "history_dsid"@) is Err {
                p3
            } else {
                p3.remove("history_dsname"@)
            }
        } else {
            p2
        }
    }
}

/// Whether reading the kind of a history event meets a `set` whose internal string has
/// no `=`: the reader stops with a panic there.
pub open spec fn history_panics(p: PropsView) -> bool {
    &&& get_key_spec::<String>(p, "history_internal_name"@) is Ok
    &&& get_key_spec::<String>(p.remove("history_internal_name"@), "history_internal_str"@) is Ok
    &&& history_dataset_spec(
        p.remove("history_internal_name"@).remove("history_internal_str"@),
    ) is Ok
    &&& get_key_spec::<String>(p, "history_internal_name"@)->Ok_0 == "set"@
    &&& split_once_spec(
        get_key_spec::<String>(p.remove("history_internal_name"@), "history_internal_str"@)->Ok_0,
        '=',
    ) is None
}

pub open spec fn is_history_class(c: Seq<char>) -> bool {
    c == "sysevent.fs.zfs.history_event"@
}

/// The kind of an event by its class: a history event reads `history_hostname`, its
/// kind, then `history_txg`; `config_sync`, `pool_import`, `pool_export`, `pool_destroy`
/// carry nothing; any other class keeps the raw properties.
pub open spec fn event_kind_spec<F: Fn(&str) -> Option<Float32>>(
    class: Seq<char>,
    p: PropsView,
    f: F,
) -> Result<EventKindView, ErrorView> {
    if is_history_class(class) {
        match get_key_spec::<String>(p, "history_hostname"@) {
            Err(e) => Err(e),
            Ok(hostname) => {
                let p1 = p.remove("history_hostname"@);
                match history_kind_spec(p1, f) {
                    Err(e) => Err(e),
                    Ok(kind) => match get_key_spec::<u64>(history_rest(p1), "history_txg"@) {
                        Err(e) => Err(e),
                        Ok(txg) => Ok(EventKindView::HistoryEvent { hostname, txg, kind }),
                    },
                }
            },
        }
    } else if class == "sysevent.fs.zfs.config_sync"@ {
        Ok(EventKindView::ConfigSync)
    } else if class == "sysevent.fs.zfs.pool_import"@ {
        Ok(EventKindView::PoolImport)
    } else if class == "sysevent.fs.zfs.pool_export"@ {
        Ok(EventKindView::PoolExport)
    } else if class == "sysevent.fs.zfs.pool_destroy"@ {
        Ok(EventKindView::PoolDestroy)
    } else {
        Ok(EventKindView::Raw(p))
    }
}

/// Whether typing a raw event panics (a history event with a `set` without `=`).
pub open spec fn event_kind_panics(class: Seq<char>, p: PropsView) -> bool {
    &&& is_history_class(class)
    &&& get_key_spec::<String>(p, "history_hostname"@) is Ok
    &&& history_panics(p.remove("history_hostname"@))
}

/// The typed event made from a raw one.
pub open spec fn typed_event_spec<F: Fn(&str) -> Option<Float32>>(
    raw: EventView<PropsView>,
    f: F,
) -> Result<EventView<EventKindView>, ErrorView> {
    match event_kind_spec(raw.class, raw.kind, f) {
        Err(e) => Err(e),
        Ok(kind) => Ok(
            EventView {
                class: raw.class,
                version: raw.version,
                eid: raw.eid,
                pool: raw.pool,
                pool_state: raw.pool_state,
                pool_context: raw.pool_context,
                pool_guid: raw.pool_guid,
                kind,
                time: raw.time,
            },
        ),
    }
}

impl HistoryEventKind {
    /// Reads the kind of a history event out of its properties, taking out what it reads.
    pub fn try_from<F: Fn(&str) -> Option<Float32>>(p: &mut RawProps, parse_f32: &F) -> (r: Result<
        HistoryEventKind,
        Error,
    >)
        requires
            float_parser(*parse_f32),
            !history_panics(old(p).deep_view()),
        ensures
            result_view(r) == history_kind_spec(old(p).deep_view(), *parse_f32),
            r is Ok ==> final(p).deep_view() == history_rest(old(p).deep_view()),
            final(p).deep_view() == history_props_after(old(p).deep_view()),
    {
        let ghost p0 = p.deep_view();
        let s: String = match get_key::<String>(p, "history_internal_name") {
            Ok(x) => x,
            Err(e) => {
                return Err(e);
            },
        };
        let internal: String = match get_key::<String>(p, "history_internal_str") {
            Ok(x) => x,
            Err(e) => {
                return Err(e);
            },
        };
        let dataset = if p.contains_key(&crate::text::to_owned_string("history_dsid")) && p.contains_key(
            &crate::text::to_owned_string("histroy_dsname"),
        ) {
            let id: u64 = match get_key::<u64>(p, "history_dsid") {
                Ok(x) => x,
                Err(e) => {
                    return Err(e);
                },
            };
            let name: String = match get_key::<String>(p, "history_dsname") {
                Ok(x) => x,
                Err(e) => {
                    return Err(e);
                },
            };
            Some(DatasetRef { id, name })
        } else {
            None
        };
        if str_equal(s.as_str(), "set") {
            match split_once_char(internal.as_str(), '=') {
                Some((k, v)) => {
                    match ZfsScalar::from_str(v, parse_f32) {
                        Ok(value) => Ok(
                            HistoryEventKind::SetProperty {
                                property: crate::text::to_owned_string(k),
                                value,
                                dataset,
                            },
                        ),
                        Err(e) => Err(e),
                    }
                },
                None => vstd::pervasive::unreached(),
            }
        } else {
            Ok(HistoryEventKind::Unknown { name: s, value: internal, dataset })
        }
    }
}

impl ZfsEvent<ZfsEventKind> {
    /// Types a raw event by its class.
    pub fn try_from<F: Fn(&str) -> Option<Float32>>(v: RawZfsEvent, parse_f32: &F) -> (r: Result<
        ZfsEvent<ZfsEventKind>,
        Error,
    >)
        requires
            float_parser(*parse_f32),
            !event_kind_panics(v.class@, v.kind.deep_view()),
        ensures
            result_view(r) == typed_event_spec(v.deep_view(), *parse_f32),
    {
        let mut props = v.kind;
        let kind = if str_equal(v.class.as_str(), "sysevent.fs.zfs.history_event") {
            let hostname: String = match get_key::<String>(&mut props, "history_hostname") {
                Ok(x) => x,
                Err(e) => {
                    return Err(e);
                },
            };
            let kind = match HistoryEventKind::try_from(&mut props, parse_f32) {
                Ok(x) => x,
                Err(e) => {
                    return Err(e);
                },
            };
            let txg: u64 = match get_key::<u64>(&mut props, "history_txg") {
                Ok(x) => x,
                Err(e) => {
                    return Err(e);
                },
            };
            ZfsEventKind::HistoryEvent { hostname, txg, kind }
        } else if str_equal(v.class.as_str(), "sysevent.fs.zfs.config_sync") {
            ZfsEventKind::ConfigSync
        } else if str_equal(v.class.as_str(), "sysevent.fs.zfs.pool_import") {
            ZfsEventKind::PoolImport
        } else if str_equal(v.class.as_str(), "sysevent.fs.zfs.pool_export") {
            ZfsEventKind::PoolExport
        } else if str_equal(v.class.as_str(), "sysevent.fs.zfs.pool_destroy") {
            ZfsEventKind::PoolDestroy
        } else {
            ZfsEventKind::Raw(props)
        };
        Ok(
            ZfsEvent {
                kind,
                class: v.class,
                version: v.version,
                eid: v.eid,
                pool: v.pool,
                pool_state: v.pool_state,
                pool_guid: v.pool_guid,
                pool_context: v.pool_context,
                time: v.time,
            },
        )
    }
}

/// Whether reading the event text `s` into a typed event panics.
pub open spec fn parse_event_panics<F: Fn(&str) -> Option<Float32>>(s: Seq<char>, f: F) -> bool {
    ||| event_text_panics(s, f)
    ||| (raw_event_spec(s, f) is Ok && event_kind_panics(
        raw_event_spec(s, f)->Ok_0.class,
        raw_event_spec(s, f)->Ok_0.kind,
    ))
}

/// Reading the text of an event into a typed event.
pub open spec fn parse_event_spec<F: Fn(&str) -> Option<Float32>>(s: Seq<char>, f: F) -> Result<
    EventView<EventKindView>,
    ErrorView,
> {
    match raw_event_spec(s, f) {
        Err(e) => Err(e),
        Ok(raw) => typed_event_spec(raw, f),
    }
}

/// Reads the text of one event as `zpool events -vH` prints it into a typed event.
pub fn parse_event<F: Fn(&str) -> Option<Float32>>(s: &str, parse_f32: &F) -> (r: Result<
    ZfsEvent<ZfsEventKind>,
    Error,
>)
    requires
        float_parser(*parse_f32),
        !parse_event_panics(s@, *parse_f32),
    ensures
        result_view(r) == parse_event_spec(s@, *parse_f32),
{
    match ZfsEvent::<RawProps>::from_str(s, parse_f32) {
        Ok(raw) => ZfsEvent::<ZfsEventKind>::try_from(raw, parse_f32),
        Err(e) => Err(e),
    }
}

} // verus!

verus! {

proof fn lemma_scalar_ok_any_float(t: Seq<char>, x: Option<FloatView>)
    ensures
        scalar_from_str_spec(t, x) is Ok == scalar_from_str_spec(t, None) is Ok,
{
}

/// Whether the text has no line or its body reaches a line without `=`.
fn body_would_panic<F: Fn(&str) -> Option<Float32>>(s: &str, parse_f32: &F) -> (b: bool)
    requires
        float_parser(*parse_f32),
    ensures
        b == (s@.len() == 0 || body_panics(event_body(s@))),
{
    if s.unicode_len() == 0 {
        return true;
    }
    let ls = lines(s);
    let ghost lv = views(ls@);
    proof {
        lemma_lines_nonempty(s@);
        assert(lv.skip(1) =~= lv.drop_first());
    }
    let mut i: usize = 1;
    while i < ls.len() && ls[i].unicode_len() > 0
        invariant
            1 <= i <= ls@.len(),
            lv == views(ls@),
            lv == lines_spec(s@),
            float_parser(*parse_f32),
            s@.len() > 0,
            body_panics(event_body(s@)) == body_panics(take_until_empty(lv.skip(i as int))),
        decreases ls@.len() - i,
    {
        let line = ls[i];
        let ghost rest = lv.skip(i as int);
        proof {
            assert(rest[0] == line@);
            assert(rest.drop_first() =~= lv.skip(i + 1));
            let tb = take_until_empty(rest);
            assert(tb == seq![line@] + take_until_empty(rest.drop_first()));
            assert(tb[0] == line@);
            assert(tb.drop_first() =~= take_until_empty(lv.skip(i + 1)));
        }
        let (k, v) = match line_entry_exec(line) {
            Some(p) => p,
            None => {
                return true;
            },
        };
        if str_equal(k, "time") {
            if parse_time(v).is_err() {
                return false;
            }
        } else {
            let t = trim(v);
            let r = ZfsScalar::from_str(t, parse_f32);
            proof {
                lemma_scalar_ok_any_float(t@, float_parse_of(*parse_f32, t@));
            }
            if r.is_err() {
                return false;
            }
        }
        i = i + 1;
    }
    proof {
        assert(take_until_empty(lv.skip(i as int)).len() == 0);
    }
    false
}

/// Whether reading the event text `s` would stop with a panic (see `event_text_panics`);
/// callers outside the library test this before `ZfsEvent::from_str`.
pub fn event_text_would_panic<F: Fn(&str) -> Option<Float32>>(s: &str, parse_f32: &F) -> (b: bool)
    requires
        float_parser(*parse_f32),
    ensures
        b == event_text_panics(s@, *parse_f32),
{
    if body_would_panic(s, parse_f32) {
        return true;
    }
    let ls = lines(s);
    proof {
        lemma_lines_nonempty(s@);
    }
    match read_body(s, parse_f32) {
        Err(_) => false,
        Ok((props, _)) => match text_of(&props, "class") {
            Some(c) => !str_equal(c.as_str(), ls[0]),
            None => false,
        },
    }
}

/// The value of `key` as text, if the properties hold it.
fn text_of(p: &RawProps, key: &str) -> (r: Option<String>)
    ensures
        r is Some == p.deep_view().dom().contains(key@),
        r is Some ==> <String as FromZfs>::from_scalar_spec(p.deep_view()[key@]) == Ok::<
            Seq<char>,
            ErrorView,
        >(r->0@),
{
    match p.get(&crate::text::to_owned_string(key)) {
        Some(v) => match String::from_scalar(v.duplicate()) {
            Ok(s) => Some(s),
            Err(_) => None,
        },
        None => None,
    }
}

/// Whether typing the raw event `raw` would stop with a panic (see `event_kind_panics`);
/// callers outside the library test this before `ZfsEvent::try_from`.
pub fn event_kind_would_panic(raw: &RawZfsEvent) -> (b: bool)
    ensures
        b == event_kind_panics(raw.class@, raw.kind.deep_view()),
{
    let ghost p = raw.kind.deep_view();
    if !str_equal(raw.class.as_str(), "sysevent.fs.zfs.history_event") {
        return false;
    }
    if text_of(&raw.kind, "history_hostname").is_none() {
        return false;
    }
    let ghost p1 = p.remove("history_hostname"@);
    let name = match text_of(&raw.kind, "history_internal_name") {
        Some(n) => n,
        None => {
            return false;
        },
    };
    let internal = match text_of(&raw.kind, "history_internal_str") {
        Some(n) => n,
        None => {
            return false;
        },
    };
    proof {
        reveal_strlit("history_hostname");
        reveal_strlit("history_internal_name");
        reveal_strlit("history_internal_str");
        reveal_strlit("history_dsid");
        reveal_strlit("histroy_dsname");
        reveal_strlit("history_dsname");
        assert("history_internal_name"@[8] != "history_hostname"@[8]);
        assert("history_internal_name"@ != "history_hostname"@);
        assert("history_internal_str"@[8] != "history_hostname"@[8]);
        assert("history_internal_str"@ != "history_hostname"@);
        assert("history_internal_str"@[17] != "history_internal_name"@[17]);
        assert("history_internal_str"@ != "history_internal_name"@);
        assert("history_dsid"@ != "history_hostname"@);
        assert("history_dsid"@ != "history_internal_name"@);
        assert("history_dsid"@ != "history_internal_str"@);
        assert("histroy_dsname"@ != "history_hostname"@);
        assert("histroy_dsname"@ != "history_internal_name"@);
        assert("histroy_dsname"@ != "history_internal_str"@);
        assert("history_dsname"@ != "history_hostname"@);
        assert("history_dsname"@ != "history_internal_name"@);
        assert("history_dsname"@ != "history_internal_str"@);
        assert("history_dsname"@[10] != "history_dsid"@[10]);
        assert("history_dsname"@ != "history_dsid"@);
    }
    let dsid_key = crate::text::to_owned_string("history_dsid");
    if raw.kind.contains_key(&dsid_key) && raw.kind.contains_key(
        &crate::text::to_owned_string("histroy_dsname"),
    ) {
        match raw.kind.get(&dsid_key) {
            Some(v) => {
                if u64::from_scalar(v.duplicate()).is_err() {
                    return false;
                }
            },
            None => {
                return false;
            },
        }
        if !raw.kind.contains_key(&crate::text::to_owned_string("history_dsname")) {
            return false;
        }
    }
    if !str_equal(name.as_str(), "set") {
        return false;
    }
    split_once_char(internal.as_str(), '=').is_none()
}

} // verus!

verus! {

/// Whether the body of the event text `s` reads without error but gives neither a time
/// nor a `class` property: the text is then no event.
pub open spec fn reads_no_event<F: Fn(&str) -> Option<Float32>>(s: Seq<char>, f: F) -> bool {
    match read_props(event_body(s), Map::empty(), None, f) {
        Ok(r) => r.1 is None && !r.0.dom().contains("class"@),
        Err(_) => false,
    }
}

proof fn lemma_take_until_empty_stops(a: Seq<Seq<char>>, x: Seq<Seq<char>>)
    ensures
        take_until_empty(a + seq![Seq::<char>::empty()] + x) == take_until_empty(a),
    decreases a.len(),
{
    let b = a + seq![Seq::<char>::empty()] + x;
    if a.len() == 0 {
        assert(b[0] == Seq::<char>::empty());
    } else {
        assert(b[0] == a[0]);
        assert(b.drop_first() =~= a.drop_first() + seq![Seq::<char>::empty()] + x);
        lemma_take_until_empty_stops(a.drop_first(), x);
    }
}

proof fn lemma_take_until_empty_props(d: Seq<Seq<char>>)
    ensures
        take_until_empty(d).len() <= d.len(),
        forall|i: int|
            0 <= i < take_until_empty(d).len() ==> #[trigger] take_until_empty(d)[i] == d[i]
                && d[i].len() > 0,
        take_until_empty(d).len() < d.len() ==> d[take_until_empty(d).len() as int].len() == 0,
    decreases d.len(),
{
    if d.len() > 0 && d[0].len() > 0 {
        lemma_take_until_empty_props(d.drop_first());
        let r = take_until_empty(d.drop_first());
        assert(take_until_empty(d) == seq![d[0]] + r);
        assert forall|i: int| 0 <= i < take_until_empty(d).len() implies #[trigger] take_until_empty(
            d,
        )[i] == d[i] && d[i].len() > 0 by {
            if i > 0 {
                assert(take_until_empty(d)[i] == r[i - 1]);
                assert(d.drop_first()[i - 1] == d[i]);
            }
        }
        if take_until_empty(d).len() < d.len() {
            assert(d.drop_first()[r.len() as int] == d[r.len() as int + 1]);
        }
    }
}

/// Replacing one line by another where the lines taken stop before it, or where neither
/// line is empty: the lines taken change only there.
proof fn lemma_take_until_update(d: Seq<Seq<char>>, k: int, y: Seq<char>)
    requires
        0 <= k < d.len(),
        (d[k].len() > 0 && y.len() > 0) || take_until_empty(d).len() < k,
    ensures
        take_until_empty(d.update(k, y)) == if take_until_empty(d).len() > k {
            take_until_empty(d).update(k, y)
        } else {
            take_until_empty(d)
        },
    decreases k,
{
    let e = d.update(k, y);
    if d[0].len() == 0 {
        assert(k > 0);
        assert(e[0] == d[0]);
    } else if k == 0 {
        assert(e.drop_first() =~= d.drop_first());
        assert(take_until_empty(e) == seq![y] + take_until_empty(d.drop_first()));
        assert(take_until_empty(d) == seq![d[0]] + take_until_empty(d.drop_first()));
        assert((seq![d[0]] + take_until_empty(d.drop_first())).update(0, y) =~= seq![y]
            + take_until_empty(d.drop_first()));
    } else {
        assert(e[0] == d[0]);
        assert(e.drop_first() =~= d.drop_first().update(k - 1, y));
        assert(take_until_empty(d) == seq![d[0]] + take_until_empty(d.drop_first()));
        assert(d.drop_first()[k - 1] == d[k]);
        lemma_take_until_update(d.drop_first(), k - 1, y);
        let r = take_until_empty(d.drop_first());
        if r.len() > k - 1 {
            assert((seq![d[0]] + r).update(k, y) =~= seq![d[0]] + r.update(k - 1, y));
        }
    }
}

/// Lines with the same key and value, line by line, read the same.
proof fn lemma_same_entries<F: Fn(&str) -> Option<Float32>>(
    b1: Seq<Seq<char>>,
    b2: Seq<Seq<char>>,
    props: PropsView,
    time: Option<Timestamp>,
    f: F,
)
    requires
        b1.len() == b2.len(),
        forall|i: int| 0 <= i < b1.len() ==> line_entry(#[trigger] b1[i]) == line_entry(b2[i]),
    ensures
        read_props(b1, props, time, f) == read_props(b2, props, time, f),
        body_panics(b1) == body_panics(b2),
    decreases b1.len(),
{
    if b1.len() > 0 {
        assert(line_entry(b1[0]) == line_entry(b2[0]));
        assert forall|i: int| 0 <= i < b1.drop_first().len() implies line_entry(
            #[trigger] b1.drop_first()[i],
        ) == line_entry(b2.drop_first()[i]) by {
            assert(b1.drop_first()[i] == b1[i + 1]);
            assert(b2.drop_first()[i] == b2[i + 1]);
        }
        match line_entry(b1[0]) {
            None => {},
            Some(kv) => if kv.0 == "time"@ {
                match parse_time_spec(kv.1) {
                    Ok(t) => lemma_same_entries(b1.drop_first(), b2.drop_first(), props, Some(t), f),
                    Err(_) => lemma_same_entries(b1.drop_first(), b2.drop_first(), props, time, f),
                }
            } else {
                let t = trim_spec(kv.1, CharSet::Whitespace);
                match scalar_from_str_spec(t, float_parse_of(f, t)) {
                    Ok(x) => lemma_same_entries(
                        b1.drop_first(),
                        b2.drop_first(),
                        props.insert(kv.0, x),
                        time,
                        f,
                    ),
                    Err(_) => lemma_same_entries(b1.drop_first(), b2.drop_first(), props, time, f),
                }
            },
        }
    }
}

/// Two event texts whose bodies read the same, and whose first lines agree unless the
/// text is no event, read the same; only the message of a text that is no event quotes
/// the text.
proof fn lemma_same_reading<F: Fn(&str) -> Option<Float32>>(s: Seq<char>, s1: Seq<char>, f: F)
    requires
        s.len() > 0,
        s1.len() > 0,
        read_props(event_body(s), Map::empty(), None, f) == read_props(
            event_body(s1),
            Map::empty(),
            None,
            f,
        ),
        body_panics(event_body(s)) == body_panics(event_body(s1)),
        lines_spec(s)[0] == lines_spec(s1)[0] || reads_no_event(s1, f),
    ensures
        event_text_panics(s, f) == event_text_panics(s1, f),
        parse_event_panics(s, f) == parse_event_panics(s1, f),
        reads_no_event(s, f) == reads_no_event(s1, f),
        raw_event_spec(s, f) == if reads_no_event(s1, f) {
            Err(ErrorView::EventParse("not an event: "@ + s))
        } else {
            raw_event_spec(s1, f)
        },
        parse_event_spec(s, f) == if reads_no_event(s1, f) {
            Err(ErrorView::EventParse("not an event: "@ + s))
        } else {
            parse_event_spec(s1, f)
        },
{
}

/// Whether the reader of the event text `s` reaches its last line and that line is a bare
/// carriage return (a line break would take that `\r` into the line end, leaving an empty
/// line).
pub open spec fn reaches_bare_cr_line(s: Seq<char>) -> bool {
    &&& s.len() >= 2
    &&& s[s.len() - 2] == '\n'
    &&& s.last() == '\r'
    &&& event_body(s).len() + 1 >= lines_spec(s).len()
}

/// Reading stops at the first empty line: whatever text follows an empty line after the
/// event text `s1` is never read. Reading gives the same result, and panics on the same
/// texts; only the message of a text that is no event quotes the whole text. The one
/// exception is a text whose reader reaches a last line that is a bare `\r`: followed by
/// a line break, that line becomes empty.
pub proof fn law_text_after_empty_line_unread<F: Fn(&str) -> Option<Float32>>(
    s1: Seq<char>,
    t: Seq<char>,
    f: F,
)
    requires
        s1.len() > 0,
        !reaches_bare_cr_line(s1),
    ensures
        ({
            let s = s1 + seq!['\n', '\n'] + t;
            &&& event_text_panics(s, f) == event_text_panics(s1, f)
            &&& parse_event_panics(s, f) == parse_event_panics(s1, f)
            &&& reads_no_event(s, f) == reads_no_event(s1, f)
            &&& raw_event_spec(s, f) == if reads_no_event(s1, f) {
                Err(ErrorView::EventParse("not an event: "@ + s))
            } else {
                raw_event_spec(s1, f)
            }
            &&& parse_event_spec(s, f) == if reads_no_event(s1, f) {
                Err(ErrorView::EventParse("not an event: "@ + s))
            } else {
                parse_event_spec(s1, f)
            }
        }),
{
    let s = s1 + seq!['\n', '\n'] + t;
    let u = seq!['\n'] + t;
    let w = seq!['\n'] + u;
    assert(crate::text::strip_cr(Seq::<char>::empty()) == Seq::<char>::empty());
    assert(u.take(0) =~= Seq::<char>::empty());
    assert(u.skip(1) =~= t);
    assert(w.take(0) =~= Seq::<char>::empty());
    assert(w.skip(1) =~= u);
    crate::text::lemma_lines_step(u, 0);
    crate::text::lemma_lines_step(w, 0);
    lemma_lines_nonempty(s1);
    let l1 = lines_spec(s1);
    let ls = lines_spec(s);
    let n = l1.len();
    if s1.last() == '\n' {
        // After the lines of `s1` come two empty lines, then the lines of `t`.
        let x = lines_spec(u);
        assert(s =~= s1 + w);
        crate::text::lemma_lines_after_break(s1, w);
        assert(ls == l1 + (seq![Seq::<char>::empty()] + x));
        assert(ls.drop_first() =~= l1.drop_first() + seq![Seq::<char>::empty()] + x);
        lemma_take_until_empty_stops(l1.drop_first(), x);
        assert(event_body(s) == event_body(s1));
        assert(ls[0] == l1[0]);
        lemma_same_reading(s, s1, f);
    } else {
        // The last line of `s1` loses a final `\r`; an empty line and the lines of `t`
        // follow.
        let x = lines_spec(t);
        assert(s =~= s1 + seq!['\n'] + u);
        crate::text::lemma_lines_join(s1, u);
        let last = l1.last();
        let y = crate::text::strip_cr(last);
        let l2 = l1.update(n - 1, y);
        assert(ls == l2 + (seq![Seq::<char>::empty()] + x));
        assert(ls.drop_first() =~= l2.drop_first() + seq![Seq::<char>::empty()] + x);
        lemma_take_until_empty_stops(l2.drop_first(), x);
        assert(event_body(s) == take_until_empty(l2.drop_first()));
        if n == 1 {
            assert(l2.drop_first().len() == 0);
            assert(l1.drop_first().len() == 0);
            assert(event_body(s) == event_body(s1));
            assert(event_body(s1).len() == 0);
            assert(reads_no_event(s1, f));
            lemma_same_reading(s, s1, f);
        } else {
            let d = l1.drop_first();
            assert(l2.drop_first() =~= d.update(n - 2, y));
            assert(d[n - 2] == last);
            assert(ls[0] == l1[0]);
            lemma_take_until_empty_props(d);
            let b1 = take_until_empty(d);
            if last == seq!['\r'] {
                assert(s1[s1.len() - 2] == '\n');
                assert(b1.len() + 1 < n);
                assert(b1.len() < n - 2) by {
                    if b1.len() == n - 2 {
                        assert(d[n - 2].len() == 0);
                    }
                }
            } else {
                assert(y.len() > 0) by {
                    if last.len() == 1 && last.last() == '\r' {
                        assert(last =~= seq!['\r']);
                    }
                }
            }
            lemma_take_until_update(d, n - 2, y);
            let b2 = take_until_empty(d.update(n - 2, y));
            if b1.len() > n - 2 {
                if last.last() == '\r' {
                    assert(last =~= y.push('\r'));
                    crate::text::lemma_trim_drops_cr(y);
                } else {
                    assert(y == last);
                }
                assert forall|i: int| 0 <= i < b1.len() implies line_entry(#[trigger] b1[i])
                    == line_entry(b2[i]) by {
                    if i != n - 2 {
                        assert(b2[i] == b1[i]);
                    }
                }
                lemma_same_entries(b1, b2, Map::empty(), None, f);
            }
            lemma_same_reading(s, s1, f);
        }
    }
}

} // verus!
