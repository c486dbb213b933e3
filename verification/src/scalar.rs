//! Property values as ZFS prints them, and their conversions.
use vstd::prelude::*;

use crate::error::{result_view, Error, ErrorView};
use crate::number::{decimal, parse_u64, parse_u64_spec};
use crate::text::{
    contains_char, has_hex_prefix, starts_with_hex_prefix, str_equal, strip_hex_prefixes,
    strip_hex_prefixes_exec,
};

verus! {

/// A 32-bit float as plain values: its IEEE-754 bit pattern and the text that Rust's
/// `Display` writes for it. Both are made where floats are computed, outside this
/// library; the library reads them and never computes either.
#[derive(Debug, Clone)]
pub struct Float32 {
    pub bits: u32,
    pub text: String,
}

pub struct FloatView {
    pub bits: u32,
    pub text: Seq<char>,
}

impl DeepView for Float32 {
    type V = FloatView;

    open spec fn deep_view(&self) -> FloatView {
        FloatView { bits: self.bits, text: self.text@ }
    }
}

impl Float32 {
    /// A copy with the same bits and text.
    pub fn duplicate(&self) -> (r: Float32)
        ensures
            r.deep_view() == self.deep_view(),
    {
        Float32 { bits: self.bits, text: self.text.clone() }
    }
}

/// A float compares unequal to zero exactly when a bit other than the sign bit is set
/// (NaN included).
pub open spec fn float_is_nonzero(bits: u32) -> bool {
    bits & 0x7fff_ffffu32 != 0
}

/// One property value: an integer, a float, a string or the absent value `-`.
#[derive(Debug, Clone)]
pub enum ZfsScalar {
    U64(u64),
    F32(Float32),
    String(String),
    Absent,
}

pub enum ScalarView {
    U64(u64),
    F32(FloatView),
    String(Seq<char>),
    Absent,
}

impl DeepView for ZfsScalar {
    type V = ScalarView;

    open spec fn deep_view(&self) -> ScalarView {
        match self {
            ZfsScalar::U64(n) => ScalarView::U64(*n),
            ZfsScalar::F32(f) => ScalarView::F32(f.deep_view()),
            ZfsScalar::String(s) => ScalarView::String(s@),
            ZfsScalar::Absent => ScalarView::Absent,
        }
    }
}

/// What a float parser gave for `t`, for a parser that gives equal results on equal text.
pub open spec fn float_parse_of<F: Fn(&str) -> Option<Float32>>(f: F, t: Seq<char>) -> Option<
    FloatView,
> {
    let (x, y) = choose|x: &str, y: Option<Float32>|
        #![trigger call_ensures(f, (x,), y)]
        x@ == t && call_ensures(f, (x,), y);
    y.deep_view()
}

/// A float parser that accepts every text and gives equal results on equal text, as
/// `str::parse::<f32>` does.
pub open spec fn float_parser<F: Fn(&str) -> Option<Float32>>(f: F) -> bool {
    &&& forall|x: &str| call_requires(f, (x,))
    &&& forall|x1: &str, x2: &str, y1: Option<Float32>, y2: Option<Float32>|
        #![trigger call_ensures(f, (x1,), y1), call_ensures(f, (x2,), y2)]
        x1@ == x2@ && call_ensures(f, (x1,), y1) && call_ensures(f, (x2,), y2) ==> y1.deep_view()
            == y2.deep_view()
}

/// Runs the float parser on `t`.
pub fn parse_float_with<F: Fn(&str) -> Option<Float32>>(parse_f32: &F, t: &str) -> (r: Option<
    Float32,
>)
    requires
        float_parser(*parse_f32),
    ensures
        r.deep_view() == float_parse_of(*parse_f32, t@),
{
    let r = parse_f32(t);
    proof {
        assert(call_ensures(*parse_f32, (t,), r));
        assert(exists|x: &str, y: Option<Float32>|
            #![trigger call_ensures(*parse_f32, (x,), y)]
            x@ == t@ && call_ensures(*parse_f32, (x,), y));
        let (x, y) = choose|x: &str, y: Option<Float32>|
            #![trigger call_ensures(*parse_f32, (x,), y)]
            x@ == t@ && call_ensures(*parse_f32, (x,), y);
        assert(call_ensures(*parse_f32, (t,), r) && call_ensures(*parse_f32, (x,), y));
    }
    r
}

/// `ZfsScalar::from_str`: `-` is the absent value; a `0x` text is a string when it holds a
/// space, else hexadecimal (every leading `0x` removed); other text is a `u64` in decimal,
/// else a float where `float` (what the text parsed as a float gave) is one, else a string.
pub open spec fn scalar_from_str_spec(s: Seq<char>, float: Option<FloatView>) -> Result<
    ScalarView,
    ErrorView,
> {
    if s == seq!['-'] {
        Ok(ScalarView::Absent)
    } else if has_hex_prefix(s) {
        if s.contains(' ') {
            Ok(ScalarView::String(s))
        } else {
            match parse_u64_spec(strip_hex_prefixes(s), 16) {
                Ok(v) => Ok(ScalarView::U64(v as u64)),
                Err(e) => Err(ErrorView::ParseInt(e)),
            }
        }
    } else {
        match parse_u64_spec(s, 10) {
            Ok(v) => Ok(ScalarView::U64(v as u64)),
            Err(_) => match float {
                Some(f) => Ok(ScalarView::F32(f)),
                None => Ok(ScalarView::String(s)),
            },
        }
    }
}

/// Whether reading `s` asks what it gives as a float.
pub open spec fn needs_float(s: Seq<char>) -> bool {
    s != seq!['-'] && !has_hex_prefix(s) && parse_u64_spec(s, 10) is Err
}

fn is_dash(s: &str) -> (b: bool)
    ensures
        b == (s@ == seq!['-']),
{
    let n = s.unicode_len();
    if n == 1 && s.get_char(0) == '-' {
        assert(s@ =~= seq!['-']);
        true
    } else {
        false
    }
}

impl ZfsScalar {
    /// A copy with the same view.
    pub fn duplicate(&self) -> (r: ZfsScalar)
        ensures
            r.deep_view() == self.deep_view(),
    {
        match self {
            ZfsScalar::U64(n) => ZfsScalar::U64(*n),
            ZfsScalar::F32(f) => ZfsScalar::F32(f.duplicate()),
            ZfsScalar::String(s) => ZfsScalar::String(s.clone()),
            ZfsScalar::Absent => ZfsScalar::Absent,
        }
    }

    /// Reads one value as ZFS prints it. `parse_f32` is `str::parse::<f32>`, given as
    /// plain values; it is asked only where the text is neither `-`, nor `0x`-prefixed, nor
    /// a decimal `u64`.
    pub fn from_str<F: Fn(&str) -> Option<Float32>>(s: &str, parse_f32: &F) -> (r: Result<
        ZfsScalar,
        Error,
    >)
        requires
            float_parser(*parse_f32),
        ensures
            result_view(r) == scalar_from_str_spec(s@, float_parse_of(*parse_f32, s@)),
    {
        if is_dash(s) {
            Ok(ZfsScalar::Absent)
        } else if starts_with_hex_prefix(s) {
            if contains_char(s, ' ') {
                Ok(ZfsScalar::String(crate::text::to_owned_string(s)))
            } else {
                match parse_u64(strip_hex_prefixes_exec(s), 16) {
                    Ok(v) => Ok(ZfsScalar::U64(v)),
                    Err(e) => Err(Error::ParseInt(e)),
                }
            }
        } else {
            match parse_u64(s, 10) {
                Ok(v) => Ok(ZfsScalar::U64(v)),
                Err(_) => match parse_float_with(parse_f32, s) {
                    Some(f) => Ok(ZfsScalar::F32(f)),
                    None => Ok(ZfsScalar::String(crate::text::to_owned_string(s))),
                },
            }
        }
    }
}

/// A JSON property value as ZFS writes it: a number or a string.
#[derive(Debug, Clone)]
pub enum JsonScalar {
    U64(u64),
    F32(Float32),
    String(String),
}

impl ZfsScalar {
    /// The scalar that a JSON value stands for: the string `-` is the absent value.
    pub fn from_json(raw: JsonScalar) -> (r: ZfsScalar)
        ensures
            r.deep_view() == (match raw {
                JsonScalar::U64(n) => ScalarView::U64(n),
                JsonScalar::F32(f) => ScalarView::F32(f.deep_view()),
                JsonScalar::String(s) => if s@ == seq!['-'] {
                    ScalarView::Absent
                } else {
                    ScalarView::String(s@)
                },
            }),
    {
        match raw {
            JsonScalar::U64(v) => ZfsScalar::U64(v),
            JsonScalar::F32(v) => ZfsScalar::F32(v),
            JsonScalar::String(s) => {
                if is_dash(s.as_str()) {
                    ZfsScalar::Absent
                } else {
                    ZfsScalar::String(s)
                }
            },
        }
    }
}

/// Conversion of a property value into a typed value.
pub trait FromZfs: Sized + DeepView {
    /// The value, or the error, that `from_scalar` gives for `v`.
    spec fn from_scalar_spec(v: ScalarView) -> Result<Self::V, ErrorView>;

    fn from_scalar(v: ZfsScalar) -> (r: Result<Self, Error>)
        ensures
            result_view(r) == Self::from_scalar_spec(v.deep_view()),
    ;
}

impl FromZfs for u64 {
    /// An integer as it is; a string in decimal; anything else is refused.
    open spec fn from_scalar_spec(v: ScalarView) -> Result<u64, ErrorView> {
        match v {
            ScalarView::U64(x) => Ok(x),
            ScalarView::String(s) => match parse_u64_spec(s, 10) {
                Ok(x) => Ok(x as u64),
                Err(e) => Err(ErrorView::ParseInt(e)),
            },
            _ => Err(
                ErrorView::InvalidProperty {
                    property: "u64"@,
                    src: "expected u64 or string representation"@,
                },
            ),
        }
    }

    fn from_scalar(v: ZfsScalar) -> (r: Result<u64, Error>) {
        match v {
            ZfsScalar::U64(x) => Ok(x),
            ZfsScalar::String(s) => match parse_u64(s.as_str(), 10) {
                Ok(x) => Ok(x),
                Err(e) => Err(Error::ParseInt(e)),
            },
            _ => Err(
                Error::InvalidProperty {
                    property: "u64",
                    src: "expected u64 or string representation",
                },
            ),
        }
    }
}

impl FromZfs for String {
    /// A string as it is; an integer in decimal; a float as `Display` writes it; the
    /// absent value as `-`.
    open spec fn from_scalar_spec(v: ScalarView) -> Result<Seq<char>, ErrorView> {
        match v {
            ScalarView::String(s) => Ok(s),
            ScalarView::U64(n) => Ok(decimal(n as nat)),
            ScalarView::F32(f) => Ok(f.text),
            ScalarView::Absent => Ok(seq!['-']),
        }
    }

    fn from_scalar(v: ZfsScalar) -> (r: Result<String, Error>) {
        match v {
            ZfsScalar::String(s) => Ok(s),
            ZfsScalar::U64(n) => Ok(crate::number::render_u64(n)),
            ZfsScalar::F32(f) => Ok(f.text),
            ZfsScalar::Absent => {
                let mut s = String::new();
                crate::text::push_char(&mut s, '-');
                assert(s@ =~= seq!['-']);
                Ok(s)
            },
        }
    }
}

/// The words that ZFS prints for a switch.
pub open spec fn switch_word(s: Seq<char>) -> Option<bool> {
    if s == "off"@ {
        Some(false)
    } else if s == "on"@ {
        Some(true)
    } else if s == "disabled"@ {
        Some(false)
    } else if s == "enabled"@ {
        Some(true)
    } else if s == "inactive"@ {
        Some(false)
    } else if s == "active"@ {
        Some(true)
    } else {
        None
    }
}

fn switch_word_exec(s: &str) -> (r: Option<bool>)
    ensures
        r == switch_word(s@),
{
    if str_equal(s, "off") {
        Some(false)
    } else if str_equal(s, "on") {
        Some(true)
    } else if str_equal(s, "disabled") {
        Some(false)
    } else if str_equal(s, "enabled") {
        Some(true)
    } else if str_equal(s, "inactive") {
        Some(false)
    } else if str_equal(s, "active") {
        Some(true)
    } else {
        None
    }
}

impl FromZfs for bool {
    /// `on`/`enabled`/`active` and `off`/`disabled`/`inactive`; a number is true when it
    /// is not zero; the absent value is false; any other string is refused.
    open spec fn from_scalar_spec(v: ScalarView) -> Result<bool, ErrorView> {
        match v {
            ScalarView::String(s) => match switch_word(s) {
                Some(b) => Ok(b),
                None => Err(ErrorView::UnknownValue { what: "boolean"@, value: s }),
            },
            ScalarView::U64(n) => Ok(n != 0),
            ScalarView::F32(f) => Ok(float_is_nonzero(f.bits)),
            ScalarView::Absent => Ok(false),
        }
    }

    fn from_scalar(v: ZfsScalar) -> (r: Result<bool, Error>) {
        match v {
            ZfsScalar::String(s) => match switch_word_exec(s.as_str()) {
                Some(b) => Ok(b),
                None => Err(Error::UnknownValue { what: "boolean", value: s }),
            },
            ZfsScalar::U64(n) => Ok(n != 0),
            ZfsScalar::F32(f) => Ok(f.bits & 0x7fff_ffffu32 != 0),
            ZfsScalar::Absent => Ok(false),
        }
    }
}

impl<T: FromZfs> FromZfs for Option<T> {
    /// The absent value is `None`; anything else is converted to `T`.
    open spec fn from_scalar_spec(v: ScalarView) -> Result<Option<T::V>, ErrorView> {
        match v {
            ScalarView::Absent => Ok(None),
            other => match T::from_scalar_spec(other) {
                Ok(x) => Ok(Some(x)),
                Err(e) => Err(e),
            },
        }
    }

    fn from_scalar(v: ZfsScalar) -> (r: Result<Option<T>, Error>) {
        match v {
            ZfsScalar::Absent => Ok(None),
            other => match T::from_scalar(other) {
                Ok(x) => Ok(Some(x)),
                Err(e) => Err(e),
            },
        }
    }
}

impl FromZfs for ZfsScalar {
    /// The value as it is.
    open spec fn from_scalar_spec(v: ScalarView) -> Result<ScalarView, ErrorView> {
        Ok(v)
    }

    fn from_scalar(v: ZfsScalar) -> (r: Result<ZfsScalar, Error>) {
        Ok(v)
    }
}

/// The health of a pool.
#[derive(Debug, Clone, Copy, PartialEq, Eq)]
pub enum Health {
    Online,
    Degraded,
    Offline,
}

impl DeepView for Health {
    type V = Health;

    open spec fn deep_view(&self) -> Health {
        *self
    }
}

impl FromZfs for Health {
    /// `ONLINE`, `DEGRADED` or `OFFLINE`; another string is an unknown value, a value
    /// that is no string is refused.
    open spec fn from_scalar_spec(v: ScalarView) -> Result<Health, ErrorView> {
        match v {
            ScalarView::String(s) => if s == "ONLINE"@ {
                Ok(Health::Online)
            } else if s == "DEGRADED"@ {
                Ok(Health::Degraded)
            } else if s == "OFFLINE"@ {
                Ok(Health::Offline)
            } else {
                Err(ErrorView::UnknownValue { what: "health"@, value: s })
            },
            _ => Err(ErrorView::InvalidProperty { property: "health"@, src: "expected string"@ }),
        }
    }

    fn from_scalar(v: ZfsScalar) -> (r: Result<Health, Error>) {
        match v {
            ZfsScalar::String(s) => {
                if str_equal(s.as_str(), "ONLINE") {
                    Ok(Health::Online)
                } else if str_equal(s.as_str(), "DEGRADED") {
                    Ok(Health::Degraded)
                } else if str_equal(s.as_str(), "OFFLINE") {
                    Ok(Health::Offline)
                } else {
                    Err(Error::UnknownValue { what: "health", value: s })
                }
            },
            _ => Err(Error::InvalidProperty { property: "health", src: "expected string" }),
        }
    }
}

} // verus!

verus! {

/// An integer written as text (`String::from_scalar`) reads back (`ZfsScalar::from_str`)
/// as the same integer, whatever a float parser would say of the text.
pub proof fn law_u64_text_round_trip(n: u64, float: Option<FloatView>)
    ensures
        <String as FromZfs>::from_scalar_spec(ScalarView::U64(n)) == Ok::<Seq<char>, ErrorView>(
            decimal(n as nat),
        ),
        scalar_from_str_spec(decimal(n as nat), float) == Ok::<ScalarView, ErrorView>(
            ScalarView::U64(n),
        ),
{
    let d = decimal(n as nat);
    crate::number::lemma_decimal_all_digits(n as nat);
    crate::number::lemma_parse_decimal(n as nat, u64::MAX as int);
    assert(crate::number::char_digit(d[0], 10) is Some);
    if d == seq!['-'] {
        assert(d[0] == '-');
    }
    if has_hex_prefix(d) {
        assert(crate::number::char_digit(d[1], 10) is Some);
    }
}

/// An integer written in hexadecimal after `0x` (as `{:#x}` writes it) reads back
/// (`ZfsScalar::from_str`) as the same integer, whatever a float parser would say of the
/// text.
pub proof fn law_u64_hex_text_round_trip(n: u64, float: Option<FloatView>)
    ensures
        scalar_from_str_spec(seq!['0', 'x'] + crate::number::hexadecimal(n as nat), float)
            == Ok::<ScalarView, ErrorView>(ScalarView::U64(n)),
{
    let h = crate::number::hexadecimal(n as nat);
    let s = seq!['0', 'x'] + h;
    crate::number::lemma_hexadecimal_all_digits(n as nat);
    crate::number::lemma_parse_hexadecimal(n as nat, u64::MAX as int);
    assert(has_hex_prefix(s));
    assert(s.skip(2) =~= h);
    if has_hex_prefix(h) {
        assert(crate::number::char_digit(h[1], 16) is Some);
    }
    assert(strip_hex_prefixes(h) == h);
    assert(strip_hex_prefixes(s) == strip_hex_prefixes(s.skip(2)));
    assert forall|i: int| 0 <= i < s.len() implies s[i] != ' ' by {
        if i >= 2 {
            assert(s[i] == h[i - 2]);
            assert(crate::number::char_digit(h[i - 2], 16) is Some);
        }
    }
    assert(!s.contains(' '));
    assert(s != seq!['-']) by {
        assert(s.len() != 1);
    }
}

/// A `u64` written as text converts back to the same `u64`.
pub proof fn law_u64_string_round_trip(n: u64)
    ensures
        <u64 as FromZfs>::from_scalar_spec(ScalarView::String(decimal(n as nat))) == Ok::<
            u64,
            ErrorView,
        >(n),
{
    crate::number::lemma_parse_decimal(n as nat, u64::MAX as int);
}

/// The absent value converts to `None`, whatever the target type.
pub proof fn law_absent_is_none<T: FromZfs>()
    ensures
        <Option<T> as FromZfs>::from_scalar_spec(ScalarView::Absent) == Ok::<
            Option<T::V>,
            ErrorView,
        >(None),
{
}

/// Any value other than the absent one converts into an option as it converts into the
/// inner type.
pub proof fn law_present_is_some<T: FromZfs>(v: ScalarView)
    requires
        !(v is Absent),
    ensures
        <Option<T> as FromZfs>::from_scalar_spec(v) == (match T::from_scalar_spec(v) {
            Ok(x) => Ok(Some(x)),
            Err(e) => Err(e),
        }),
{
}

} // verus!
