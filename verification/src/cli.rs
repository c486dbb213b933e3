//! How the `zfs` and `zpool` commands are asked, and how their answers are taken.
use vstd::prelude::*;

use crate::error::{result_view, Error, ErrorView};
use crate::event::{
    event_kind_would_panic, event_text_would_panic, parse_event_panics, parse_event_spec, RawProps,
    ZfsEvent, ZfsEventKind,
};
use crate::scalar::{float_parser, Float32};
use crate::object::{props_argument, props_argument_spec, ZDataset, ZPool};
use crate::strmap::StrMap;

verus! {

/// The command-line back end: `zfs` and `zpool` asked for JSON.
#[derive(Debug)]
pub struct ZfsCli {}

/// The arguments that ask for machine-readable output with exact integers.
pub open spec fn json_flags() -> Seq<Seq<char>> {
    seq!["-j"@, "--json-int"@]
}

impl ZfsCli {
    /// The arguments of `zfs get` / `zpool get` for some properties of `name`, with the
    /// JSON flags after them.
    pub fn get_args(props: &Vec<&str>, name: &str) -> (r: Vec<String>)
        ensures
            crate::text::string_views(r@) == seq![
                "get"@,
                props_argument_spec(crate::text::views(props@)),
                name@,
            ] + json_flags(),
    {
        let mut r: Vec<String> = Vec::new();
        r.push(crate::text::to_owned_string("get"));
        r.push(props_argument(props));
        r.push(crate::text::to_owned_string(name));
        r.push(crate::text::to_owned_string("-j"));
        r.push(crate::text::to_owned_string("--json-int"));
        assert(crate::text::string_views(r@) =~= seq![
            "get"@,
            props_argument_spec(crate::text::views(props@)),
            name@,
        ] + json_flags());
        r
    }
}

/// What std's `String::from_utf8_lossy` makes of some bytes.
pub uninterp spec fn utf8_lossy(bytes: Seq<u8>) -> Seq<char>;

/// Calls std's `String::from_utf8_lossy`, which decodes the bytes and puts U+FFFD for
/// each malformed sequence; its documentation says that valid UTF-8 comes back as it
/// is. What it makes of malformed bytes is left to `utf8_lossy`.
#[verifier::external_body]
fn lossy_text(bytes: &Vec<u8>) -> (r: String)
    ensures
        r@ == utf8_lossy(bytes@),
        vstd::utf8::valid_utf8(bytes@) ==> r@ == vstd::utf8::decode_utf8(bytes@),
{
    String::from_utf8_lossy(bytes.as_slice()).to_string()
}

/// What a finished command gave.
#[derive(Debug)]
pub enum CallOutcome {
    /// Success without output.
    NoOutput,
    /// Success with output, to be read as JSON.
    Output,
    /// Failure.
    Failed(Error),
}

/// The error for a command that failed, with its exit code and its output as text.
pub fn command_failed(code: Option<i32>, stdout: String, stderr: String) -> (r: Error)
    ensures
        r.deep_view() == (ErrorView::CommandFailed { code, stdout: stdout@, stderr: stderr@ }),
{
    Error::CommandFailed { code, stdout, stderr }
}

/// How the answer of a command is taken: on success, no output means nothing was found
/// and any output is JSON; on failure, the error carries the exit code and both outputs as
/// text.
pub fn call_outcome(success: bool, code: Option<i32>, stdout: &Vec<u8>, stderr: &Vec<u8>) -> (r:
    CallOutcome)
    ensures
        success ==> (r is NoOutput <==> stdout@.len() == 0),
        success ==> (r is Output <==> stdout@.len() > 0),
        !success ==> (r matches CallOutcome::Failed(e) && e.deep_view() == (
        ErrorView::CommandFailed {
            code,
            stdout: utf8_lossy(stdout@),
            stderr: utf8_lossy(stderr@),
        })),
{
    if success {
        if stdout.len() == 0 {
            CallOutcome::NoOutput
        } else {
            CallOutcome::Output
        }
    } else {
        let err_text = lossy_text(stderr);
        let out_text = lossy_text(stdout);
        CallOutcome::Failed(command_failed(code, out_text, err_text))
    }
}

/// Reads one block of `zpool events -vH` output, given as bytes, into a typed event. The
/// bytes are decoded as `String::from_utf8_lossy` does. `None` when the event reader
/// would stop with a panic on the text (see `parse_event_panics`).
pub fn read_event_block<F: Fn(&str) -> Option<Float32>>(block: &Vec<u8>, parse_f32: &F) -> (r:
    Option<Result<ZfsEvent<ZfsEventKind>, Error>>)
    requires
        float_parser(*parse_f32),
    ensures
        r is None == parse_event_panics(utf8_lossy(block@), *parse_f32),
        r matches Some(x) ==> result_view(x) == parse_event_spec(utf8_lossy(block@), *parse_f32),
{
    let text = lossy_text(block);
    if event_text_would_panic(text.as_str(), parse_f32) {
        return None;
    }
    let raw = match ZfsEvent::<RawProps>::from_str(text.as_str(), parse_f32) {
        Ok(raw) => raw,
        Err(e) => {
            return Some(Err(e));
        },
    };
    if event_kind_would_panic(&raw) {
        return None;
    }
    Some(ZfsEvent::<ZfsEventKind>::try_from(raw, parse_f32))
}

/// The version of the JSON output.
#[derive(Debug, Clone)]
pub struct OutputVersion {
    pub command: String,
    pub vers_major: u8,
    pub vers_minor: u8,
}

/// JSON output of a command: its version and what it lists.
#[derive(Debug)]
pub struct ZfsOutput<T> {
    pub output_version: OutputVersion,
    pub inner: T,
}

/// The pools that `zpool list` / `zpool get` reported, by key.
#[derive(Debug)]
pub struct Pools {
    pub pools: StrMap<ZPool>,
}

/// The datasets that `zfs list` / `zfs get` reported, by name.
#[derive(Debug)]
pub struct Datasets {
    pub datasets: StrMap<ZDataset>,
}

} // verus!
