//! The data that the library exchanges with mpv and with its callers.

use vstd::prelude::*;

verus! {

/// The executable that is started when a configuration names none.
pub fn default_mpv_path() -> (path: String)
    ensures
        path@ == "mpv"@,
{
    "mpv".to_owned()
}

/// The time, in milliseconds, allowed for mpv's IPC server to come up
/// when a configuration names none.
pub fn default_ipc_timeout() -> (ms: u64)
    ensures
        ms == 2000,
{
    2000
}

/// How an mpv instance is started.
#[derive(Debug, Clone, PartialEq)]
pub struct MpvConfig {
    /// The mpv executable.
    pub path: String,
    /// Extra command-line arguments, passed after the library's own.
    pub args: Vec<String>,
    /// Properties whose changes are reported as events.
    pub observed_properties: Vec<String>,
    /// How long to wait for mpv's IPC server, in milliseconds.
    pub ipc_timeout_ms: u64,
    /// Whether mpv's standard output is traced.
    pub show_mpv_output: bool,
}

impl Default for MpvConfig {
    fn default() -> (config: Self)
        ensures
            config.path@ == "mpv"@,
            config.args@.len() == 0,
            config.observed_properties@.len() == 0,
            config.ipc_timeout_ms == 2000,
            !config.show_mpv_output,
    {
        MpvConfig {
            path: default_mpv_path(),
            args: Vec::new(),
            observed_properties: Vec::new(),
            ipc_timeout_ms: default_ipc_timeout(),
            show_mpv_output: false,
        }
    }
}

/// A JSON number as the IPC protocol carries it.
#[derive(Debug, Clone, Copy, PartialEq)]
pub enum JsonNumber {
    /// A non-negative integer.
    PosInt(u64),
    /// A negative integer.
    NegInt(i64),
    /// A double, held by its IEEE-754 bit pattern.
    Float(u64),
}

/// A JSON value as exchanged with mpv.
#[derive(Debug, PartialEq)]
pub enum JsonValue {
    Null,
    Bool(bool),
    Number(JsonNumber),
    String(String),
    Array(Vec<JsonValue>),
    /// The members of an object, in order.
    Object(Vec<(String, JsonValue)>),
}

/// Whether two JSON values have the same content: the same variant, the same scalar or
/// text, and members with the same keys and content, in the same order.
pub open spec fn same_json(a: JsonValue, b: JsonValue) -> bool
    decreases a,
{
    match a {
        JsonValue::Null => b is Null,
        JsonValue::Bool(x) => b matches JsonValue::Bool(y) && x == y,
        JsonValue::Number(x) => b matches JsonValue::Number(y) && x == y,
        JsonValue::String(x) => b matches JsonValue::String(y) && x@ == y@,
        JsonValue::Array(xs) => b matches JsonValue::Array(ys) && xs@.len() == ys@.len() && forall|
            i: int,
        |
            0 <= i < xs@.len() ==> {
                proof {
                    vstd::std_specs::vec::axiom_vec_index_decreases(xs, i);
                }
                same_json(#[trigger] xs@[i], ys@[i])
            },
        JsonValue::Object(xs) => b matches JsonValue::Object(ys) && xs@.len() == ys@.len()
            && forall|i: int|
            0 <= i < xs@.len() ==> {
                proof {
                    vstd::std_specs::vec::axiom_vec_index_decreases(xs, i);
                }
                (#[trigger] xs@[i]).0@ == ys@[i].0@ && same_json(xs@[i].1, ys@[i].1)
            },
    }
}

/// Values with the same content have the same variant; their scalars and texts are
/// equal; and arrays and objects have the same length with members of the same content
/// (and the same keys) at every position.
pub proof fn lemma_same_json_content(a: JsonValue, b: JsonValue)
    requires
        same_json(a, b),
    ensures
        (a is Null) == (b is Null),
        a matches JsonValue::Bool(x) ==> b == JsonValue::Bool(x),
        a matches JsonValue::Number(x) ==> b == JsonValue::Number(x),
        a matches JsonValue::String(x) ==> (b matches JsonValue::String(y) && x@ == y@),
        a matches JsonValue::Array(xs) ==> (b matches JsonValue::Array(ys) && xs@.len()
            == ys@.len() && forall|i: int|
            0 <= i < xs@.len() ==> same_json(#[trigger] xs@[i], ys@[i])),
        a matches JsonValue::Object(xs) ==> (b matches JsonValue::Object(ys) && xs@.len()
            == ys@.len() && forall|i: int|
            0 <= i < xs@.len() ==> (#[trigger] xs@[i]).0@ == ys@[i].0@ && same_json(
                xs@[i].1,
                ys@[i].1,
            )),
{
}

impl JsonValue {
    /// A copy of this value.
    #[verifier::loop_isolation(false)]
    pub fn duplicate(&self) -> (copy: JsonValue)
        ensures
            same_json(*self, copy),
        decreases self,
    {
        match self {
            JsonValue::Null => JsonValue::Null,
            JsonValue::Bool(b) => JsonValue::Bool(*b),
            JsonValue::Number(n) => JsonValue::Number(*n),
            JsonValue::String(s) => JsonValue::String(s.clone()),
            JsonValue::Array(items) => {
                let mut out: Vec<JsonValue> = Vec::new();
                let mut i: usize = 0;
                while i < items.len()
                    invariant
                        i <= items@.len(),
                        out@.len() == i,
                        forall|j: int| 0 <= j < i ==> same_json(#[trigger] items@[j], out@[j]),
                    decreases items@.len() - i,
                {
                    proof {
                        vstd::std_specs::vec::axiom_vec_index_decreases(*items, i as int);
                    }
                    out.push(items[i].duplicate());
                    i = i + 1;
                }
                JsonValue::Array(out)
            },
            JsonValue::Object(members) => {
                let mut out: Vec<(String, JsonValue)> = Vec::new();
                let mut i: usize = 0;
                while i < members.len()
                    invariant
                        i <= members@.len(),
                        out@.len() == i,
                        forall|j: int|
                            0 <= j < i ==> (#[trigger] members@[j]).0@ == out@[j].0@ && same_json(
                                members@[j].1,
                                out@[j].1,
                            ),
                    decreases members@.len() - i,
                {
                    proof {
                        vstd::std_specs::vec::axiom_vec_index_decreases(*members, i as int);
                    }
                    let (key, value) = &members[i];
                    out.push((key.clone(), value.duplicate()));
                    i = i + 1;
                }
                JsonValue::Object(out)
            },
        }
    }
}

impl Clone for JsonValue {
    fn clone(&self) -> (copy: Self)
        ensures
            same_json(*self, copy),
    {
        self.duplicate()
    }
}

/// A command sent to mpv: its words, and the id that its reply will carry.
#[derive(Debug, Clone, PartialEq)]
pub struct MpvCommand {
    pub command: Vec<JsonValue>,
    pub request_id: Option<u32>,
}

/// mpv's reply to a command.
#[derive(Debug, Clone, PartialEq)]
pub struct MpvCommandResponse {
    pub data: Option<JsonValue>,
    /// `success`, or the reason the command failed.
    pub error: String,
    pub request_id: u32,
}

/// Why mpv stopped playing a file.
#[derive(Debug, Clone, Copy, PartialEq, Eq)]
pub enum EndFileReason {
    Eof,
    Stop,
    Quit,
    Error,
    Redirect,
    Unknown,
}

/// An event that mpv reports.
#[derive(Debug, Clone, PartialEq)]
pub enum MpvEvent {
    StartFile { playlist_entry_id: u32 },
    EndFile { reason: EndFileReason, playlist_entry_id: u32 },
    FileLoaded,
    VideoReconfig,
    AudioReconfig,
    Seek,
    PlaybackRestart,
    PropertyChange { id: u32, name: String, data: Option<JsonValue> },
    Idle,
    Tick,
    ClientMessage { args: Vec<String> },
    LogMessage { prefix: String, level: String, text: String },
    QueueOverflow,
}

} // verus!
