//! The protocol engine: connecting, the handshake, sending commands, closing,
//! and the one-shot reconnect-and-retry policy around failed reads and writes.
//!
//! The engine does no I/O itself. Each operation returns an [`Action`] for the
//! caller to carry out on its stream; the caller reports the outcome with
//! [`DiscordIpcClient::advance`], which returns the next action, until the
//! action is [`Action::Finished`] with the operation's result. The last frame
//! read (by `recv`, or in reply to the handshake) is kept, with its tag and
//! JSON text, for [`DiscordIpcClient::received_frame`]. Only one
//! operation runs at a time: starting one abandons any unfinished one, and the
//! caller must not interleave the writes of two operations.
use crate::activity::{activity_text, Activity, ActivityModel};
use crate::codec::{header_bytes, le_value, pack, unpack};
use crate::error::RichPresenceError;
use crate::json::{int_text, int_to_text, json_quoted, json_string, object_text, ObjectWriter};
use crate::transport::{
    candidate_path, first_base_dir, resolve_base_dir, socket_path, values_view, SOCKET_COUNT,
};
use vstd::prelude::*;
use vstd::slice::slice_to_vec;
use vstd::utf8::{decode_utf8, encode_utf8, encode_utf8_decode_utf8, valid_utf8};

verus! {

/// Operation tag of the handshake frame.
pub const HANDSHAKE_TAG: u32 = 0;

/// Operation tag of a command frame.
pub const COMMAND_TAG: u32 = 1;

/// Operation tag of the close frame.
pub const CLOSE_TAG: u32 = 2;

// ---- outside calls ----

/// Whether `s` is a JSON document, as serde_json's parser decides it.
pub uninterp spec fn json_parses(s: Seq<char>) -> bool;

/// Relies on `serde_json::from_str::<serde_json::Value>`: it succeeds exactly
/// on the texts that are one JSON document, which depends on the text alone.
#[verifier::external_body]
fn parses_as_json(s: &str) -> (r: bool)
    ensures
        r == json_parses(s@),
{
    serde_json::from_str::<serde_json::Value>(s).is_ok()
}

/// Relies on `std::str::from_utf8`: it succeeds exactly on valid UTF-8, and
/// the text it returns has those bytes.
#[verifier::external_body]
fn utf8_text(b: &[u8]) -> (r: Option<&str>)
    ensures
        r is Some <==> valid_utf8(b@),
        r matches Some(s) ==> encode_utf8(s@) == b@,
{
    std::str::from_utf8(b).ok()
}

/// A digit or one of the letters `a` to `f`.
pub open spec fn is_lower_hex(c: char) -> bool {
    (48 <= c as u32 <= 57) || (97 <= c as u32 <= 102)
}

/// A version-4 UUID in its hyphenated lowercase form.
pub open spec fn is_uuid_v4_text(s: Seq<char>) -> bool {
    &&& s.len() == 36
    &&& forall|i: int|
        0 <= i < 36 ==> if i == 8 || i == 13 || i == 18 || i == 23 {
            s[i] == '-'
        } else {
            is_lower_hex(#[trigger] s[i])
        }
    &&& s[14] == '4'
    &&& (s[19] == '8' || s[19] == '9' || s[19] == 'a' || s[19] == 'b')
}

/// Relies on uuid's `Uuid::new_v4` and its `Display`: a random version-4
/// UUID, written as 32 lowercase hex digits in groups of 8-4-4-4-12.
#[verifier::external_body]
fn new_nonce() -> (r: String)
    ensures
        is_uuid_v4_text(r@),
{
    uuid::Uuid::new_v4().to_string()
}

// ---- frames ----

/// The handshake: protocol version 1 and the client id.
pub open spec fn handshake_text(client_id: Seq<char>) -> Seq<char> {
    object_text(seq![("v"@, int_text(1)), ("client_id"@, json_quoted(client_id))])
}

/// The command that sets the activity of process `pid` (or clears it, for
/// `None`), tagged with `nonce`.
pub open spec fn command_text(pid: u32, activity: Option<ActivityModel>, nonce: Seq<char>) -> Seq<
    char,
> {
    object_text(
        seq![
            ("cmd"@, json_quoted("SET_ACTIVITY"@)),
            (
                "args"@,
                object_text(
                    seq![
                        ("pid"@, int_text(pid as int)),
                        (
                            "activity"@,
                            match activity {
                                Some(a) => activity_text(a),
                                None => "null"@,
                            },
                        ),
                    ],
                ),
            ),
            ("nonce"@, json_quoted(nonce)),
        ],
    )
}

/// The body of the close frame: an empty object.
pub open spec fn close_text() -> Seq<char> {
    object_text(seq![])
}

/// A payload length as the header's 32-bit field holds it.
pub open spec fn length_field(n: nat) -> u32 {
    (n % 0x1_0000_0000) as u32
}

/// The header announcing `body` under `tag`.
pub open spec fn frame_header(tag: u32, body: Seq<u8>) -> Seq<u8> {
    header_bytes(tag, length_field(body.len()))
}

/// A frame body is accepted when it is UTF-8 text holding one JSON document.
pub open spec fn body_is_json(b: Seq<u8>) -> bool {
    valid_utf8(b) && json_parses(decode_utf8(b))
}

/// What a frame with this header and body holds: its tag and its JSON text.
/// A header that is not eight bytes, or a body that is not UTF-8 JSON, is an
/// invalid packet; a body of another length than announced is a failed read.
pub open spec fn decode_frame_spec(header: Seq<u8>, body: Seq<u8>) -> Result<
    (u32, Seq<char>),
    RichPresenceError,
> {
    if header.len() != 8 {
        Err(RichPresenceError::RecvInvalidPacket)
    } else if body.len() != le_value(header.subrange(4, 8)) as nat {
        Err(RichPresenceError::ReadSocketFailed)
    } else if !body_is_json(body) {
        Err(RichPresenceError::RecvInvalidPacket)
    } else {
        Ok((le_value(header.subrange(0, 4)), decode_utf8(body)))
    }
}

/// The text of a frame body, when it is UTF-8 holding one JSON document.
fn body_text(b: &[u8]) -> (r: Option<String>)
    ensures
        r is Some <==> body_is_json(b@),
        r matches Some(t) ==> t@ == decode_utf8(b@),
{
    match utf8_text(b) {
        Some(text) => {
            proof {
                encode_utf8_decode_utf8(text@);
            }
            if parses_as_json(text) {
                Some(text.to_owned())
            } else {
                None
            }
        },
        None => None,
    }
}

/// Decodes a frame read as its 8-byte header and its body: the tag and the
/// body's JSON text.
pub fn decode_frame(header: &[u8], body: &[u8]) -> (r: Result<(u32, String), RichPresenceError>)
    ensures
        match r {
            Ok((tag, text)) => decode_frame_spec(header@, body@) == Ok::<
                (u32, Seq<char>),
                RichPresenceError,
            >((tag, text@)),
            Err(e) => decode_frame_spec(header@, body@) == Err::<(u32, Seq<char>), RichPresenceError>(
                e,
            ),
        },
{
    let (tag, length) = match unpack(header) {
        Ok(p) => p,
        Err(e) => return Err(e),
    };
    if body.len() != length as usize {
        return Err(RichPresenceError::ReadSocketFailed);
    }
    match body_text(body) {
        Some(text) => Ok((tag, text)),
        None => Err(RichPresenceError::RecvInvalidPacket),
    }
}

// ---- the state machine ----

/// Which frame a write sends: the handshake, or the frame of the current operation.
#[derive(Clone, Copy, Debug, PartialEq, Eq, Structural)]
pub enum FrameKind {
    Handshake,
    Current,
}

/// Which part of a frame a write sends.
#[derive(Clone, Copy, Debug, PartialEq, Eq, Structural)]
pub enum Part {
    Header,
    Body,
}

/// One step of an operation. The flag of a read or write says whether a
/// failure of it may still be answered by one reconnect and one retry.
#[derive(Clone, Copy, Debug, PartialEq, Eq, Structural)]
pub enum Step {
    /// Find the socket directory.
    Resolve,
    /// Try the socket with this number.
    Probe(u32),
    Write(FrameKind, Part, bool),
    /// Read a frame header.
    ReadHeader(bool),
    /// Read the body of a frame with this tag and this many bytes.
    ReadBody(u32, u32, bool),
    Flush,
    Shutdown,
}

/// What the engine asks its caller to do next.
#[derive(Debug)]
pub enum Action {
    /// Read the variables named by `transport::env_keys`, in that order, and
    /// answer with `Event::BaseDirValues`.
    LookUpBaseDir,
    /// Open a stream to the socket at this path, replacing any open stream.
    Connect(String),
    /// Write all of these bytes to the stream.
    Write(Vec<u8>),
    /// Read exactly this many bytes from the stream.
    Read(usize),
    /// Flush the stream.
    Flush,
    /// Shut the stream down and drop it; any failure may be ignored.
    Shutdown,
    /// The operation is over, with this result; nothing is to be answered.
    Finished(Result<(), RichPresenceError>),
}

/// The outcome of an action, as the caller reports it.
#[derive(Debug)]
pub enum Event {
    /// The values of the variables, in the order of `transport::env_keys`.
    BaseDirValues(Vec<Option<String>>),
    Succeeded,
    Failed,
    /// The bytes that were read.
    Received(Vec<u8>),
}

/// The content of an `Action`.
pub enum Request {
    LookUpBaseDir,
    Connect(Seq<char>),
    Write(Seq<u8>),
    Read(nat),
    Flush,
    Shutdown,
    Finished(Result<(), RichPresenceError>),
}

/// The content of an `Event`.
pub enum Outcome {
    BaseDirValues(Seq<Option<Seq<char>>>),
    Succeeded,
    Failed,
    Received(Seq<u8>),
}

impl View for Action {
    type V = Request;

    open spec fn view(&self) -> Request {
        match self {
            Action::LookUpBaseDir => Request::LookUpBaseDir,
            Action::Connect(p) => Request::Connect(p@),
            Action::Write(b) => Request::Write(b@),
            Action::Read(n) => Request::Read(*n as nat),
            Action::Flush => Request::Flush,
            Action::Shutdown => Request::Shutdown,
            Action::Finished(r) => Request::Finished(*r),
        }
    }
}

impl View for Event {
    type V = Outcome;

    open spec fn view(&self) -> Outcome {
        match self {
            Event::BaseDirValues(v) => Outcome::BaseDirValues(values_view(v@)),
            Event::Succeeded => Outcome::Succeeded,
            Event::Failed => Outcome::Failed,
            Event::Received(b) => Outcome::Received(b@),
        }
    }
}

/// The content of a client: its id, whether a stream is open, the socket
/// directory last resolved, the frame of the current operation, the steps of
/// that operation still to do (the first one is in progress), and the tag
/// and JSON text of the last frame read.
pub struct ClientState {
    pub client_id: Seq<char>,
    pub connected: bool,
    pub base: Seq<char>,
    pub header: Seq<u8>,
    pub body: Seq<u8>,
    pub steps: Seq<Step>,
    pub frame: Option<(u32, Seq<char>)>,
}

/// The bytes that a write of `part` of `kind` sends.
pub open spec fn write_bytes(c: ClientState, kind: FrameKind, part: Part) -> Seq<u8> {
    match kind {
        FrameKind::Handshake => {
            let body = encode_utf8(handshake_text(c.client_id));
            match part {
                Part::Header => frame_header(HANDSHAKE_TAG, body),
                Part::Body => body,
            }
        },
        FrameKind::Current => match part {
            Part::Header => c.header,
            Part::Body => c.body,
        },
    }
}

/// The same step, with no retry left.
pub open spec fn without_retry(s: Step) -> Step {
    match s {
        Step::Write(k, p, _) => Step::Write(k, p, false),
        Step::ReadHeader(_) => Step::ReadHeader(false),
        Step::ReadBody(t, n, _) => Step::ReadBody(t, n, false),
        _ => s,
    }
}

/// A reconnect: find the sockets again, then a handshake whose reads and
/// writes are not retried.
pub open spec fn reconnect_steps() -> Seq<Step> {
    seq![
        Step::Resolve,
        Step::Write(FrameKind::Handshake, Part::Header, false),
        Step::Write(FrameKind::Handshake, Part::Body, false),
        Step::ReadHeader(false),
    ]
}

/// The operation ends with the error `e`; the stream is given up.
pub open spec fn abort(c: ClientState, e: RichPresenceError) -> (ClientState, Request) {
    (ClientState { connected: false, steps: seq![], ..c }, Request::Finished(Err(e)))
}

/// The step in progress failed with `e`: when it may be retried, the stream
/// is given up and a reconnect runs before the step is tried once more;
/// otherwise the operation ends with `e`.
pub open spec fn fail(c: ClientState, e: RichPresenceError, retry: bool) -> (ClientState, Request) {
    if retry {
        (
            ClientState {
                connected: false,
                steps: reconnect_steps() + seq![without_retry(c.steps[0])] + c.steps.drop_first(),
                ..c
            },
            Request::LookUpBaseDir,
        )
    } else {
        abort(c, e)
    }
}

/// What the step in progress asks for; a read or write with no open stream
/// fails at once.
pub open spec fn dispatch(c: ClientState) -> (ClientState, Request) {
    if c.steps.len() == 0 {
        (c, Request::Finished(Ok(())))
    } else {
        match c.steps[0] {
            Step::Resolve => (c, Request::LookUpBaseDir),
            Step::Probe(i) => (c, Request::Connect(socket_path(c.base, i as nat))),
            Step::Write(k, p, retry) => if c.connected {
                (c, Request::Write(write_bytes(c, k, p)))
            } else {
                fail(c, RichPresenceError::WriteSocketFailed, retry)
            },
            Step::ReadHeader(retry) => if c.connected {
                (c, Request::Read(8))
            } else {
                fail(c, RichPresenceError::ReadSocketFailed, retry)
            },
            Step::ReadBody(_, n, retry) => if c.connected {
                (c, Request::Read(n as nat))
            } else {
                fail(c, RichPresenceError::ReadSocketFailed, retry)
            },
            Step::Flush => if c.connected {
                (c, Request::Flush)
            } else {
                abort(c, RichPresenceError::FlushSocketFailed)
            },
            Step::Shutdown => (c, Request::Shutdown),
        }
    }
}

/// The state with the step in progress done.
pub open spec fn pop(c: ClientState) -> ClientState {
    ClientState { steps: c.steps.drop_first(), ..c }
}

/// How the client moves on when the step in progress has the outcome `o`.
#[verifier::opaque]
pub open spec fn step(c: ClientState, o: Outcome) -> (ClientState, Request) {
    if c.steps.len() == 0 {
        dispatch(c)
    } else {
        match c.steps[0] {
            Step::Resolve => match o {
                Outcome::BaseDirValues(vs) => match first_base_dir(vs) {
                    Some(b) => (
                        ClientState { base: b, steps: c.steps.update(0, Step::Probe(0)), ..c },
                        Request::Connect(socket_path(b, 0)),
                    ),
                    None => abort(c, RichPresenceError::CouldNotConnect),
                },
                _ => abort(c, RichPresenceError::CouldNotConnect),
            },
            Step::Probe(i) => if o is Succeeded {
                dispatch(ClientState { connected: true, ..pop(c) })
            } else if i + 1 < SOCKET_COUNT {
                (
                    ClientState { steps: c.steps.update(0, Step::Probe((i + 1) as u32)), ..c },
                    Request::Connect(socket_path(c.base, (i + 1) as nat)),
                )
            } else {
                abort(c, RichPresenceError::CouldNotConnect)
            },
            Step::Write(_, _, retry) => if o is Succeeded {
                dispatch(pop(c))
            } else {
                fail(c, RichPresenceError::WriteSocketFailed, retry)
            },
            Step::ReadHeader(retry) => match o {
                Outcome::Received(b) => if b.len() == 8 {
                    dispatch(
                        ClientState {
                            steps: c.steps.update(
                                0,
                                Step::ReadBody(
                                    le_value(b.subrange(0, 4)),
                                    le_value(b.subrange(4, 8)),
                                    retry,
                                ),
                            ),
                            ..c
                        },
                    )
                } else {
                    fail(c, RichPresenceError::ReadSocketFailed, retry)
                },
                _ => fail(c, RichPresenceError::ReadSocketFailed, retry),
            },
            Step::ReadBody(tag, n, retry) => match o {
                Outcome::Received(b) => if b.len() == n {
                    if body_is_json(b) {
                        dispatch(ClientState { frame: Some((tag, decode_utf8(b))), ..pop(c) })
                    } else {
                        abort(c, RichPresenceError::RecvInvalidPacket)
                    }
                } else {
                    fail(c, RichPresenceError::ReadSocketFailed, retry)
                },
                _ => fail(c, RichPresenceError::ReadSocketFailed, retry),
            },
            Step::Flush => if o is Succeeded {
                dispatch(pop(c))
            } else {
                abort(c, RichPresenceError::FlushSocketFailed)
            },
            Step::Shutdown => dispatch(ClientState { connected: false, ..pop(c) }),
        }
    }
}

/// The steps of `connect`: find a socket, then a retried handshake.
pub open spec fn connect_steps() -> Seq<Step> {
    seq![
        Step::Resolve,
        Step::Write(FrameKind::Current, Part::Header, true),
        Step::Write(FrameKind::Current, Part::Body, true),
        Step::ReadHeader(true),
    ]
}

/// The steps of sending a frame: its header, then its body, each retried once.
pub open spec fn send_steps() -> Seq<Step> {
    seq![
        Step::Write(FrameKind::Current, Part::Header, true),
        Step::Write(FrameKind::Current, Part::Body, true),
    ]
}

/// The steps of `close`: send the close frame, flush, shut down.
pub open spec fn close_steps() -> Seq<Step> {
    send_steps() + seq![Step::Flush, Step::Shutdown]
}

/// The state in which an operation that sends `text` under `tag` begins.
pub open spec fn start(c: ClientState, tag: u32, text: Seq<char>, steps: Seq<Step>) -> ClientState {
    ClientState {
        header: frame_header(tag, encode_utf8(text)),
        body: encode_utf8(text),
        steps: steps,
        ..c
    }
}

/// The UTF-8 bytes of a text.
fn text_bytes(s: &str) -> (r: Vec<u8>)
    ensures
        r@ == encode_utf8(s@),
{
    slice_to_vec(s.as_bytes())
}

/// The header announcing `body` under `tag`.
fn header_for(tag: u32, body: &Vec<u8>) -> (r: Vec<u8>)
    ensures
        r@ == frame_header(tag, body@),
{
    let len = ((body.len() as u64) % 0x1_0000_0000u64) as u32;
    pack(tag, len)
}

/// The JSON text of the handshake.
pub fn handshake_json(client_id: &str) -> (r: String)
    ensures
        r@ == handshake_text(client_id@),
{
    let mut w = ObjectWriter::new();
    let v = int_to_text(1);
    w.member("v", v.as_str());
    let id = json_string(client_id);
    w.member("client_id", id.as_str());
    assert(w.members() =~= seq![("v"@, int_text(1)), ("client_id"@, json_quoted(client_id@))]);
    w.finish()
}

/// The JSON text of the command that sets the activity of process `pid`, or
/// clears it when `activity` is `None`, tagged with `nonce`.
pub fn command_json(pid: u32, activity: Option<&Activity>, nonce: &str) -> (r: String)
    ensures
        r@ == command_text(
            pid,
            match activity {
                Some(a) => Some(a@),
                None => None,
            },
            nonce@,
        ),
{
    let mut args = ObjectWriter::new();
    let p = int_to_text(pid as i64);
    args.member("pid", p.as_str());
    let a = match activity {
        Some(a) => a.to_json(),
        None => {
            proof {
                reveal_strlit("null");
            }
            let mut t = String::new();
            t.append("null");
            t
        },
    };
    let ghost act = match activity {
        Some(a) => Some(a@),
        None => None,
    };
    assert(a@ =~= match act {
        Some(m) => activity_text(m),
        None => "null"@,
    });
    args.member("activity", a.as_str());
    let ghost arg_members = seq![
        ("pid"@, int_text(pid as int)),
        (
            "activity"@,
            match act {
                Some(m) => activity_text(m),
                None => "null"@,
            },
        ),
    ];
    assert(args.members() =~= arg_members);
    let args_text = args.finish();
    let mut w = ObjectWriter::new();
    let cmd = json_string("SET_ACTIVITY");
    w.member("cmd", cmd.as_str());
    w.member("args", args_text.as_str());
    let n = json_string(nonce);
    w.member("nonce", n.as_str());
    assert(w.members() =~= seq![
        ("cmd"@, json_quoted("SET_ACTIVITY"@)),
        (
            "args"@,
            object_text(
                seq![
                    ("pid"@, int_text(pid as int)),
                    (
                        "activity"@,
                        match act {
                            Some(a) => activity_text(a),
                            None => "null"@,
                        },
                    ),
                ],
            ),
        ),
        ("nonce"@, json_quoted(nonce@)),
    ]);
    w.finish()
}

/// The JSON text of the close frame.
pub fn close_json() -> (r: String)
    ensures
        r@ == close_text(),
{
    let w = ObjectWriter::new();
    w.finish()
}

fn without_retry_exec(s: Step) -> (r: Step)
    ensures
        r == without_retry(s),
{
    match s {
        Step::Write(k, p, _) => Step::Write(k, p, false),
        Step::ReadHeader(_) => Step::ReadHeader(false),
        Step::ReadBody(t, n, _) => Step::ReadBody(t, n, false),
        _ => s,
    }
}

/// A client of the peer's presence channel, owning the state of at most one
/// operation in progress.
pub struct DiscordIpcClient {
    /// The application id presented in the handshake.
    pub client_id: String,
    connected: bool,
    base: String,
    header: Vec<u8>,
    body: Vec<u8>,
    steps: Vec<Step>,
    frame: Option<(u32, String)>,
}

/// The content of an optional frame.
pub open spec fn frame_view(f: Option<(u32, String)>) -> Option<(u32, Seq<char>)> {
    match f {
        Some((tag, text)) => Some((tag, text@)),
        None => None,
    }
}

impl View for DiscordIpcClient {
    type V = ClientState;

    closed spec fn view(&self) -> ClientState {
        ClientState {
            client_id: self.client_id@,
            connected: self.connected,
            base: self.base@,
            header: self.header@,
            body: self.body@,
            steps: self.steps@,
            frame: frame_view(self.frame),
        }
    }
}

impl DiscordIpcClient {
    /// Creates a client that is not connected and has no operation in progress.
    pub fn new(client_id: &str) -> (r: DiscordIpcClient)
        ensures
            r@ == (ClientState {
                client_id: client_id@,
                connected: false,
                base: Seq::empty(),
                header: Seq::empty(),
                body: Seq::empty(),
                steps: Seq::empty(),
                frame: None,
            }),
    {
        let r = DiscordIpcClient {
            client_id: client_id.to_owned(),
            connected: false,
            base: String::new(),
            header: Vec::new(),
            body: Vec::new(),
            steps: Vec::new(),
            frame: None,
        };
        assert(r@.base =~= Seq::<char>::empty());
        r
    }

    /// The application id presented in the handshake.
    pub fn get_client_id(&self) -> (r: &String)
        ensures
            r@ == self@.client_id,
    {
        &self.client_id
    }

    fn set_front(&mut self, s: Step)
        requires
            old(self)@.steps.len() > 0,
        ensures
            final(self)@ == (ClientState { steps: old(self)@.steps.update(0, s), ..old(self)@ }),
    {
        self.steps.remove(0);
        self.steps.insert(0, s);
        assert(self.steps@ =~= old(self)@.steps.update(0, s));
    }

    fn pop_front(&mut self)
        requires
            old(self)@.steps.len() > 0,
        ensures
            final(self)@ == pop(old(self)@),
    {
        self.steps.remove(0);
        assert(self.steps@ =~= old(self)@.steps.drop_first());
    }

    fn abort(&mut self, e: RichPresenceError) -> (a: Action)
        ensures
            (final(self)@, a@) == abort(old(self)@, e),
    {
        self.connected = false;
        self.steps = Vec::new();
        assert(self@ == abort(old(self)@, e).0);
        Action::Finished(Err(e))
    }

    fn fail(&mut self, e: RichPresenceError, retry: bool) -> (a: Action)
        requires
            old(self)@.steps.len() > 0,
        ensures
            (final(self)@, a@) == fail(old(self)@, e, retry),
    {
        if !retry {
            return self.abort(e);
        }
        let front = self.steps.remove(0);
        let mut steps: Vec<Step> = Vec::new();
        steps.push(Step::Resolve);
        steps.push(Step::Write(FrameKind::Handshake, Part::Header, false));
        steps.push(Step::Write(FrameKind::Handshake, Part::Body, false));
        steps.push(Step::ReadHeader(false));
        steps.push(without_retry_exec(front));
        steps.append(&mut self.steps);
        self.steps = steps;
        self.connected = false;
        assert(self.steps@ =~= reconnect_steps() + seq![without_retry(old(self)@.steps[0])]
            + old(self)@.steps.drop_first());
        Action::LookUpBaseDir
    }

    /// The bytes that a write of `part` of `kind` sends.
    fn bytes_of(&self, kind: FrameKind, part: Part) -> (r: Vec<u8>)
        ensures
            r@ == write_bytes(self@, kind, part),
    {
        match kind {
            FrameKind::Handshake => {
                let text = handshake_json(self.client_id.as_str());
                let body = text_bytes(text.as_str());
                match part {
                    Part::Header => header_for(HANDSHAKE_TAG, &body),
                    Part::Body => body,
                }
            },
            FrameKind::Current => match part {
                Part::Header => slice_to_vec(self.header.as_slice()),
                Part::Body => slice_to_vec(self.body.as_slice()),
            },
        }
    }

    fn dispatch(&mut self) -> (a: Action)
        ensures
            (final(self)@, a@) == dispatch(old(self)@),
    {
        if self.steps.len() == 0 {
            return Action::Finished(Ok(()));
        }
        match self.steps[0] {
            Step::Resolve => Action::LookUpBaseDir,
            Step::Probe(i) => Action::Connect(candidate_path(self.base.as_str(), i)),
            Step::Write(k, p, retry) => if self.connected {
                Action::Write(self.bytes_of(k, p))
            } else {
                self.fail(RichPresenceError::WriteSocketFailed, retry)
            },
            Step::ReadHeader(retry) => if self.connected {
                Action::Read(8)
            } else {
                self.fail(RichPresenceError::ReadSocketFailed, retry)
            },
            Step::ReadBody(_, n, retry) => if self.connected {
                Action::Read(n as usize)
            } else {
                self.fail(RichPresenceError::ReadSocketFailed, retry)
            },
            Step::Flush => if self.connected {
                Action::Flush
            } else {
                self.abort(RichPresenceError::FlushSocketFailed)
            },
            Step::Shutdown => Action::Shutdown,
        }
    }

    /// Reports the outcome of the last action and returns the next one.
    pub fn advance(&mut self, event: Event) -> (a: Action)
        ensures
            (final(self)@, a@) == step(old(self)@, event@),
    {
        proof {
            reveal(step);
        }
        if self.steps.len() == 0 {
            return self.dispatch();
        }
        match self.steps[0] {
            Step::Resolve => match event {
                Event::BaseDirValues(values) => match resolve_base_dir(&values) {
                    Some(b) => {
                        let path = candidate_path(b.as_str(), 0);
                        self.base = b;
                        self.set_front(Step::Probe(0));
                        Action::Connect(path)
                    },
                    None => self.abort(RichPresenceError::CouldNotConnect),
                },
                _ => self.abort(RichPresenceError::CouldNotConnect),
            },
            Step::Probe(i) => match event {
                Event::Succeeded => {
                    self.connected = true;
                    self.pop_front();
                    self.dispatch()
                },
                _ => if i < SOCKET_COUNT - 1 {
                    self.set_front(Step::Probe(i + 1));
                    Action::Connect(candidate_path(self.base.as_str(), i + 1))
                } else {
                    self.abort(RichPresenceError::CouldNotConnect)
                },
            },
            Step::Write(_, _, retry) => match event {
                Event::Succeeded => {
                    self.pop_front();
                    self.dispatch()
                },
                _ => self.fail(RichPresenceError::WriteSocketFailed, retry),
            },
            Step::ReadHeader(retry) => match event {
                Event::Received(b) => match unpack(b.as_slice()) {
                    Ok((tag, n)) => {
                        self.set_front(Step::ReadBody(tag, n, retry));
                        self.dispatch()
                    },
                    Err(_) => self.fail(RichPresenceError::ReadSocketFailed, retry),
                },
                _ => self.fail(RichPresenceError::ReadSocketFailed, retry),
            },
            Step::ReadBody(tag, n, retry) => match event {
                Event::Received(b) => if b.len() == n as usize {
                    match body_text(b.as_slice()) {
                        Some(text) => {
                            self.frame = Some((tag, text));
                            self.pop_front();
                            self.dispatch()
                        },
                        None => self.abort(RichPresenceError::RecvInvalidPacket),
                    }
                } else {
                    self.fail(RichPresenceError::ReadSocketFailed, retry)
                },
                _ => self.fail(RichPresenceError::ReadSocketFailed, retry),
            },
            Step::Flush => match event {
                Event::Succeeded => {
                    self.pop_front();
                    self.dispatch()
                },
                _ => self.abort(RichPresenceError::FlushSocketFailed),
            },
            Step::Shutdown => {
                self.connected = false;
                self.pop_front();
                self.dispatch()
            },
        }
    }

    /// Begins an operation that sends `text` under `tag` through `steps`.
    fn begin(&mut self, tag: u32, text: &str, steps: Vec<Step>) -> (a: Action)
        ensures
            (final(self)@, a@) == dispatch(start(old(self)@, tag, text@, steps@)),
    {
        let body = text_bytes(text);
        self.header = header_for(tag, &body);
        self.body = body;
        self.steps = steps;
        self.dispatch()
    }

    /// Begins connecting: find the socket directory, open the first socket
    /// that accepts, send the handshake and read one frame in reply.
    pub fn connect(&mut self) -> (a: Action)
        ensures
            (final(self)@, a@) == dispatch(
                start(
                    ClientState { connected: false, ..old(self)@ },
                    HANDSHAKE_TAG,
                    handshake_text(old(self)@.client_id),
                    connect_steps(),
                ),
            ),
    {
        self.connected = false;
        let text = handshake_json(self.client_id.as_str());
        let mut steps: Vec<Step> = Vec::new();
        steps.push(Step::Resolve);
        steps.push(Step::Write(FrameKind::Current, Part::Header, true));
        steps.push(Step::Write(FrameKind::Current, Part::Body, true));
        steps.push(Step::ReadHeader(true));
        assert(steps@ =~= connect_steps());
        self.begin(HANDSHAKE_TAG, text.as_str(), steps)
    }

    /// Begins sending the JSON text `body` as one frame under `tag`: the
    /// header, then the body.
    pub fn send(&mut self, body: &str, tag: u32) -> (a: Action)
        ensures
            (final(self)@, a@) == dispatch(start(old(self)@, tag, body@, send_steps())),
    {
        let mut steps: Vec<Step> = Vec::new();
        steps.push(Step::Write(FrameKind::Current, Part::Header, true));
        steps.push(Step::Write(FrameKind::Current, Part::Body, true));
        assert(steps@ =~= send_steps());
        self.begin(tag, body, steps)
    }

    /// Begins setting the activity of process `pid`, under a fresh nonce.
    /// No reply is awaited.
    pub fn set_activity(&mut self, activity: Activity, pid: u32) -> (a: Action)
        ensures
            exists|nonce: Seq<char>|
                is_uuid_v4_text(nonce) && (final(self)@, a@) == dispatch(
                    start(
                        old(self)@,
                        COMMAND_TAG,
                        command_text(pid, Some(activity@), nonce),
                        send_steps(),
                    ),
                ),
    {
        let nonce = new_nonce();
        let text = command_json(pid, Some(&activity), nonce.as_str());
        self.send(text.as_str(), COMMAND_TAG)
    }

    /// Begins clearing the activity of process `pid`, under a fresh nonce.
    pub fn clear_activity(&mut self, pid: u32) -> (a: Action)
        ensures
            exists|nonce: Seq<char>|
                is_uuid_v4_text(nonce) && (final(self)@, a@) == dispatch(
                    start(old(self)@, COMMAND_TAG, command_text(pid, None, nonce), send_steps()),
                ),
    {
        let nonce = new_nonce();
        let text = command_json(pid, None, nonce.as_str());
        self.send(text.as_str(), COMMAND_TAG)
    }

    /// Begins reading one frame: its header, then as many body bytes as the
    /// header announces, each read retried once. When the operation succeeds,
    /// `received_frame` holds the frame's tag and JSON text.
    pub fn recv(&mut self) -> (a: Action)
        ensures
            (final(self)@, a@) == dispatch(
                ClientState { frame: None, steps: seq![Step::ReadHeader(true)], ..old(self)@ },
            ),
    {
        self.frame = None;
        let mut steps: Vec<Step> = Vec::new();
        steps.push(Step::ReadHeader(true));
        self.steps = steps;
        assert(self.steps@ =~= seq![Step::ReadHeader(true)]);
        self.dispatch()
    }

    /// The tag and JSON text of the last frame read, if any.
    pub fn received_frame(&self) -> (r: Option<(u32, String)>)
        ensures
            frame_view(r) == self@.frame,
    {
        match &self.frame {
            Some((tag, text)) => Some((*tag, text.clone())),
            None => None,
        }
    }

    /// Begins closing: send the close frame, flush, then shut the stream
    /// down, where a failure to shut down is ignored.
    pub fn close(&mut self) -> (a: Action)
        ensures
            (final(self)@, a@) == dispatch(start(old(self)@, CLOSE_TAG, close_text(), close_steps())),
    {
        let text = close_json();
        let mut steps: Vec<Step> = Vec::new();
        steps.push(Step::Write(FrameKind::Current, Part::Header, true));
        steps.push(Step::Write(FrameKind::Current, Part::Body, true));
        steps.push(Step::Flush);
        steps.push(Step::Shutdown);
        assert(steps@ =~= close_steps());
        self.begin(CLOSE_TAG, text.as_str(), steps)
    }
}

} // verus!
