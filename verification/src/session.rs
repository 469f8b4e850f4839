//! The client: its conversation with the relay, and the tunnels that it opens for
//! the visitors of the local server.
use crate::http;
use crate::http::{RequestLine, RequestLineView};
use crate::ident::Uuid;
use crate::message;
use crate::message::{ClientMessage, ServerMessage, ServerMessageView};
use crate::requests::{
    LoadingState, Request, RequestListStateView, RequestListWidget, RequestView,
};
use crate::requests;
use crate::text;
use vstd::prelude::*;
use vstd::utf8::*;

verus! {

/// Where the relay is.
pub const SERVER: &'static str = "port.pub:4321";

/// How many of the first bytes of a visitor's request are looked at.
pub const REQUEST_PEEK_LIMIT: usize = 4096;

/// How the time of a request is written.
pub const TIME_FORMAT: &'static str = "%Y-%m-%d %H:%M:%S";

/// A result that is only good or bad, with the error in words.
pub open spec fn done_view(done: Result<(), String>) -> Option<Seq<char>> {
    match done {
        Ok(_) => None,
        Err(e) => Some(e@),
    }
}

/// A text, or the error in words.
pub open spec fn words_view(words: Result<String, String>) -> Result<Seq<char>, Seq<char>> {
    match words {
        Ok(words) => Ok(words@),
        Err(e) => Err(e@),
    }
}

/// How far the conversation with the relay has come.
#[derive(Debug, Clone, Copy, PartialEq, Eq, Structural)]
pub enum SessionStage {
    /// The relay is being called.
    Connecting,
    /// The greeting is being put into words.
    Greeting,
    /// The greeting is on its way.
    Greeted,
    /// The next frame of the relay is awaited.
    Listening,
    /// A message of the relay is being understood.
    Parsing,
    /// The conversation is over.
    Ended,
}

/// What has come of the last action.
#[derive(Debug)]
pub enum SessionEvent {
    /// The relay answered the call.
    Connected,
    /// A message in words, or why there are none.
    Encoded(Result<String, String>),
    /// A frame was sent, or why it was not.
    Sent(Result<(), String>),
    /// The next frame: `None` at the end of the stream, or why there is none.
    Frame(Option<Result<Vec<u8>, String>>),
    /// A message of the relay, or why it was not understood.
    Parsed(Result<ServerMessage, String>),
}

/// An event with its texts and bytes as sequences.
pub enum SessionEventView {
    Connected,
    Encoded(Result<Seq<char>, Seq<char>>),
    Sent(Option<Seq<char>>),
    Frame(Option<Result<Seq<u8>, Seq<char>>>),
    Parsed(Result<ServerMessageView, Seq<char>>),
}

impl View for SessionEvent {
    type V = SessionEventView;

    open spec fn view(&self) -> SessionEventView {
        match *self {
            SessionEvent::Connected => SessionEventView::Connected,
            SessionEvent::Encoded(words) => SessionEventView::Encoded(words_view(words)),
            SessionEvent::Sent(done) => SessionEventView::Sent(done_view(done)),
            SessionEvent::Frame(None) => SessionEventView::Frame(None),
            SessionEvent::Frame(Some(Ok(bytes))) => SessionEventView::Frame(Some(Ok(bytes@))),
            SessionEvent::Frame(Some(Err(e))) => SessionEventView::Frame(Some(Err(e@))),
            SessionEvent::Parsed(Ok(message)) => SessionEventView::Parsed(Ok(message@)),
            SessionEvent::Parsed(Err(e)) => SessionEventView::Parsed(Err(e@)),
        }
    }
}

/// What is to be done next in the conversation.
#[derive(Debug)]
pub enum SessionAction {
    /// Call the relay.
    Connect,
    /// Put a message into words.
    Encode(ClientMessage),
    /// Send a frame.
    Send(Vec<u8>),
    /// Read the next frame.
    Read,
    /// Understand a message of the relay.
    Parse(Vec<u8>),
    /// Open a tunnel for the visitor who waits under this identifier, and read the
    /// next frame meanwhile.
    OpenTunnel(Uuid),
    /// Nothing.
    End,
}

/// An action with its bytes as a sequence.
pub enum SessionActionView {
    Connect,
    Encode(ClientMessage),
    Send(Seq<u8>),
    Read,
    Parse(Seq<u8>),
    OpenTunnel(Uuid),
    End,
}

impl View for SessionAction {
    type V = SessionActionView;

    open spec fn view(&self) -> SessionActionView {
        match *self {
            SessionAction::Connect => SessionActionView::Connect,
            SessionAction::Encode(message) => SessionActionView::Encode(message),
            SessionAction::Send(frame) => SessionActionView::Send(frame@),
            SessionAction::Read => SessionActionView::Read,
            SessionAction::Parse(bytes) => SessionActionView::Parse(bytes@),
            SessionAction::OpenTunnel(id) => SessionActionView::OpenTunnel(id),
            SessionAction::End => SessionActionView::End,
        }
    }
}

/// What is known, with something to tell about the tunnel: what happened, and the
/// error in words.
pub open spec fn told(
    state: RequestListStateView,
    what: Seq<char>,
    error: Seq<char>,
) -> RequestListStateView {
    RequestListStateView { top_status: what + error, ..state }
}

/// What a step of the conversation leads to.
#[verifier::ext_equal]
pub struct SessionStep {
    pub state: RequestListStateView,
    pub stage: SessionStage,
    pub action: SessionActionView,
}

/// The conversation is over, for a reason that is told.
pub open spec fn session_failed(
    state: RequestListStateView,
    what: Seq<char>,
    error: Seq<char>,
) -> SessionStep {
    SessionStep {
        state: told(state, what, error),
        stage: SessionStage::Ended,
        action: SessionActionView::End,
    }
}

/// A message of the relay: a name is noted, a visitor gets a tunnel, and a sign of
/// life changes nothing.
pub open spec fn after_server_message(
    state: RequestListStateView,
    message: ServerMessageView,
) -> SessionStep {
    match message {
        ServerMessageView::Heartbeat => SessionStep {
            state,
            stage: SessionStage::Listening,
            action: SessionActionView::Read,
        },
        ServerMessageView::Connection(id) => SessionStep {
            state: RequestListStateView { loading_state: LoadingState::Handling, ..state },
            stage: SessionStage::Listening,
            action: SessionActionView::OpenTunnel(id),
        },
        ServerMessageView::SubDomain(name) => SessionStep {
            state: RequestListStateView { sub_domain: name, ..state },
            stage: SessionStage::Listening,
            action: SessionActionView::Read,
        },
    }
}

/// How the conversation goes on after an event.
pub open spec fn session_step(
    state: RequestListStateView,
    stage: SessionStage,
    event: SessionEventView,
) -> SessionStep {
    match (stage, event) {
        (SessionStage::Connecting, SessionEventView::Connected) => SessionStep {
            state,
            stage: SessionStage::Greeting,
            action: SessionActionView::Encode(ClientMessage::Hello),
        },
        (SessionStage::Greeting, SessionEventView::Encoded(Ok(words))) => SessionStep {
            state,
            stage: SessionStage::Greeted,
            action: SessionActionView::Send(message::frame_of(words)),
        },
        (SessionStage::Greeting, SessionEventView::Encoded(Err(e))) => {
            session_failed(state, "failed to marshal hello message: "@, e)
        },
        (SessionStage::Greeted, SessionEventView::Sent(None)) => SessionStep {
            state,
            stage: SessionStage::Listening,
            action: SessionActionView::Read,
        },
        (SessionStage::Greeted, SessionEventView::Sent(Some(e))) => {
            session_failed(state, "failed to send hello message: "@, e)
        },
        (SessionStage::Listening, SessionEventView::Frame(Some(Ok(bytes)))) => SessionStep {
            state,
            stage: SessionStage::Parsing,
            action: SessionActionView::Parse(bytes),
        },
        (SessionStage::Listening, SessionEventView::Frame(Some(Err(e)))) => {
            session_failed(state, "failed to recieve new messages: "@, e)
        },
        (SessionStage::Parsing, SessionEventView::Parsed(Ok(message))) => {
            after_server_message(state, message)
        },
        (SessionStage::Parsing, SessionEventView::Parsed(Err(e))) => SessionStep {
            state: told(state, "unknown message from server: "@, e),
            stage: SessionStage::Listening,
            action: SessionActionView::Read,
        },
        _ => SessionStep { state, stage: SessionStage::Ended, action: SessionActionView::End },
    }
}

impl RequestListWidget {
    /// Tells what happened, and the error in words.
    fn tell(&mut self, what: &str, error: &str)
        ensures
            final(self)@ == told(old(self)@, what@, error@),
    {
        let mut status: String = what.to_owned();
        status.append(error);
        self.set_top_state(status);
    }

    /// Begins the conversation with the relay about the local server on `port`.
    pub fn run(&mut self, port: u16) -> (r: (SessionStage, SessionAction))
        ensures
            final(self)@ == (RequestListStateView { local_port: port, ..old(self)@ }),
            r.0 == SessionStage::Connecting,
            r.1@ == SessionActionView::Connect,
    {
        self.set_local_port(port);
        (SessionStage::Connecting, SessionAction::Connect)
    }

    /// Continues the conversation with the relay after an event. An event that does
    /// not follow from the last action ends it, and so does the end of the stream.
    pub fn run_portpub(&mut self, stage: SessionStage, event: SessionEvent) -> (r: (
        SessionStage,
        SessionAction,
    ))
        ensures
            (SessionStep { state: final(self)@, stage: r.0, action: r.1@ }) == session_step(
                old(self)@,
                stage,
                event@,
            ),
    {
        match (stage, event) {
            (SessionStage::Connecting, SessionEvent::Connected) => {
                (SessionStage::Greeting, SessionAction::Encode(ClientMessage::Hello))
            },
            (SessionStage::Greeting, SessionEvent::Encoded(words)) => match words {
                Ok(words) => {
                    let frame: Vec<u8> = message::new_codec().encode(words.as_str());
                    (SessionStage::Greeted, SessionAction::Send(frame))
                },
                Err(e) => {
                    self.tell("failed to marshal hello message: ", e.as_str());
                    (SessionStage::Ended, SessionAction::End)
                },
            },
            (SessionStage::Greeted, SessionEvent::Sent(done)) => match done {
                Ok(_) => (SessionStage::Listening, SessionAction::Read),
                Err(e) => {
                    self.tell("failed to send hello message: ", e.as_str());
                    (SessionStage::Ended, SessionAction::End)
                },
            },
            (SessionStage::Listening, SessionEvent::Frame(Some(frame))) => match frame {
                Ok(bytes) => (SessionStage::Parsing, SessionAction::Parse(bytes)),
                Err(e) => {
                    self.tell("failed to recieve new messages: ", e.as_str());
                    (SessionStage::Ended, SessionAction::End)
                },
            },
            (SessionStage::Parsing, SessionEvent::Parsed(message)) => match message {
                Ok(ServerMessage::Heartbeat) => (SessionStage::Listening, SessionAction::Read),
                Ok(ServerMessage::Connection(id)) => {
                    self.set_handling();
                    (SessionStage::Listening, SessionAction::OpenTunnel(id))
                },
                Ok(ServerMessage::SubDomain(name)) => {
                    self.set_subdomain(name);
                    (SessionStage::Listening, SessionAction::Read)
                },
                Err(e) => {
                    self.tell("unknown message from server: ", e.as_str());
                    (SessionStage::Listening, SessionAction::Read)
                },
            },
            _ => (SessionStage::Ended, SessionAction::End),
        }
    }
}

/// How far a tunnel has come.
#[derive(Debug)]
pub enum TunnelStage {
    /// The relay is being called.
    Connecting,
    /// The acceptance of the visitor is being put into words.
    Accepting,
    /// The acceptance is on its way.
    Accepted,
    /// The local server is being called.
    ConnectingLocal,
    /// The visitor's request is being looked at.
    Peeking,
    /// The visitor and the local server are talking.
    Copying { line: RequestLine },
    /// The tunnel is closed.
    Ended,
}

/// A stage with its texts as sequences.
pub enum TunnelStageView {
    Connecting,
    Accepting,
    Accepted,
    ConnectingLocal,
    Peeking,
    Copying { line: RequestLineView },
    Ended,
}

impl View for TunnelStage {
    type V = TunnelStageView;

    open spec fn view(&self) -> TunnelStageView {
        match *self {
            TunnelStage::Connecting => TunnelStageView::Connecting,
            TunnelStage::Accepting => TunnelStageView::Accepting,
            TunnelStage::Accepted => TunnelStageView::Accepted,
            TunnelStage::ConnectingLocal => TunnelStageView::ConnectingLocal,
            TunnelStage::Peeking => TunnelStageView::Peeking,
            TunnelStage::Copying { line } => TunnelStageView::Copying { line: line@ },
            TunnelStage::Ended => TunnelStageView::Ended,
        }
    }
}

/// What has come of the last action.
#[derive(Debug)]
pub enum TunnelEvent {
    /// The relay answered the call, or why it did not.
    Connected(Result<(), String>),
    /// A message in words, or why there are none.
    Encoded(Result<String, String>),
    /// A frame was sent, or why it was not.
    Sent(Result<(), String>),
    /// The local server answered the call, or why it did not.
    LocalConnected(Result<(), String>),
    /// The first bytes of the visitor's request.
    Peeked(Vec<u8>),
    /// The visitor and the local server are done. `upload` says whether all that
    /// the visitor sent was passed on, `download` whether all that the local server
    /// sent was and which status code was seen in it; `None` if that is not known.
    Copied { upload: Option<bool>, download: Option<(bool, Option<u16>)> },
}

/// An event with its texts and bytes as sequences.
pub enum TunnelEventView {
    Connected(Option<Seq<char>>),
    Encoded(Result<Seq<char>, Seq<char>>),
    Sent(Option<Seq<char>>),
    LocalConnected(Option<Seq<char>>),
    Peeked(Seq<u8>),
    Copied { upload: Option<bool>, download: Option<(bool, Option<u16>)> },
}

impl View for TunnelEvent {
    type V = TunnelEventView;

    open spec fn view(&self) -> TunnelEventView {
        match *self {
            TunnelEvent::Connected(done) => TunnelEventView::Connected(done_view(done)),
            TunnelEvent::Encoded(words) => TunnelEventView::Encoded(words_view(words)),
            TunnelEvent::Sent(done) => TunnelEventView::Sent(done_view(done)),
            TunnelEvent::LocalConnected(done) => TunnelEventView::LocalConnected(done_view(done)),
            TunnelEvent::Peeked(bytes) => TunnelEventView::Peeked(bytes@),
            TunnelEvent::Copied { upload, download } => TunnelEventView::Copied {
                upload,
                download,
            },
        }
    }
}

/// What is to be done next for a tunnel.
#[derive(Debug)]
pub enum TunnelAction {
    /// Call the relay.
    Connect,
    /// Put a message into words.
    Encode(ClientMessage),
    /// Send a frame to the relay.
    Send(Vec<u8>),
    /// Call the local server.
    ConnectLocal { port: u16 },
    /// Look at up to `limit` first bytes of the visitor's request.
    Peek { limit: usize },
    /// Let the visitor and the local server talk until both are done.
    Copy,
    /// Give up: the visitor's request is not HTTP.
    Abort,
    /// Nothing.
    End,
}

/// An action with its bytes as a sequence.
pub enum TunnelActionView {
    Connect,
    Encode(ClientMessage),
    Send(Seq<u8>),
    ConnectLocal { port: u16 },
    Peek { limit: usize },
    Copy,
    Abort,
    End,
}

impl View for TunnelAction {
    type V = TunnelActionView;

    open spec fn view(&self) -> TunnelActionView {
        match *self {
            TunnelAction::Connect => TunnelActionView::Connect,
            TunnelAction::Encode(message) => TunnelActionView::Encode(message),
            TunnelAction::Send(frame) => TunnelActionView::Send(frame@),
            TunnelAction::ConnectLocal { port } => TunnelActionView::ConnectLocal { port },
            TunnelAction::Peek { limit } => TunnelActionView::Peek { limit },
            TunnelAction::Copy => TunnelActionView::Copy,
            TunnelAction::Abort => TunnelActionView::Abort,
            TunnelAction::End => TunnelActionView::End,
        }
    }
}

/// A tunnel from a visitor, who waits under `id`, to the local server on `port`.
#[derive(Debug)]
pub struct Tunnel {
    pub id: Uuid,
    pub port: u16,
    pub stage: TunnelStage,
}

/// What a step of a tunnel leads to.
#[verifier::ext_equal]
pub struct TunnelStep {
    pub state: RequestListStateView,
    pub stage: TunnelStageView,
    pub action: TunnelActionView,
}

/// The tunnel is closed, for a reason that is told.
pub open spec fn tunnel_failed(
    state: RequestListStateView,
    what: Seq<char>,
    error: Seq<char>,
) -> TunnelStep {
    TunnelStep {
        state: told(state, what, error),
        stage: TunnelStageView::Ended,
        action: TunnelActionView::End,
    }
}

/// The status that is noted of a request: the code that was seen, or 0 if none
/// was or if not all went well.
pub open spec fn final_status(
    upload: Option<bool>,
    download: Option<(bool, Option<u16>)>,
) -> u16 {
    match (upload, download) {
        (Some(true), Some((true, Some(code)))) => code,
        _ => 0,
    }
}

/// How a tunnel goes on after an event at a time.
pub open spec fn tunnel_step(
    state: RequestListStateView,
    id: Uuid,
    port: u16,
    stage: TunnelStageView,
    event: TunnelEventView,
    time: Seq<char>,
) -> TunnelStep {
    match (stage, event) {
        (TunnelStageView::Connecting, TunnelEventView::Connected(None)) => TunnelStep {
            state,
            stage: TunnelStageView::Accepting,
            action: TunnelActionView::Encode(ClientMessage::Accept(id)),
        },
        (TunnelStageView::Connecting, TunnelEventView::Connected(Some(e))) => {
            tunnel_failed(state, "failed to connecto to server ("@ + SERVER@ + "): "@, e)
        },
        (TunnelStageView::Accepting, TunnelEventView::Encoded(Ok(words))) => TunnelStep {
            state,
            stage: TunnelStageView::Accepted,
            action: TunnelActionView::Send(message::frame_of(words)),
        },
        (TunnelStageView::Accepting, TunnelEventView::Encoded(Err(e))) => {
            tunnel_failed(state, "failed to marshal accept message: "@, e)
        },
        (TunnelStageView::Accepted, TunnelEventView::Sent(None)) => TunnelStep {
            state,
            stage: TunnelStageView::ConnectingLocal,
            action: TunnelActionView::ConnectLocal { port },
        },
        (TunnelStageView::Accepted, TunnelEventView::Sent(Some(e))) => {
            tunnel_failed(state, "failed to send accept message: "@, e)
        },
        (TunnelStageView::ConnectingLocal, TunnelEventView::LocalConnected(None)) => TunnelStep {
            state,
            stage: TunnelStageView::Peeking,
            action: TunnelActionView::Peek { limit: REQUEST_PEEK_LIMIT },
        },
        (TunnelStageView::ConnectingLocal, TunnelEventView::LocalConnected(Some(e))) => {
            tunnel_failed(
                state,
                "failed to connecto to local on port "@ + text::decimal(port as nat) + ": "@,
                e,
            )
        },
        (TunnelStageView::Peeking, TunnelEventView::Peeked(bytes)) => {
            match http::noted_request(http::request_head(bytes, http::MAX_HEADERS)) {
                Some(line) => TunnelStep {
                    state,
                    stage: TunnelStageView::Copying { line },
                    action: TunnelActionView::Copy,
                },
                None => TunnelStep {
                    state,
                    stage: TunnelStageView::Ended,
                    action: TunnelActionView::Abort,
                },
            }
        },
        (TunnelStageView::Copying { line }, TunnelEventView::Copied { upload, download }) => {
            TunnelStep {
                state: requests::with_request(
                    state,
                    RequestView {
                        time,
                        path: line.path,
                        method: line.method,
                        status: final_status(upload, download),
                    },
                ),
                stage: TunnelStageView::Ended,
                action: TunnelActionView::End,
            }
        },
        _ => TunnelStep { state, stage: TunnelStageView::Ended, action: TunnelActionView::End },
    }
}

/// Whether a text ends as a time does: hyphen, month, hyphen, day, space, hours,
/// minutes and seconds with colons between them, each in two digits. In front of
/// that stands the year, in four characters or more: digits, with a sign or not.
pub open spec fn is_timestamp(text: Seq<char>) -> bool {
    &&& text.len() >= 19
    &&& forall|i: int|
        0 <= i < text.len() - 15 ==> text::is_digit(#[trigger] text[i]) || (i == 0 && (text[0] == '+'
            || text[0] == '-'))
    &&& {
        let t = text.skip(text.len() - 15);
        &&& t[0] == '-' && text::is_digit(t[1]) && text::is_digit(t[2])
        &&& t[3] == '-' && text::is_digit(t[4]) && text::is_digit(t[5])
        &&& t[6] == ' ' && text::is_digit(t[7]) && text::is_digit(t[8])
        &&& t[9] == ':' && text::is_digit(t[10]) && text::is_digit(t[11])
        &&& t[12] == ':' && text::is_digit(t[13]) && text::is_digit(t[14])
    }
}

/// `chrono::Local::now` in the format `%Y-%m-%d %H:%M:%S`: some time, written with
/// two digits for everything but the year, and with four or more for that. Which
/// time it is, the clock and the time zone of the machine say.
#[verifier::external_body]
fn local_time(format: &str) -> (r: String)
    requires
        format@ == TIME_FORMAT@,
    ensures
        is_timestamp(r@),
{
    chrono::Local::now().format(format).to_string()
}

impl Tunnel {
    /// A tunnel for the visitor who waits under `id`, and what is to be done first.
    pub fn new(id: Uuid, port: u16) -> (r: (Tunnel, TunnelAction))
        ensures
            r.0.id == id,
            r.0.port == port,
            r.0.stage@ == TunnelStageView::Connecting,
            r.1@ == TunnelActionView::Connect,
    {
        (Tunnel { id, port, stage: TunnelStage::Connecting }, TunnelAction::Connect)
    }
}

/// The status that is noted of a request.
pub fn status_of(upload: Option<bool>, download: Option<(bool, Option<u16>)>) -> (r: u16)
    ensures
        r == final_status(upload, download),
{
    let code: u16 = match download {
        Some((_, Some(code))) => code,
        _ => 0,
    };
    match (upload, download) {
        (Some(true), Some((true, _))) => code,
        _ => 0,
    }
}

/// What is told when the relay does not answer.
fn server_failure() -> (r: String)
    ensures
        r@ == "failed to connecto to server ("@ + SERVER@ + "): "@,
{
    let mut r: String = "failed to connecto to server (".to_owned();
    r.append(SERVER);
    r.append("): ");
    r
}

/// What is told when the local server does not answer.
fn local_failure(port: u16) -> (r: String)
    ensures
        r@ == "failed to connecto to local on port "@ + text::decimal(port as nat) + ": "@,
{
    let mut r: String = "failed to connecto to local on port ".to_owned();
    r.append(text::decimal_string(port).as_str());
    r.append(": ");
    r
}

impl RequestListWidget {
    /// Continues a tunnel after an event that came at `time`.
    pub fn run_tunnel_at(&mut self, tunnel: Tunnel, event: TunnelEvent, time: String) -> (r: (
        Tunnel,
        TunnelAction,
    ))
        ensures
            r.0.id == tunnel.id,
            r.0.port == tunnel.port,
            (TunnelStep { state: final(self)@, stage: r.0.stage@, action: r.1@ }) == tunnel_step(
                old(self)@,
                tunnel.id,
                tunnel.port,
                tunnel.stage@,
                event@,
                time@,
            ),
    {
        let id: Uuid = tunnel.id;
        let port: u16 = tunnel.port;
        let (stage, action): (TunnelStage, TunnelAction) = match (tunnel.stage, event) {
            (TunnelStage::Connecting, TunnelEvent::Connected(done)) => match done {
                Ok(_) => {
                    (TunnelStage::Accepting, TunnelAction::Encode(ClientMessage::Accept(id)))
                },
                Err(e) => {
                    self.tell(server_failure().as_str(), e.as_str());
                    (TunnelStage::Ended, TunnelAction::End)
                },
            },
            (TunnelStage::Accepting, TunnelEvent::Encoded(words)) => match words {
                Ok(words) => {
                    let frame: Vec<u8> = message::new_codec().encode(words.as_str());
                    (TunnelStage::Accepted, TunnelAction::Send(frame))
                },
                Err(e) => {
                    self.tell("failed to marshal accept message: ", e.as_str());
                    (TunnelStage::Ended, TunnelAction::End)
                },
            },
            (TunnelStage::Accepted, TunnelEvent::Sent(done)) => match done {
                Ok(_) => (TunnelStage::ConnectingLocal, TunnelAction::ConnectLocal { port }),
                Err(e) => {
                    self.tell("failed to send accept message: ", e.as_str());
                    (TunnelStage::Ended, TunnelAction::End)
                },
            },
            (TunnelStage::ConnectingLocal, TunnelEvent::LocalConnected(done)) => match done {
                Ok(_) => {
                    (TunnelStage::Peeking, TunnelAction::Peek { limit: REQUEST_PEEK_LIMIT })
                },
                Err(e) => {
                    self.tell(local_failure(port).as_str(), e.as_str());
                    (TunnelStage::Ended, TunnelAction::End)
                },
            },
            (TunnelStage::Peeking, TunnelEvent::Peeked(bytes)) => {
                match http::read_request_line(bytes.as_slice()) {
                    Some(line) => (TunnelStage::Copying { line }, TunnelAction::Copy),
                    None => (TunnelStage::Ended, TunnelAction::Abort),
                }
            },
            (TunnelStage::Copying { line }, TunnelEvent::Copied { upload, download }) => {
                self.add_request(
                    Request {
                        time,
                        path: line.path,
                        method: line.method,
                        status: status_of(upload, download),
                    },
                );
                (TunnelStage::Ended, TunnelAction::End)
            },
            _ => (TunnelStage::Ended, TunnelAction::End),
        };
        (Tunnel { id, port, stage }, action)
    }

    /// Continues a tunnel after an event. A request is noted with the time of the
    /// machine's clock.
    pub fn run_tunnel(&mut self, tunnel: Tunnel, event: TunnelEvent) -> (r: (Tunnel, TunnelAction))
        ensures
            r.0.id == tunnel.id,
            r.0.port == tunnel.port,
            exists|time: Seq<char>|
                is_timestamp(time) && (TunnelStep {
                    state: final(self)@,
                    stage: r.0.stage@,
                    action: r.1@,
                }) == #[trigger] tunnel_step(
                    old(self)@,
                    tunnel.id,
                    tunnel.port,
                    tunnel.stage@,
                    event@,
                    time,
                ),
    {
        let time: String = local_time(TIME_FORMAT);
        self.run_tunnel_at(tunnel, event, time)
    }
}

/// The name that the relay announces is shown as the address of the local server.
pub proof fn law_announced_name_is_shown(state: RequestListStateView, name: Seq<char>)
    ensures
        ({
            let after = session_step(
                state,
                SessionStage::Parsing,
                SessionEventView::Parsed(Ok(ServerMessageView::SubDomain(name))),
            );
            &&& requests::shown(after.state).header.rows[0][1][0].text == "http://"@ + name
                + ".port.pub"@
            &&& after.state == (RequestListStateView { sub_domain: name, ..state })
            &&& after.stage == SessionStage::Listening
            &&& after.action == SessionActionView::Read
        }),
{
}

/// A message that is not understood is told, and the conversation goes on.
pub proof fn law_unknown_message_is_survived(state: RequestListStateView, error: Seq<char>)
    ensures
        ({
            let after = session_step(
                state,
                SessionStage::Parsing,
                SessionEventView::Parsed(Err(error)),
            );
            &&& after.stage == SessionStage::Listening
            &&& after.action == SessionActionView::Read
            &&& after.state == (RequestListStateView {
                top_status: "unknown message from server: "@ + error,
                ..state
            })
        }),
{
}

/// The conversation never touches the requests that are noted, nor the port of the
/// local server, nor the rows that are shown.
pub proof fn law_conversation_keeps_requests(
    state: RequestListStateView,
    stage: SessionStage,
    event: SessionEventView,
)
    ensures
        session_step(state, stage, event).state.requests == state.requests,
        session_step(state, stage, event).state.local_port == state.local_port,
        session_step(state, stage, event).state.table_state == state.table_state,
{
}

/// A tunnel notes one request, when the visitor and the local server are done, and
/// no step of it does more than add one.
pub proof fn law_tunnel_notes_one_request(
    state: RequestListStateView,
    id: Uuid,
    port: u16,
    stage: TunnelStageView,
    event: TunnelEventView,
    time: Seq<char>,
)
    ensures
        ({
            let after = tunnel_step(state, id, port, stage, event, time);
            if stage is Copying && event is Copied {
                &&& after.state.requests.len() == state.requests.len() + 1
                &&& after.state.requests.drop_last() == state.requests
                &&& after.stage is Ended
            } else {
                after.state.requests == state.requests
            }
        }),
{
    let after = tunnel_step(state, id, port, stage, event, time);
    if stage is Copying && event is Copied {
        assert(after.state.requests.drop_last() =~= state.requests);
    }
}

/// A tunnel that is closed does nothing more.
pub proof fn law_closed_tunnel_stays_closed(
    state: RequestListStateView,
    id: Uuid,
    port: u16,
    event: TunnelEventView,
    time: Seq<char>,
)
    ensures
        tunnel_step(state, id, port, TunnelStageView::Ended, event, time) == (TunnelStep {
            state,
            stage: TunnelStageView::Ended,
            action: TunnelActionView::End,
        }),
{
}

/// A tunnel accepts the visitor that it was opened for before it calls the local
/// server, on the port that the client was started with.
pub proof fn law_tunnel_accepts_its_visitor(
    state: RequestListStateView,
    id: Uuid,
    port: u16,
    words: Seq<char>,
    time: Seq<char>,
)
    ensures
        ({
            let called = tunnel_step(
                state,
                id,
                port,
                TunnelStageView::Connecting,
                TunnelEventView::Connected(None),
                time,
            );
            let accepted = tunnel_step(
                called.state,
                id,
                port,
                called.stage,
                TunnelEventView::Encoded(Ok(words)),
                time,
            );
            let sent = tunnel_step(
                accepted.state,
                id,
                port,
                accepted.stage,
                TunnelEventView::Sent(None),
                time,
            );
            &&& called.action == TunnelActionView::Encode(ClientMessage::Accept(id))
            &&& accepted.action == TunnelActionView::Send(encode_utf8(words).push(0u8))
            &&& sent.action == (TunnelActionView::ConnectLocal { port })
            &&& sent.state == state
        }),
{
    message::law_frame_carries_the_text(words);
}

/// The client greets the relay and then listens to it: the greeting is sent as it was
/// put into words, with a zero byte behind it, and the bytes of every frame that
/// comes are the ones that are to be understood. Nothing of what is known changes.
pub proof fn law_client_greets_and_listens(
    state: RequestListStateView,
    words: Seq<char>,
    bytes: Seq<u8>,
)
    ensures
        session_step(state, SessionStage::Connecting, SessionEventView::Connected) == (SessionStep {
            state,
            stage: SessionStage::Greeting,
            action: SessionActionView::Encode(ClientMessage::Hello),
        }),
        session_step(
            state,
            SessionStage::Greeting,
            SessionEventView::Encoded(Ok(words)),
        ) == (SessionStep {
            state,
            stage: SessionStage::Greeted,
            action: SessionActionView::Send(encode_utf8(words).push(0u8)),
        }),
        session_step(state, SessionStage::Greeted, SessionEventView::Sent(None)) == (SessionStep {
            state,
            stage: SessionStage::Listening,
            action: SessionActionView::Read,
        }),
        session_step(
            state,
            SessionStage::Listening,
            SessionEventView::Frame(Some(Ok(bytes))),
        ) == (SessionStep {
            state,
            stage: SessionStage::Parsing,
            action: SessionActionView::Parse(bytes),
        }),
{
    message::law_frame_carries_the_text(words);
}

/// Every visitor gets a tunnel, and it accepts the visitor that the relay told of:
/// the identifier in the message of the relay is the one that the tunnel is opened
/// for and the one that the tunnel sends back. Meanwhile the client goes on listening.
pub proof fn law_every_visitor_gets_a_tunnel(
    state: RequestListStateView,
    later: RequestListStateView,
    id: Uuid,
    port: u16,
    time: Seq<char>,
)
    ensures
        ({
            let next = session_step(
                state,
                SessionStage::Parsing,
                SessionEventView::Parsed(Ok(ServerMessageView::Connection(id))),
            );
            &&& next.action == SessionActionView::OpenTunnel(id)
            &&& next.stage == SessionStage::Listening
            &&& next.state == (RequestListStateView {
                loading_state: LoadingState::Handling,
                ..state
            })
            &&& next.action matches SessionActionView::OpenTunnel(visitor) && tunnel_step(
                later,
                visitor,
                port,
                TunnelStageView::Connecting,
                TunnelEventView::Connected(None),
                time,
            ).action == TunnelActionView::Encode(ClientMessage::Accept(id))
        }),
{
}

/// A sign of life changes nothing, and the client goes on listening.
pub proof fn law_sign_of_life_changes_nothing(state: RequestListStateView)
    ensures
        session_step(
            state,
            SessionStage::Parsing,
            SessionEventView::Parsed(Ok(ServerMessageView::Heartbeat)),
        ) == (SessionStep {
            state,
            stage: SessionStage::Listening,
            action: SessionActionView::Read,
        }),
{
}

/// What goes wrong in the conversation is told in words and ends it: that there are
/// no words for the greeting, that it cannot be sent, or that no frame can be read.
/// Nothing else of what is known changes.
pub proof fn law_failed_conversation_is_told(state: RequestListStateView, error: Seq<char>)
    ensures
        session_step(
            state,
            SessionStage::Greeting,
            SessionEventView::Encoded(Err(error)),
        ) == (SessionStep {
            state: RequestListStateView {
                top_status: "failed to marshal hello message: "@ + error,
                ..state
            },
            stage: SessionStage::Ended,
            action: SessionActionView::End,
        }),
        session_step(
            state,
            SessionStage::Greeted,
            SessionEventView::Sent(Some(error)),
        ) == (SessionStep {
            state: RequestListStateView {
                top_status: "failed to send hello message: "@ + error,
                ..state
            },
            stage: SessionStage::Ended,
            action: SessionActionView::End,
        }),
        session_step(
            state,
            SessionStage::Listening,
            SessionEventView::Frame(Some(Err(error))),
        ) == (SessionStep {
            state: RequestListStateView {
                top_status: "failed to recieve new messages: "@ + error,
                ..state
            },
            stage: SessionStage::Ended,
            action: SessionActionView::End,
        }),
{
}

/// The conversation ends in silence at the end of the stream, and where an event does
/// not follow from the last action. After that nothing happens any more.
pub proof fn law_conversation_ends_in_silence(
    state: RequestListStateView,
    stage: SessionStage,
    event: SessionEventView,
)
    requires
        match stage {
            SessionStage::Connecting => event !is Connected,
            SessionStage::Greeting => event !is Encoded,
            SessionStage::Greeted => event !is Sent,
            SessionStage::Listening => event !is Frame || event == SessionEventView::Frame(None),
            SessionStage::Parsing => event !is Parsed,
            SessionStage::Ended => true,
        },
    ensures
        session_step(state, stage, event) == (SessionStep {
            state,
            stage: SessionStage::Ended,
            action: SessionActionView::End,
        }),
{
}

/// Every request is passed to the local server: whatever number of bytes was looked
/// at, if they are read as the head of a request or as a part of one, the visitor and
/// the local server are let to talk, and what was read of method and path is kept.
/// The tunnel gives up if and only if the bytes are no request.
pub proof fn law_every_request_is_passed_on(
    state: RequestListStateView,
    id: Uuid,
    port: u16,
    bytes: Seq<u8>,
    time: Seq<char>,
)
    ensures
        ({
            let (status, method, path) = http::request_head(bytes, 32);
            let next = tunnel_step(
                state,
                id,
                port,
                TunnelStageView::Peeking,
                TunnelEventView::Peeked(bytes),
                time,
            );
            &&& next.state == state
            &&& if status == http::HeadStatus::Invalid {
                &&& next.action == TunnelActionView::Abort
                &&& next.stage == TunnelStageView::Ended
            } else {
                &&& next.action == TunnelActionView::Copy
                &&& next.stage matches TunnelStageView::Copying { line } && {
                    &&& method matches Some(read) ==> line.method == read
                    &&& path matches Some(read) ==> line.path == read
                    &&& method is None ==> line.method.len() == 0
                    &&& path is None ==> line.path.len() == 0
                }
            }
        }),
{
    let (status, method, path) = http::request_head(bytes, 32);
    http::law_request_is_noted_as_read(status, method, path);
}

/// Every request that was passed on is noted: as the latest one, with the time, with
/// the method and the path that were read off it, and with the status code that was
/// seen in the response if all was passed on in both directions, else with 0.
pub proof fn law_passed_request_is_noted(
    state: RequestListStateView,
    later: RequestListStateView,
    id: Uuid,
    port: u16,
    bytes: Seq<u8>,
    method: Seq<char>,
    path: Seq<char>,
    upload: Option<bool>,
    download: Option<(bool, Option<u16>)>,
    earlier_time: Seq<char>,
    time: Seq<char>,
)
    requires
        http::request_head(bytes, 32).0 != http::HeadStatus::Invalid,
        http::request_head(bytes, 32).1 == Some(method),
        http::request_head(bytes, 32).2 == Some(path),
    ensures
        ({
            let peeked = tunnel_step(
                state,
                id,
                port,
                TunnelStageView::Peeking,
                TunnelEventView::Peeked(bytes),
                earlier_time,
            );
            let copied = tunnel_step(
                later,
                id,
                port,
                peeked.stage,
                TunnelEventView::Copied { upload, download },
                time,
            );
            &&& peeked.action == TunnelActionView::Copy
            &&& copied.action == TunnelActionView::End
            &&& copied.stage == TunnelStageView::Ended
            &&& copied.state.requests.len() == later.requests.len() + 1
            &&& copied.state.requests.drop_last() == later.requests
            &&& copied.state.requests.last().time == time
            &&& copied.state.requests.last().method == method
            &&& copied.state.requests.last().path == path
            &&& match download {
                Some((true, Some(code))) => copied.state.requests.last().status == if upload
                    == Some(true) {
                    code
                } else {
                    0
                },
                _ => copied.state.requests.last().status == 0,
            }
            &&& copied.state.loading_state == LoadingState::Handled
            &&& copied.state.top_status == later.top_status
            &&& copied.state.sub_domain == later.sub_domain
            &&& copied.state.local_port == later.local_port
            &&& copied.state.table_state == later.table_state
        }),
{
    let request = RequestView {
        time,
        path,
        method,
        status: final_status(upload, download),
    };
    assert(later.requests.push(request).drop_last() =~= later.requests);
}

/// What is noted of a request is what its tunnel kept of it, whatever that is.
pub proof fn law_kept_line_is_noted(
    state: RequestListStateView,
    id: Uuid,
    port: u16,
    line: RequestLineView,
    upload: Option<bool>,
    download: Option<(bool, Option<u16>)>,
    time: Seq<char>,
)
    ensures
        ({
            let next = tunnel_step(
                state,
                id,
                port,
                TunnelStageView::Copying { line },
                TunnelEventView::Copied { upload, download },
                time,
            );
            &&& next.state.requests.len() == state.requests.len() + 1
            &&& next.state.requests.drop_last() == state.requests
            &&& next.state.requests.last().time == time
            &&& next.state.requests.last().method == line.method
            &&& next.state.requests.last().path == line.path
            &&& next.state.loading_state == LoadingState::Handled
            &&& next.action == TunnelActionView::End
        }),
{
    let request = RequestView {
        time,
        path: line.path,
        method: line.method,
        status: final_status(upload, download),
    };
    assert(state.requests.push(request).drop_last() =~= state.requests);
}

/// The status of a request is the code that was seen, if both directions went well,
/// and else 0.
pub proof fn law_status_is_the_code_if_all_went_well(
    upload: Option<bool>,
    download: Option<(bool, Option<u16>)>,
    code: u16,
)
    ensures
        final_status(Some(true), Some((true, Some(code)))) == code,
        upload != Some(true) ==> final_status(upload, download) == 0,
        download is None ==> final_status(upload, download) == 0,
        final_status(upload, Some((false, Some(code)))) == 0,
        final_status(upload, Some((true, None))) == 0,
        final_status(upload, Some((false, None))) == 0,
{
}

/// A tunnel is opened step by step, whatever becomes known meanwhile: it accepts its
/// visitor, sends that as it was put into words with a zero byte behind it, calls the
/// local server on its port, and then looks at the first 4096 bytes of the request.
/// None of that changes what is known.
pub proof fn law_tunnel_is_opened_step_by_step(
    state: RequestListStateView,
    id: Uuid,
    port: u16,
    words: Seq<char>,
    time: Seq<char>,
)
    ensures
        tunnel_step(
            state,
            id,
            port,
            TunnelStageView::Connecting,
            TunnelEventView::Connected(None),
            time,
        ) == (TunnelStep {
            state,
            stage: TunnelStageView::Accepting,
            action: TunnelActionView::Encode(ClientMessage::Accept(id)),
        }),
        tunnel_step(
            state,
            id,
            port,
            TunnelStageView::Accepting,
            TunnelEventView::Encoded(Ok(words)),
            time,
        ) == (TunnelStep {
            state,
            stage: TunnelStageView::Accepted,
            action: TunnelActionView::Send(encode_utf8(words).push(0u8)),
        }),
        tunnel_step(
            state,
            id,
            port,
            TunnelStageView::Accepted,
            TunnelEventView::Sent(None),
            time,
        ) == (TunnelStep {
            state,
            stage: TunnelStageView::ConnectingLocal,
            action: TunnelActionView::ConnectLocal { port },
        }),
        tunnel_step(
            state,
            id,
            port,
            TunnelStageView::ConnectingLocal,
            TunnelEventView::LocalConnected(None),
            time,
        ) == (TunnelStep {
            state,
            stage: TunnelStageView::Peeking,
            action: TunnelActionView::Peek { limit: 4096 },
        }),
{
    message::law_frame_carries_the_text(words);
}

/// A tunnel that fails is closed, and why is told in words: the relay does not
/// answer, there are no words for the acceptance, it cannot be sent, or the local
/// server does not answer. Nothing else of what is known changes.
pub proof fn law_failed_tunnel_is_told(
    state: RequestListStateView,
    id: Uuid,
    port: u16,
    error: Seq<char>,
    time: Seq<char>,
)
    ensures
        tunnel_step(
            state,
            id,
            port,
            TunnelStageView::Connecting,
            TunnelEventView::Connected(Some(error)),
            time,
        ) == (TunnelStep {
            state: RequestListStateView {
                top_status: "failed to connecto to server ("@ + "port.pub:4321"@ + "): "@ + error,
                ..state
            },
            stage: TunnelStageView::Ended,
            action: TunnelActionView::End,
        }),
        tunnel_step(
            state,
            id,
            port,
            TunnelStageView::Accepting,
            TunnelEventView::Encoded(Err(error)),
            time,
        ) == (TunnelStep {
            state: RequestListStateView {
                top_status: "failed to marshal accept message: "@ + error,
                ..state
            },
            stage: TunnelStageView::Ended,
            action: TunnelActionView::End,
        }),
        tunnel_step(
            state,
            id,
            port,
            TunnelStageView::Accepted,
            TunnelEventView::Sent(Some(error)),
            time,
        ) == (TunnelStep {
            state: RequestListStateView {
                top_status: "failed to send accept message: "@ + error,
                ..state
            },
            stage: TunnelStageView::Ended,
            action: TunnelActionView::End,
        }),
        tunnel_step(
            state,
            id,
            port,
            TunnelStageView::ConnectingLocal,
            TunnelEventView::LocalConnected(Some(error)),
            time,
        ) == (TunnelStep {
            state: RequestListStateView {
                top_status: "failed to connecto to local on port "@ + text::decimal(port as nat)
                    + ": "@ + error,
                ..state
            },
            stage: TunnelStageView::Ended,
            action: TunnelActionView::End,
        }),
{
}

/// An event that does not follow from the last action closes a tunnel, and nothing of
/// what is known changes.
pub proof fn law_event_out_of_turn_closes_the_tunnel(
    state: RequestListStateView,
    id: Uuid,
    port: u16,
    stage: TunnelStageView,
    event: TunnelEventView,
    time: Seq<char>,
)
    requires
        match stage {
            TunnelStageView::Connecting => event !is Connected,
            TunnelStageView::Accepting => event !is Encoded,
            TunnelStageView::Accepted => event !is Sent,
            TunnelStageView::ConnectingLocal => event !is LocalConnected,
            TunnelStageView::Peeking => event !is Peeked,
            TunnelStageView::Copying { line } => event !is Copied,
            TunnelStageView::Ended => true,
        },
    ensures
        tunnel_step(state, id, port, stage, event, time) == (TunnelStep {
            state,
            stage: TunnelStageView::Ended,
            action: TunnelActionView::End,
        }),
{
}

/// What the client is to do and what happens to it are seen as they are.
pub proof fn law_conversation_is_seen_whole(
    message: ClientMessage,
    bytes: Vec<u8>,
    id: Uuid,
    text: String,
    received: ServerMessage,
)
    ensures
        SessionAction::Connect@ == SessionActionView::Connect,
        SessionAction::Encode(message)@ == SessionActionView::Encode(message),
        SessionAction::Send(bytes)@ == SessionActionView::Send(bytes@),
        SessionAction::Read@ == SessionActionView::Read,
        SessionAction::Parse(bytes)@ == SessionActionView::Parse(bytes@),
        SessionAction::OpenTunnel(id)@ == SessionActionView::OpenTunnel(id),
        SessionAction::End@ == SessionActionView::End,
        SessionEvent::Connected@ == SessionEventView::Connected,
        SessionEvent::Encoded(Ok(text))@ == SessionEventView::Encoded(Ok(text@)),
        SessionEvent::Encoded(Err(text))@ == SessionEventView::Encoded(Err(text@)),
        SessionEvent::Sent(Ok(()))@ == SessionEventView::Sent(None),
        SessionEvent::Sent(Err(text))@ == SessionEventView::Sent(Some(text@)),
        SessionEvent::Frame(None)@ == SessionEventView::Frame(None),
        SessionEvent::Frame(Some(Ok(bytes)))@ == SessionEventView::Frame(Some(Ok(bytes@))),
        SessionEvent::Frame(Some(Err(text)))@ == SessionEventView::Frame(Some(Err(text@))),
        SessionEvent::Parsed(Ok(received))@ == SessionEventView::Parsed(Ok(received@)),
        SessionEvent::Parsed(Err(text))@ == SessionEventView::Parsed(Err(text@)),
{
}

/// What a tunnel is to do, what happens to it and how far it has come are seen as
/// they are.
pub proof fn law_tunnel_is_seen_whole(
    message: ClientMessage,
    bytes: Vec<u8>,
    port: u16,
    limit: usize,
    text: String,
    line: RequestLine,
    upload: Option<bool>,
    download: Option<(bool, Option<u16>)>,
)
    ensures
        TunnelAction::Connect@ == TunnelActionView::Connect,
        TunnelAction::Encode(message)@ == TunnelActionView::Encode(message),
        TunnelAction::Send(bytes)@ == TunnelActionView::Send(bytes@),
        (TunnelAction::ConnectLocal { port })@ == (TunnelActionView::ConnectLocal { port }),
        (TunnelAction::Peek { limit })@ == (TunnelActionView::Peek { limit }),
        TunnelAction::Copy@ == TunnelActionView::Copy,
        TunnelAction::Abort@ == TunnelActionView::Abort,
        TunnelAction::End@ == TunnelActionView::End,
        TunnelEvent::Connected(Ok(()))@ == TunnelEventView::Connected(None),
        TunnelEvent::Connected(Err(text))@ == TunnelEventView::Connected(Some(text@)),
        TunnelEvent::Encoded(Ok(text))@ == TunnelEventView::Encoded(Ok(text@)),
        TunnelEvent::Encoded(Err(text))@ == TunnelEventView::Encoded(Err(text@)),
        TunnelEvent::Sent(Ok(()))@ == TunnelEventView::Sent(None),
        TunnelEvent::Sent(Err(text))@ == TunnelEventView::Sent(Some(text@)),
        TunnelEvent::LocalConnected(Ok(()))@ == TunnelEventView::LocalConnected(None),
        TunnelEvent::LocalConnected(Err(text))@ == TunnelEventView::LocalConnected(Some(text@)),
        TunnelEvent::Peeked(bytes)@ == TunnelEventView::Peeked(bytes@),
        (TunnelEvent::Copied { upload, download })@ == (TunnelEventView::Copied {
            upload,
            download,
        }),
        TunnelStage::Connecting@ == TunnelStageView::Connecting,
        TunnelStage::Accepting@ == TunnelStageView::Accepting,
        TunnelStage::Accepted@ == TunnelStageView::Accepted,
        TunnelStage::ConnectingLocal@ == TunnelStageView::ConnectingLocal,
        TunnelStage::Peeking@ == TunnelStageView::Peeking,
        (TunnelStage::Copying { line })@ == (TunnelStageView::Copying { line: line@ }),
        TunnelStage::Ended@ == TunnelStageView::Ended,
{
}

} // verus!
