//! The relay: how a connection is served, from its first bytes to its end.
//!
//! A visitor's request names a subdomain. The relay keeps the visitor waiting
//! under an identifier and tells the client of that subdomain, which then opens
//! a connection of its own to take the visitor over.
use crate::host;
use crate::ident;
use crate::ident::Uuid;
use crate::message;
use crate::message::{ClientMessage, FrameError, ServerMessage, ServerMessageView};
use crate::random;
use crate::registry;
use crate::text;
use dashmap::DashMap;
use std::collections::hash_map::RandomState;
use vstd::prelude::*;
use vstd::utf8::*;

verus! {

/// How many of the first bytes of a connection are looked at.
pub const PEEK_LIMIT: usize = 1024;

/// How many characters a random name has.
pub const NAME_LENGTH: u8 = 5;

/// The relay: the port it listens on, the visitors that wait by identifier, and
/// the clients by subdomain.
pub struct Server {
    port: u16,
    cli_conns: DashMap<String, u64, RandomState>,
    subdomain_conns: DashMap<String, u64, RandomState>,
}

/// What the relay knows.
#[verifier::ext_equal]
pub struct ServerView {
    pub port: u16,
    /// The streams of the visitors that wait, by identifier.
    pub cli_conns: Map<Seq<char>, u64>,
    /// The streams of the clients, by subdomain.
    pub subdomain_conns: Map<Seq<char>, u64>,
}

impl View for Server {
    type V = ServerView;

    closed spec fn view(&self) -> ServerView {
        ServerView {
            port: self.port,
            cli_conns: registry::held(self.cli_conns),
            subdomain_conns: registry::held(self.subdomain_conns),
        }
    }
}

impl ServerView {
    /// Every subdomain in use is a label that a visitor can ask for.
    pub open spec fn wf(self) -> bool {
        forall|name: Seq<char>| #[trigger]
            self.subdomain_conns.contains_key(name) ==> random::is_label(name)
    }
}

/// How far a connection has come.
#[derive(Debug)]
pub enum Stage {
    /// Its first bytes are being looked at.
    Peeking,
    /// It is a visitor's, and the message to the client is being put into words.
    Notifying { client: u64, id: Uuid },
    /// It is a visitor's and waits; the message is on its way to the client.
    Notified,
    /// It is a client's, and its message is being read.
    Listening,
    /// The client's message is being understood.
    Parsing,
    /// The client has its name, which is being put into words.
    Announcing { name: String },
    /// The client has its name, which is on its way to it.
    Announced,
    /// It is joined to a visitor's.
    Splicing,
    /// Nothing is left to do.
    Ended,
}

/// A stage with its text as a sequence of characters.
pub enum StageView {
    Peeking,
    Notifying { client: u64, id: Uuid },
    Notified,
    Listening,
    Parsing,
    Announcing { name: Seq<char> },
    Announced,
    Splicing,
    Ended,
}

impl View for Stage {
    type V = StageView;

    open spec fn view(&self) -> StageView {
        match *self {
            Stage::Peeking => StageView::Peeking,
            Stage::Notifying { client, id } => StageView::Notifying { client, id },
            Stage::Notified => StageView::Notified,
            Stage::Listening => StageView::Listening,
            Stage::Parsing => StageView::Parsing,
            Stage::Announcing { name } => StageView::Announcing { name: name@ },
            Stage::Announced => StageView::Announced,
            Stage::Splicing => StageView::Splicing,
            Stage::Ended => StageView::Ended,
        }
    }
}

/// What has come of the last action.
#[derive(Debug)]
pub enum Event {
    /// The first bytes, or `None` if they could not be looked at.
    Peeked(Option<Vec<u8>>),
    /// A message in words, or `None` if it could not be put into words.
    Encoded(Option<String>),
    /// A frame was sent, or could not be.
    Sent,
    /// The next frame: `None` at the end of the stream, or an error.
    Frame(Option<Result<Vec<u8>, FrameError>>),
    /// A client's message, or `None` if it could not be understood.
    Parsed(Option<ClientMessage>),
    /// The joined streams have ended.
    Spliced,
}

/// An event with its texts and bytes as sequences.
pub enum EventView {
    Peeked(Option<Seq<u8>>),
    Encoded(Option<Seq<char>>),
    Sent,
    Frame(Option<Result<Seq<u8>, FrameError>>),
    Parsed(Option<ClientMessage>),
    Spliced,
}

impl View for Event {
    type V = EventView;

    open spec fn view(&self) -> EventView {
        match *self {
            Event::Peeked(Some(bytes)) => EventView::Peeked(Some(bytes@)),
            Event::Peeked(None) => EventView::Peeked(None),
            Event::Encoded(Some(words)) => EventView::Encoded(Some(words@)),
            Event::Encoded(None) => EventView::Encoded(None),
            Event::Sent => EventView::Sent,
            Event::Frame(Some(Ok(bytes))) => EventView::Frame(Some(Ok(bytes@))),
            Event::Frame(Some(Err(e))) => EventView::Frame(Some(Err(e))),
            Event::Frame(None) => EventView::Frame(None),
            Event::Parsed(message) => EventView::Parsed(message),
            Event::Spliced => EventView::Spliced,
        }
    }
}

/// How a connection came to its end.
#[derive(Debug, Clone, Copy, PartialEq, Eq, Structural)]
pub enum Outcome {
    /// Its first bytes could not be looked at.
    PeekFailed,
    /// The visitor's host names no subdomain.
    NoSubdomain,
    /// No client has the subdomain that the visitor asks for.
    UnknownSubdomain,
    /// A message could not be put into words.
    EncodeFailed,
    /// The visitor waits for the client to take it over: the stream is kept.
    VisitorWaits,
    /// The client left before it said anything.
    StreamEnded,
    /// The client sent what is no frame.
    FrameFailed,
    /// The client sent what is no message.
    MessageRejected,
    /// The client has its subdomain: the stream is kept.
    ClientRegistered,
    /// No visitor waits under the identifier that the client accepts.
    ConnectionNotFound,
    /// Client and visitor were joined until they were done.
    Joined,
    /// The event does not follow from the last action.
    OutOfTurn,
}

impl Outcome {
    /// Whether the relay goes on to hold the stream of a connection that came to
    /// this end: a visitor's who waits, or a client's who has a subdomain.
    pub open spec fn keeps(self) -> bool {
        self == Outcome::VisitorWaits || self == Outcome::ClientRegistered
    }

    /// Whether the stream of a connection that came to this end is to be kept.
    pub fn keeps_stream(&self) -> (r: bool)
        ensures
            r == (*self == Outcome::VisitorWaits || *self == Outcome::ClientRegistered),
    {
        match self {
            Outcome::VisitorWaits => true,
            Outcome::ClientRegistered => true,
            _ => false,
        }
    }
}

/// What is to be done next for a connection.
#[derive(Debug)]
pub enum Action {
    /// Look at up to `limit` first bytes, and leave them in the stream.
    Peek { limit: usize },
    /// Put a message into words.
    Encode(ServerMessage),
    /// Send a frame on a stream.
    Send { to: u64, frame: Vec<u8> },
    /// Read the next frame of this connection.
    Read,
    /// Understand a client's message.
    Parse(Vec<u8>),
    /// Join this connection to a visitor's until one of them is done.
    Splice { visitor: u64 },
    /// Nothing.
    Finish(Outcome),
}

/// An action with its texts and bytes as sequences.
pub enum ActionView {
    Peek { limit: usize },
    Encode(ServerMessageView),
    Send { to: u64, frame: Seq<u8> },
    Read,
    Parse(Seq<u8>),
    Splice { visitor: u64 },
    Finish(Outcome),
}

impl View for Action {
    type V = ActionView;

    open spec fn view(&self) -> ActionView {
        match *self {
            Action::Peek { limit } => ActionView::Peek { limit },
            Action::Encode(message) => ActionView::Encode(message@),
            Action::Send { to, frame } => ActionView::Send { to, frame: frame@ },
            Action::Read => ActionView::Read,
            Action::Parse(bytes) => ActionView::Parse(bytes@),
            Action::Splice { visitor } => ActionView::Splice { visitor },
            Action::Finish(outcome) => ActionView::Finish(outcome),
        }
    }
}

/// A connection that the relay serves: its stream, and how far it has come.
#[derive(Debug)]
pub struct Connection {
    stream: u64,
    stage: Stage,
}

impl Connection {
    /// The number of the stream.
    pub closed spec fn stream(&self) -> u64 {
        self.stream
    }

    /// How far the connection has come.
    pub closed spec fn stage(&self) -> StageView {
        self.stage@
    }

    /// A connection that was just accepted, and what is to be done first.
    pub fn new(stream: u64) -> (r: (Connection, Action))
        ensures
            r.0.stream() == stream,
            r.0.stage() == StageView::Peeking,
            r.1@ == (ActionView::Peek { limit: PEEK_LIMIT }),
    {
        (Connection { stream, stage: Stage::Peeking }, Action::Peek { limit: PEEK_LIMIT })
    }
}

/// What a step leads to: how far the connection has come, what is to be done,
/// and a stream that is held no more because another took its place.
#[derive(Debug)]
pub struct Step {
    pub connection: Connection,
    pub action: Action,
    pub released: Option<u64>,
}

/// What a step leads to, with the relay after it.
#[verifier::ext_equal]
pub struct StepView {
    pub server: ServerView,
    pub stage: StageView,
    pub action: ActionView,
    pub released: Option<u64>,
}

/// The stream under a name, if there is one.
pub open spec fn stream_at(map: Map<Seq<char>, u64>, name: Seq<char>) -> Option<u64> {
    if map.contains_key(name) {
        Some(map[name])
    } else {
        None
    }
}

/// A step to a stage and an action, after which the relay is `server`.
pub open spec fn go_on(server: ServerView, stage: StageView, action: ActionView) -> StepView {
    StepView { server, stage, action, released: None }
}

/// A step that ends the connection, after which the relay is `server`.
pub open spec fn end(server: ServerView, outcome: Outcome) -> StepView {
    go_on(server, StageView::Ended, ActionView::Finish(outcome))
}

/// The first bytes tell a visitor, whose client is to be notified under the
/// identifier `id`, from a client, whose message is to be read.
pub open spec fn after_peek(server: ServerView, first: Seq<u8>, id: Uuid) -> StepView {
    match host::requested_host(first) {
        None => go_on(server, StageView::Listening, ActionView::Read),
        Some(None) => end(server, Outcome::NoSubdomain),
        Some(Some(name)) => match stream_at(server.subdomain_conns, name) {
            Some(client) => go_on(
                server,
                StageView::Notifying { client, id },
                ActionView::Encode(ServerMessageView::Connection(id)),
            ),
            None => end(server, Outcome::UnknownSubdomain),
        },
    }
}

/// A visitor waits under its identifier while its client is notified.
pub open spec fn after_notice(
    server: ServerView,
    stream: u64,
    client: u64,
    id: Uuid,
    words: Seq<char>,
) -> StepView {
    let name = ident::hyphenated(id.value);
    StepView {
        server: ServerView { cli_conns: server.cli_conns.insert(name, stream), ..server },
        stage: StageView::Notified,
        action: ActionView::Send { to: client, frame: message::frame_of(words) },
        released: stream_at(server.cli_conns, name),
    }
}

/// The name that a client gets: the drawn name `label`, unless a client has that,
/// and then the identifier `id` as text.
pub open spec fn free_name(server: ServerView, label: Seq<char>, id: Uuid) -> Seq<char> {
    if server.subdomain_conns.contains_key(label) {
        ident::hyphenated(id.value)
    } else {
        label
    }
}

/// A client that says hello gets a name, under which visitors find it from then
/// on, and is told that name.
pub open spec fn after_hello(
    server: ServerView,
    stream: u64,
    id: Uuid,
    label: Seq<char>,
) -> StepView {
    let name = free_name(server, label, id);
    StepView {
        server: ServerView {
            subdomain_conns: server.subdomain_conns.insert(name, stream),
            ..server
        },
        stage: StageView::Announcing { name },
        action: ActionView::Encode(ServerMessageView::SubDomain(name)),
        released: stream_at(server.subdomain_conns, name),
    }
}

/// A client that accepts a visitor who waits is joined to them, and they wait no
/// more.
pub open spec fn after_accept(server: ServerView, accepted: Uuid) -> StepView {
    let name = ident::hyphenated(accepted.value);
    match stream_at(server.cli_conns, name) {
        Some(visitor) => go_on(
            ServerView { cli_conns: server.cli_conns.remove(name), ..server },
            StageView::Splicing,
            ActionView::Splice { visitor },
        ),
        None => end(server, Outcome::ConnectionNotFound),
    }
}

/// A client that is not told its name loses it, if it still has it.
pub open spec fn after_untold(
    server: ServerView,
    stream: u64,
    name: Seq<char>,
    outcome: Outcome,
) -> StepView {
    if stream_at(server.subdomain_conns, name) == Some(stream) {
        end(
            ServerView { subdomain_conns: server.subdomain_conns.remove(name), ..server },
            outcome,
        )
    } else {
        end(server, outcome)
    }
}

/// How a connection goes on after an event. `id` and `label` are the identifier
/// and the name that were drawn for the step. Whatever comes of sending the last
/// message, a visitor then waits and a client then has its name.
pub open spec fn step(
    server: ServerView,
    stream: u64,
    stage: StageView,
    event: EventView,
    id: Uuid,
    label: Seq<char>,
) -> StepView {
    match (stage, event) {
        (StageView::Peeking, EventView::Peeked(None)) => end(server, Outcome::PeekFailed),
        (StageView::Peeking, EventView::Peeked(Some(first))) => after_peek(server, first, id),
        (StageView::Notifying { client, id: waiting }, EventView::Encoded(Some(words))) => {
            after_notice(server, stream, client, waiting, words)
        },
        (StageView::Notifying { client, id: waiting }, EventView::Encoded(None)) => {
            end(server, Outcome::EncodeFailed)
        },
        (StageView::Notified, _) => end(server, Outcome::VisitorWaits),
        (StageView::Listening, EventView::Frame(None)) => end(server, Outcome::StreamEnded),
        (StageView::Listening, EventView::Frame(Some(Err(e)))) => {
            end(server, Outcome::FrameFailed)
        },
        (StageView::Listening, EventView::Frame(Some(Ok(bytes)))) => {
            go_on(server, StageView::Parsing, ActionView::Parse(bytes))
        },
        (StageView::Parsing, EventView::Parsed(None)) => end(server, Outcome::MessageRejected),
        (StageView::Parsing, EventView::Parsed(Some(ClientMessage::Hello))) => {
            after_hello(server, stream, id, label)
        },
        (StageView::Parsing, EventView::Parsed(Some(ClientMessage::Accept(accepted)))) => {
            after_accept(server, accepted)
        },
        (StageView::Announcing { name }, EventView::Encoded(None)) => {
            after_untold(server, stream, name, Outcome::EncodeFailed)
        },
        (StageView::Announcing { name }, EventView::Encoded(Some(words))) => go_on(
            server,
            StageView::Announced,
            ActionView::Send { to: stream, frame: message::frame_of(words) },
        ),
        (StageView::Announcing { name }, _) => {
            after_untold(server, stream, name, Outcome::OutOfTurn)
        },
        (StageView::Announced, _) => end(server, Outcome::ClientRegistered),
        (StageView::Splicing, EventView::Spliced) => end(server, Outcome::Joined),
        _ => end(server, Outcome::OutOfTurn),
    }
}

/// A step that leaves the relay as it is.
fn step_to(stream: u64, stage: Stage, action: Action) -> (r: Step)
    ensures
        r.connection.stream() == stream,
        r.connection.stage() == stage@,
        r.action == action,
        r.released is None,
{
    Step { connection: Connection { stream, stage }, action, released: None }
}

/// A step that ends the connection.
fn finish(stream: u64, outcome: Outcome) -> (r: Step)
    ensures
        r.connection.stream() == stream,
        r.connection.stage() == StageView::Ended,
        r.action@ == ActionView::Finish(outcome),
        r.released is None,
{
    step_to(stream, Stage::Ended, Action::Finish(outcome))
}

impl Server {
    /// A relay without clients and visitors.
    pub fn new(port: u16) -> (r: Server)
        ensures
            r@.port == port,
            r@.cli_conns == Map::<Seq<char>, u64>::empty(),
            r@.subdomain_conns == Map::<Seq<char>, u64>::empty(),
            r@.wf(),
    {
        let r = Server {
            port,
            cli_conns: registry::empty_map(),
            subdomain_conns: registry::empty_map(),
        };
        assert(r@.cli_conns =~= Map::<Seq<char>, u64>::empty());
        assert(r@.subdomain_conns =~= Map::<Seq<char>, u64>::empty());
        r
    }

    /// The port that the relay listens on.
    pub fn port(&self) -> (r: u16)
        ensures
            r == self@.port,
    {
        self.port
    }

    /// What is said when the relay cannot listen on its port.
    pub fn bind_error(&self) -> (r: String)
        ensures
            r@ == "failed to run server on port "@ + text::decimal(self@.port as nat),
    {
        let mut r: String = "failed to run server on port ".to_owned();
        r.append(text::decimal_string(self.port).as_str());
        r
    }

    /// One turn of listening: a stream that was accepted becomes a connection that
    /// is served, and a failure to accept one is passed over.
    pub fn listen(&self, accepted: Option<u64>) -> (r: Option<(Connection, Action)>)
        ensures
            match accepted {
                Some(stream) => r matches Some((connection, action)) && connection.stream()
                    == stream && connection.stage() == StageView::Peeking && action@ == (
                ActionView::Peek { limit: PEEK_LIMIT }),
                None => r is None,
            },
    {
        match accepted {
            Some(stream) => Some(Connection::new(stream)),
            None => None,
        }
    }

    /// Takes a name from a client that is not told it, if the client still has it.
    fn take_back(&mut self, stream: u64, name: &str)
        ensures
            final(self)@ == after_untold(old(self)@, stream, name@, Outcome::EncodeFailed).server,
    {
        let holder: Option<u64> = registry::look_up(&self.subdomain_conns, name);
        if holder == Some(stream) {
            registry::take(&mut self.subdomain_conns, name);
        }
    }

    /// Serves a connection after an event, with the identifier and the name that
    /// were drawn for the step.
    pub fn handle_connection_with(
        &mut self,
        connection: Connection,
        event: Event,
        id: Uuid,
        label: String,
    ) -> (r: Step)
        requires
            old(self)@.wf(),
            random::is_label(label@),
        ensures
            final(self)@.wf(),
            r.connection.stream() == connection.stream(),
            (StepView {
                server: final(self)@,
                stage: r.connection.stage(),
                action: r.action@,
                released: r.released,
            }) == step(
                old(self)@,
                connection.stream(),
                connection.stage(),
                event@,
                id,
                label@,
            ),
    {
        let stream: u64 = connection.stream;
        match (connection.stage, event) {
            (Stage::Peeking, Event::Peeked(None)) => finish(stream, Outcome::PeekFailed),
            (Stage::Peeking, Event::Peeked(Some(first))) => {
                match host::read_host(first.as_slice()) {
                    host::RequestedHost::Missing => step_to(stream, Stage::Listening, Action::Read),
                    host::RequestedHost::NoSubdomain => finish(stream, Outcome::NoSubdomain),
                    host::RequestedHost::Subdomain(name) => {
                        match registry::look_up(&self.subdomain_conns, name.as_str()) {
                            Some(client) => step_to(
                                stream,
                                Stage::Notifying { client, id },
                                Action::Encode(ServerMessage::Connection(id)),
                            ),
                            None => finish(stream, Outcome::UnknownSubdomain),
                        }
                    },
                }
            },
            (Stage::Notifying { client, id: waiting }, Event::Encoded(words)) => match words {
                Some(words) => {
                    let frame: Vec<u8> = message::new_codec().encode(words.as_str());
                    let released: Option<u64> = registry::put(
                        &mut self.cli_conns,
                        waiting.to_text(),
                        stream,
                    );
                    Step {
                        connection: Connection { stream, stage: Stage::Notified },
                        action: Action::Send { to: client, frame },
                        released,
                    }
                },
                None => finish(stream, Outcome::EncodeFailed),
            },
            (Stage::Notified, _) => finish(stream, Outcome::VisitorWaits),
            (Stage::Listening, Event::Frame(frame)) => match frame {
                None => finish(stream, Outcome::StreamEnded),
                Some(Err(_)) => finish(stream, Outcome::FrameFailed),
                Some(Ok(bytes)) => step_to(stream, Stage::Parsing, Action::Parse(bytes)),
            },
            (Stage::Parsing, Event::Parsed(message)) => match message {
                None => finish(stream, Outcome::MessageRejected),
                Some(ClientMessage::Hello) => {
                    let taken: bool = registry::look_up(
                        &self.subdomain_conns,
                        label.as_str(),
                    ).is_some();
                    let name: String = if taken {
                        id.to_text()
                    } else {
                        label
                    };
                    proof {
                        ident::law_uuid_text_is_label(id.value);
                    }
                    let released: Option<u64> = registry::put(
                        &mut self.subdomain_conns,
                        name.clone(),
                        stream,
                    );
                    Step {
                        connection: Connection {
                            stream,
                            stage: Stage::Announcing { name: name.clone() },
                        },
                        action: Action::Encode(ServerMessage::SubDomain(name)),
                        released,
                    }
                },
                Some(ClientMessage::Accept(accepted)) => {
                    match registry::take(&mut self.cli_conns, accepted.to_text().as_str()) {
                        Some(visitor) => step_to(
                            stream,
                            Stage::Splicing,
                            Action::Splice { visitor },
                        ),
                        None => {
                            assert(self@ =~= old(self)@);
                            finish(stream, Outcome::ConnectionNotFound)
                        },
                    }
                },
            },
            (Stage::Announcing { name }, Event::Encoded(words)) => match words {
                None => {
                    self.take_back(stream, name.as_str());
                    finish(stream, Outcome::EncodeFailed)
                },
                Some(words) => {
                    let frame: Vec<u8> = message::new_codec().encode(words.as_str());
                    step_to(stream, Stage::Announced, Action::Send { to: stream, frame })
                },
            },
            (Stage::Announcing { name }, _) => {
                self.take_back(stream, name.as_str());
                finish(stream, Outcome::OutOfTurn)
            },
            (Stage::Announced, _) => finish(stream, Outcome::ClientRegistered),
            (Stage::Splicing, Event::Spliced) => finish(stream, Outcome::Joined),
            _ => finish(stream, Outcome::OutOfTurn),
        }
    }

    /// Serves a connection after an event. It draws the identifier and the name
    /// that the step may need; which ones is left to chance.
    pub fn handle_connection(&mut self, connection: Connection, event: Event) -> (r: Step)
        requires
            old(self)@.wf(),
        ensures
            final(self)@.wf(),
            r.connection.stream() == connection.stream(),
            exists|id: Uuid, label: Seq<char>|
                ident::is_v4(id.value) && random::is_label(label) && label.len() == NAME_LENGTH
                    && (StepView {
                    server: final(self)@,
                    stage: r.connection.stage(),
                    action: r.action@,
                    released: r.released,
                }) == #[trigger] step(
                    old(self)@,
                    connection.stream(),
                    connection.stage(),
                    event@,
                    id,
                    label,
                ),
    {
        let id: Uuid = Uuid::new_v4();
        let label: String = match random::random_string(NAME_LENGTH) {
            Ok(label) => label,
            Err(_) => Uuid::new_v4().to_text(),
        };
        self.handle_connection_with(connection, event, id, label)
    }
}

/// Why the port to listen on is not known.
#[derive(Debug, Clone, Copy, PartialEq, Eq, Structural)]
pub enum PortError {
    /// No port was given.
    NotSet,
    /// What was given is no port.
    Invalid,
}

impl PortError {
    /// The error in words.
    pub fn message(&self) -> (r: String)
        ensures
            r@ == match *self {
                PortError::NotSet => "PORT environment variable not set"@,
                PortError::Invalid => "PORT must be a valid integer"@,
            },
    {
        match self {
            PortError::NotSet => "PORT environment variable not set".to_owned(),
            PortError::Invalid => "PORT must be a valid integer".to_owned(),
        }
    }
}

/// Finds the port to listen on in the value of the variable that gives it.
pub fn parse_port(variable: Option<&str>) -> (r: Result<u16, PortError>)
    ensures
        r == match variable {
            None => Err::<u16, PortError>(PortError::NotSet),
            Some(value) => match text::parsed_u16(value@) {
                Some(port) => Ok::<u16, PortError>(port),
                None => Err::<u16, PortError>(PortError::Invalid),
            },
        },
{
    match variable {
        None => Err(PortError::NotSet),
        Some(value) => match text::parse_u16(value) {
            Some(port) => Ok(port),
            None => Err(PortError::Invalid),
        },
    }
}

/// The first bytes of a connection decide whose it is, however many they are: with
/// a `Host` header that names the subdomain of a client it is a visitor's, and that
/// client is the one to be notified. With any other `Host` header it is turned away.
/// Without one it is a client's, and its message is read. The relay stays as it is.
pub proof fn law_first_bytes_decide(
    server: ServerView,
    stream: u64,
    first: Seq<u8>,
    id: Uuid,
    label: Seq<char>,
)
    ensures
        ({
            let next = step(
                server,
                stream,
                StageView::Peeking,
                EventView::Peeked(Some(first)),
                id,
                label,
            );
            &&& next.server == server
            &&& next.released is None
            &&& match host::requested_host(first) {
                None => next.stage == StageView::Listening && next.action == ActionView::Read,
                Some(None) => next.stage == StageView::Ended && next.action == ActionView::Finish(
                    Outcome::NoSubdomain,
                ),
                Some(Some(name)) => if server.subdomain_conns.contains_key(name) {
                    &&& next.stage == StageView::Notifying {
                        client: server.subdomain_conns[name],
                        id,
                    }
                    &&& next.action == ActionView::Encode(ServerMessageView::Connection(id))
                } else {
                    &&& next.stage == StageView::Ended
                    &&& next.action == ActionView::Finish(Outcome::UnknownSubdomain)
                },
            }
        }),
{
}

/// A visitor reaches the client of the subdomain they ask for: the `Host` header may
/// be capitalised in any way, have any white space of ASCII in front of the name and
/// anything behind the name's dot. Header lines without a host may stand in front of
/// it, and any bytes behind it.
pub proof fn law_visitor_reaches_the_client_of_the_name(
    server: ServerView,
    stream: u64,
    heads: Seq<Seq<char>>,
    field: Seq<char>,
    gap: Seq<char>,
    spelled: Seq<char>,
    rest: Seq<char>,
    tail: Seq<u8>,
    id: Uuid,
    label: Seq<char>,
)
    requires
        forall|i: int|
            0 <= i < heads.len() ==> !(#[trigger] heads[i]).contains('\n') && !host::names_host(
                heads[i],
            ),
        is_ascii_chars(field),
        text::ascii_lowercase(field) == "host:"@,
        is_ascii_chars(gap),
        forall|i: int|
            0 <= i < gap.len() ==> text::white_space(#[trigger] gap[i]) && gap[i] != '\n',
        is_ascii_chars(spelled),
        random::is_label(text::ascii_lowercase(spelled)),
        rest.len() == 0 || rest[0] == '.',
        !rest.contains('\n'),
        server.subdomain_conns.contains_key(text::ascii_lowercase(spelled)),
    ensures
        ({
            let line = field + gap + spelled + rest;
            let first = encode_utf8(host::header_text(heads) + line + seq!['\r', '\n']) + tail;
            let next = step(
                server,
                stream,
                StageView::Peeking,
                EventView::Peeked(Some(first)),
                id,
                label,
            );
            &&& next.server == server
            &&& next.stage == StageView::Notifying {
                client: server.subdomain_conns[text::ascii_lowercase(spelled)],
                id,
            }
            &&& next.action == ActionView::Encode(ServerMessageView::Connection(id))
            &&& next.released is None
        }),
{
    let name = text::ascii_lowercase(spelled);
    let line = field + gap + spelled + rest;
    lemma_label_bounds(name);
    host::law_header_names_label(field, gap, spelled, name, rest);
    reveal_strlit("host:");
    assert(!line.contains('\n')) by {
        assert forall|i: int| 0 <= i < line.len() implies line[i] != '\n' by {
            let (f, g, p) = (field.len(), gap.len(), spelled.len());
            if i < f {
                assert(line[i] == field[i]);
                assert("host:"@[i] == text::ascii_lower(field[i]));
            } else if i < f + g {
                assert(line[i] == gap[i - f]);
            } else if i < f + g + p {
                assert(line[i] == spelled[i - f - g]);
                assert(random::is_label_char(name[i - f - g]));
            } else {
                assert(line[i] == rest[i - f - g - p]);
                assert(rest.contains(rest[i - f - g - p]));
            }
        }
    }
    host::law_first_host_header_decides(heads, line, tail);
}

proof fn lemma_label_bounds(name: Seq<char>)
    requires
        random::is_label(name),
    ensures
        name.len() > 0,
        !name.contains('.'),
        !text::white_space(name[0]),
        !text::white_space(name.last()),
{
    assert forall|i: int| 0 <= i < name.len() implies name[i] != '.' by {
        assert(random::is_label_char(name[i]));
    }
    assert(random::is_label_char(name[0]));
    assert(random::is_label_char(name[name.len() - 1]));
}

/// A visitor waits under their identifier, and the client is told: the message goes
/// to the client that was found and to no other stream, as it was put into words and
/// with a zero byte behind it. Nothing else in the relay changes.
pub proof fn law_client_is_told_of_the_visitor(
    server: ServerView,
    visitor: u64,
    client: u64,
    id: Uuid,
    words: Seq<char>,
    other_id: Uuid,
    label: Seq<char>,
)
    ensures
        ({
            let next = step(
                server,
                visitor,
                StageView::Notifying { client, id },
                EventView::Encoded(Some(words)),
                other_id,
                label,
            );
            let name = ident::hyphenated(id.value);
            &&& next.action == ActionView::Send { to: client, frame: encode_utf8(words).push(0u8) }
            &&& next.stage == StageView::Notified
            &&& next.server.cli_conns == server.cli_conns.insert(name, visitor)
            &&& next.server.subdomain_conns == server.subdomain_conns
            &&& next.server.port == server.port
            &&& next.released == if server.cli_conns.contains_key(name) {
                Some(server.cli_conns[name])
            } else {
                None
            }
        }),
{
    message::law_frame_carries_the_text(words);
}

/// A client that accepts a visitor is joined to the one who waits under that
/// identifier, who then waits no more. Where no one waits under it, nothing changes.
pub proof fn law_accepting_takes_who_waits(
    server: ServerView,
    stream: u64,
    accepted: Uuid,
    id: Uuid,
    label: Seq<char>,
)
    ensures
        ({
            let next = step(
                server,
                stream,
                StageView::Parsing,
                EventView::Parsed(Some(ClientMessage::Accept(accepted))),
                id,
                label,
            );
            let name = ident::hyphenated(accepted.value);
            &&& next.server.subdomain_conns == server.subdomain_conns
            &&& next.server.port == server.port
            &&& next.server.cli_conns == server.cli_conns.remove(name)
            &&& next.released is None
            &&& if server.cli_conns.contains_key(name) {
                &&& next.stage == StageView::Splicing
                &&& next.action == ActionView::Splice { visitor: server.cli_conns[name] }
            } else {
                &&& next.stage == StageView::Ended
                &&& next.action == ActionView::Finish(Outcome::ConnectionNotFound)
            }
        }),
{
    let name = ident::hyphenated(accepted.value);
    if !server.cli_conns.contains_key(name) {
        assert(server.cli_conns.remove(name) =~= server.cli_conns);
    }
}

/// A client that says hello has its name from then on: the drawn one if no client has
/// it, and else the identifier as text. It is told that name. Nothing else in the
/// relay changes.
pub proof fn law_hello_gives_a_name(
    server: ServerView,
    client: u64,
    id: Uuid,
    label: Seq<char>,
)
    ensures
        ({
            let next = step(
                server,
                client,
                StageView::Parsing,
                EventView::Parsed(Some(ClientMessage::Hello)),
                id,
                label,
            );
            let name = if server.subdomain_conns.contains_key(label) {
                ident::hyphenated(id.value)
            } else {
                label
            };
            &&& next.stage == StageView::Announcing { name }
            &&& next.action == ActionView::Encode(ServerMessageView::SubDomain(name))
            &&& next.server.subdomain_conns == server.subdomain_conns.insert(name, client)
            &&& next.server.cli_conns == server.cli_conns
            &&& next.server.port == server.port
            &&& next.released == if server.subdomain_conns.contains_key(name) {
                Some(server.subdomain_conns[name])
            } else {
                None
            }
        }),
{
}

/// The message to a client about its name goes to that client, as it was put into
/// words and with a zero byte behind it, and nothing changes. If there are no words
/// for it, the client loses the name, unless another client has it by now.
pub proof fn law_name_is_told_or_taken_back(
    server: ServerView,
    client: u64,
    name: Seq<char>,
    event: EventView,
    id: Uuid,
    label: Seq<char>,
)
    ensures
        ({
            let next = step(server, client, StageView::Announcing { name }, event, id, label);
            let has_it = server.subdomain_conns.contains_key(name)
                && server.subdomain_conns[name] == client;
            &&& next.server.cli_conns == server.cli_conns
            &&& next.server.port == server.port
            &&& next.released is None
            &&& match event {
                EventView::Encoded(Some(words)) => {
                    &&& next.action == ActionView::Send {
                        to: client,
                        frame: encode_utf8(words).push(0u8),
                    }
                    &&& next.stage == StageView::Announced
                    &&& next.server.subdomain_conns == server.subdomain_conns
                },
                _ => {
                    &&& next.stage == StageView::Ended
                    &&& next.action == ActionView::Finish(
                        if event == EventView::Encoded(None) {
                            Outcome::EncodeFailed
                        } else {
                            Outcome::OutOfTurn
                        },
                    )
                    &&& next.server.subdomain_conns == if has_it {
                        server.subdomain_conns.remove(name)
                    } else {
                        server.subdomain_conns
                    }
                },
            }
        }),
{
    if let EventView::Encoded(Some(words)) = event {
        message::law_frame_carries_the_text(words);
    }
}

/// A client's message is read whole: whatever bytes its frame has are the ones that
/// are to be understood. A stream that ends, a frame that cannot be read and a
/// message that is not understood end the connection, each with its own outcome.
pub proof fn law_message_of_a_client_is_read(
    server: ServerView,
    stream: u64,
    bytes: Seq<u8>,
    error: FrameError,
    id: Uuid,
    label: Seq<char>,
)
    ensures
        step(
            server,
            stream,
            StageView::Listening,
            EventView::Frame(Some(Ok(bytes))),
            id,
            label,
        ) == (StepView {
            server,
            stage: StageView::Parsing,
            action: ActionView::Parse(bytes),
            released: None,
        }),
        step(server, stream, StageView::Listening, EventView::Frame(None), id, label) == (StepView {
            server,
            stage: StageView::Ended,
            action: ActionView::Finish(Outcome::StreamEnded),
            released: None,
        }),
        step(
            server,
            stream,
            StageView::Listening,
            EventView::Frame(Some(Err(error))),
            id,
            label,
        ) == (StepView {
            server,
            stage: StageView::Ended,
            action: ActionView::Finish(Outcome::FrameFailed),
            released: None,
        }),
        step(server, stream, StageView::Parsing, EventView::Parsed(None), id, label) == (StepView {
            server,
            stage: StageView::Ended,
            action: ActionView::Finish(Outcome::MessageRejected),
            released: None,
        }),
{
}

/// A connection that has nothing left to do ends, and the relay stays as it is: a
/// visitor who waits and a client who was told its name whatever came of sending the
/// message, and a client that was joined to a visitor when both are done. So does one
/// whose first bytes could not be looked at, and a visitor for whose client there are
/// no words.
pub proof fn law_connection_ends_in_its_time(
    server: ServerView,
    stream: u64,
    event: EventView,
    client: u64,
    waiting: Uuid,
    id: Uuid,
    label: Seq<char>,
)
    ensures
        step(server, stream, StageView::Notified, event, id, label) == (StepView {
            server,
            stage: StageView::Ended,
            action: ActionView::Finish(Outcome::VisitorWaits),
            released: None,
        }),
        step(server, stream, StageView::Announced, event, id, label) == (StepView {
            server,
            stage: StageView::Ended,
            action: ActionView::Finish(Outcome::ClientRegistered),
            released: None,
        }),
        step(server, stream, StageView::Splicing, EventView::Spliced, id, label) == (StepView {
            server,
            stage: StageView::Ended,
            action: ActionView::Finish(Outcome::Joined),
            released: None,
        }),
        step(server, stream, StageView::Peeking, EventView::Peeked(None), id, label) == (StepView {
            server,
            stage: StageView::Ended,
            action: ActionView::Finish(Outcome::PeekFailed),
            released: None,
        }),
        step(
            server,
            stream,
            StageView::Notifying { client, id: waiting },
            EventView::Encoded(None),
            id,
            label,
        ) == (StepView {
            server,
            stage: StageView::Ended,
            action: ActionView::Finish(Outcome::EncodeFailed),
            released: None,
        }),
{
}

/// An event that does not follow from the last action ends the connection, and the
/// relay stays as it is, but for a name that was not told.
pub proof fn law_event_out_of_turn_ends_the_connection(
    server: ServerView,
    stream: u64,
    stage: StageView,
    event: EventView,
    id: Uuid,
    label: Seq<char>,
)
    requires
        match stage {
            StageView::Peeking => event !is Peeked,
            StageView::Notifying { client, id: waiting } => event !is Encoded,
            StageView::Listening => event !is Frame,
            StageView::Parsing => event !is Parsed,
            StageView::Splicing => event !is Spliced,
            StageView::Ended => true,
            _ => false,
        },
    ensures
        step(server, stream, stage, event, id, label) == (StepView {
            server,
            stage: StageView::Ended,
            action: ActionView::Finish(Outcome::OutOfTurn),
            released: None,
        }),
{
}

/// A visitor is joined to the client that accepts them. Whatever the relay holds
/// meanwhile: the client of the subdomain that a visitor asks for is sent the message
/// with the visitor's identifier, whoever accepts that identifier is joined to the
/// visitor's stream, and no one waits under it any more.
pub proof fn law_accepting_joins_the_visitor(
    found: ServerView,
    server: ServerView,
    later: ServerView,
    first: Seq<u8>,
    name: Seq<char>,
    visitor: u64,
    acceptor: u64,
    id: Uuid,
    words: Seq<char>,
    other_id: Uuid,
    label: Seq<char>,
)
    requires
        host::requested_host(first) == Some(Some(name)),
        found.subdomain_conns.contains_key(name),
    ensures
        ({
            let peeked = EventView::Peeked(Some(first));
            let asked = step(found, visitor, StageView::Peeking, peeked, id, label);
            let written = EventView::Encoded(Some(words));
            let notified = step(server, visitor, asked.stage, written, other_id, label);
            let accept = EventView::Parsed(Some(ClientMessage::Accept(id)));
            let accepted = step(
                notified.server,
                acceptor,
                StageView::Parsing,
                accept,
                other_id,
                label,
            );
            let done = EventView::Spliced;
            let ended = step(later, acceptor, accepted.stage, done, other_id, label);
            &&& asked.action == ActionView::Encode(ServerMessageView::Connection(id))
            &&& notified.action == ActionView::Send {
                to: found.subdomain_conns[name],
                frame: encode_utf8(words).push(0u8),
            }
            &&& accepted.action == ActionView::Splice { visitor }
            &&& accepted.server.subdomain_conns == server.subdomain_conns
            &&& accepted.server.cli_conns == server.cli_conns.remove(ident::hyphenated(id.value))
            &&& ended.action == ActionView::Finish(Outcome::Joined)
            &&& ended.server == later
        }),
{
    message::law_frame_carries_the_text(words);
    let key = ident::hyphenated(id.value);
    assert(server.cli_conns.insert(key, visitor).remove(key) =~= server.cli_conns.remove(key));
}

/// Accepting one visitor leaves all the others waiting.
pub proof fn law_other_visitors_keep_waiting(
    server: ServerView,
    stream: u64,
    accepted: Uuid,
    other: Uuid,
    id: Uuid,
    label: Seq<char>,
)
    requires
        accepted != other,
    ensures
        ({
            let accept = EventView::Parsed(Some(ClientMessage::Accept(accepted)));
            let next = step(server, stream, StageView::Parsing, accept, id, label).server;
            let name = ident::hyphenated(other.value);
            &&& next.cli_conns.contains_key(name) == server.cli_conns.contains_key(name)
            &&& server.cli_conns.contains_key(name) ==> next.cli_conns[name]
                == server.cli_conns[name]
        }),
{
    if ident::hyphenated(accepted.value) == ident::hyphenated(other.value) {
        ident::law_uuid_text_is_injective(accepted.value, other.value);
    }
}

/// A client has the name that it is told: whatever the relay holds and whatever is
/// drawn, the name in the message to a client that says hello is the name under
/// which its stream is found from then on, and telling it changes nothing.
pub proof fn law_client_gets_the_name_it_was_told(
    greeted: ServerView,
    encoded: ServerView,
    sent: ServerView,
    client: u64,
    id: Uuid,
    label: Seq<char>,
    words: Seq<char>,
    other_id: Uuid,
    other_label: Seq<char>,
)
    ensures
        ({
            let hello = EventView::Parsed(Some(ClientMessage::Hello));
            let telling = step(greeted, client, StageView::Parsing, hello, id, label);
            let written = EventView::Encoded(Some(words));
            let told = step(encoded, client, telling.stage, written, other_id, other_label);
            let ended = step(sent, client, told.stage, EventView::Sent, other_id, other_label);
            &&& telling.action matches ActionView::Encode(ServerMessageView::SubDomain(name))
                && telling.server.subdomain_conns.contains_key(name)
                && telling.server.subdomain_conns[name] == client
            &&& told.action == ActionView::Send { to: client, frame: encode_utf8(words).push(0u8) }
            &&& told.server == encoded
            &&& ended.action == ActionView::Finish(Outcome::ClientRegistered)
            &&& ended.server == sent
            &&& ended.released is None
        }),
{
    message::law_frame_carries_the_text(words);
}

/// A published name leads to its client: the name in the message to a client that
/// says hello is one under which every visitor reaches that client whose request
/// names the host `<name>.port.pub`, whatever other headers the request has and
/// whatever bytes come behind them.
pub proof fn law_published_name_reaches_its_client(
    server: ServerView,
    client: u64,
    spare: Uuid,
    label: Seq<char>,
    heads: Seq<Seq<char>>,
    tail: Seq<u8>,
    visitor: u64,
    id: Uuid,
    other_label: Seq<char>,
)
    requires
        random::is_label(label),
        forall|i: int|
            0 <= i < heads.len() ==> !(#[trigger] heads[i]).contains('\n') && !host::names_host(
                heads[i],
            ),
    ensures
        ({
            let hello = step(
                server,
                client,
                StageView::Parsing,
                EventView::Parsed(Some(ClientMessage::Hello)),
                spare,
                label,
            );
            hello.action matches ActionView::Encode(ServerMessageView::SubDomain(name)) && step(
                hello.server,
                visitor,
                StageView::Peeking,
                EventView::Peeked(Some(request_bytes(heads, name, tail))),
                id,
                other_label,
            ) == (StepView {
                server: hello.server,
                stage: StageView::Notifying { client, id },
                action: ActionView::Encode(ServerMessageView::Connection(id)),
                released: None,
            })
        }),
{
    let name = free_name(server, label, spare);
    ident::law_uuid_text_is_label(spare.value);
    lemma_request_names(heads, name, tail);
}

/// The first bytes of a request to the host `<name>.port.pub`: header lines in
/// front of the host, and any bytes behind it.
pub open spec fn request_bytes(
    heads: Seq<Seq<char>>,
    name: Seq<char>,
    tail: Seq<u8>,
) -> Seq<u8> {
    let line = "Host: "@ + name + ".port.pub"@;
    encode_utf8(host::header_text(heads) + line + seq!['\r', '\n']) + tail
}

proof fn lemma_request_names(heads: Seq<Seq<char>>, name: Seq<char>, tail: Seq<u8>)
    requires
        random::is_label(name),
        forall|i: int|
            0 <= i < heads.len() ==> !(#[trigger] heads[i]).contains('\n') && !host::names_host(
                heads[i],
            ),
    ensures
        host::requested_host(request_bytes(heads, name, tail)) == Some(Some(name)),
{
    reveal_strlit("Host: ");
    reveal_strlit("host:");
    reveal_strlit(".port.pub");
    let line = "Host: "@ + name + ".port.pub"@;
    let field = "Host: "@.take(5);
    let gap = seq![' '];
    assert(text::ascii_lowercase(field) =~= "host:"@);
    assert(field + gap =~= "Host: "@);
    assert(is_ascii_chars(name)) by {
        assert forall|i: int| 0 <= i < name.len() implies '\0' <= #[trigger] name[i] <= '\u{7f}' by {
            assert(random::is_label_char(name[i]));
        }
    }
    assert(text::ascii_lowercase(name) =~= name) by {
        assert forall|i: int| 0 <= i < name.len() implies text::ascii_lower(name[i]) == name[i] by {
            assert(random::is_label_char(name[i]));
        }
    }
    assert(!name.contains('.')) by {
        assert forall|i: int| 0 <= i < name.len() implies name[i] != '.' by {
            assert(random::is_label_char(name[i]));
        }
    }
    assert(random::is_label_char(name[0]));
    host::law_header_names_label(field, gap, name, name, ".port.pub"@);
    assert(field + gap + name + ".port.pub"@ =~= line);
    assert(!line.contains('\n')) by {
        assert forall|i: int| 0 <= i < line.len() implies line[i] != '\n' by {
            if i < 6 {
                assert(line[i] == "Host: "@[i]);
            } else if i < 6 + name.len() {
                assert(line[i] == name[i - 6]);
                assert(random::is_label_char(name[i - 6]));
            } else {
                assert(line[i] == ".port.pub"@[i - 6 - name.len()]);
            }
        }
    }
    host::law_first_host_header_decides(heads, line, tail);
}

/// A drawn name that is in use stays with the client that has it, and the new
/// client is told its spare identifier instead.
pub proof fn law_name_in_use_stays(server: ServerView, client: u64, label: Seq<char>, spare: Uuid)
    requires
        server.subdomain_conns.contains_key(label),
        label != ident::hyphenated(spare.value),
    ensures
        ({
            let hello = step(
                server,
                client,
                StageView::Parsing,
                EventView::Parsed(Some(ClientMessage::Hello)),
                spare,
                label,
            );
            let name = ident::hyphenated(spare.value);
            &&& hello.server.subdomain_conns.contains_key(label)
            &&& hello.server.subdomain_conns[label] == server.subdomain_conns[label]
            &&& hello.action == ActionView::Encode(ServerMessageView::SubDomain(name))
            &&& hello.server.subdomain_conns.contains_key(name)
            &&& hello.server.subdomain_conns[name] == client
        }),
{
}

/// A visitor whose host no client has is turned away, and the relay stays as it
/// is.
pub proof fn law_unknown_host_is_turned_away(
    server: ServerView,
    stream: u64,
    first: Seq<u8>,
    name: Seq<char>,
    id: Uuid,
    label: Seq<char>,
)
    requires
        host::requested_host(first) == Some(Some(name)),
        !server.subdomain_conns.contains_key(name),
    ensures
        step(
            server,
            stream,
            StageView::Peeking,
            EventView::Peeked(Some(first)),
            id,
            label,
        ) == (StepView {
            server,
            stage: StageView::Ended,
            action: ActionView::Finish(Outcome::UnknownSubdomain),
            released: None,
        }),
{
}

/// A step of some connection: its stream and how far it has come, what happens, and
/// the identifier and the name that are drawn.
pub struct Move {
    pub stream: u64,
    pub stage: StageView,
    pub event: EventView,
    pub id: Uuid,
    pub label: Seq<char>,
}

/// The relay after a step of some connection.
pub open spec fn moved(server: ServerView, m: Move) -> ServerView {
    step(server, m.stream, m.stage, m.event, m.id, m.label).server
}

/// The relay after steps of any connections, one after the other.
pub open spec fn moved_on(server: ServerView, moves: Seq<Move>) -> ServerView
    decreases moves.len(),
{
    if moves.len() == 0 {
        server
    } else {
        moved_on(moved(server, moves.first()), moves.drop_first())
    }
}

/// Whether a step takes a name back from the client that has it: that client itself
/// is not told it, or another one draws the same identifier.
pub open spec fn gives_up(m: Move, client: u64, name: Seq<char>) -> bool {
    ||| m.stream == client && m.stage == (StageView::Announcing { name }) && !(
    m.event matches EventView::Encoded(Some(words)))
    ||| m.stage is Parsing && m.event == EventView::Parsed(Some(ClientMessage::Hello))
        && ident::hyphenated(m.id.value) == name
}

/// A client keeps its name: whatever any connections do, the name leads to the same
/// stream, unless that client is not told it or another one draws the same
/// identifier.
pub proof fn law_client_keeps_its_name(
    server: ServerView,
    moves: Seq<Move>,
    client: u64,
    name: Seq<char>,
)
    requires
        server.subdomain_conns.contains_key(name),
        server.subdomain_conns[name] == client,
        forall|i: int| 0 <= i < moves.len() ==> !gives_up(#[trigger] moves[i], client, name),
    ensures
        moved_on(server, moves).subdomain_conns.contains_key(name),
        moved_on(server, moves).subdomain_conns[name] == client,
    decreases moves.len(),
{
    if moves.len() > 0 {
        let rest = moves.drop_first();
        assert(!gives_up(moves[0], client, name));
        assert forall|i: int| 0 <= i < rest.len() implies !gives_up(
            #[trigger] rest[i],
            client,
            name,
        ) by {
            assert(rest[i] == moves[i + 1]);
        }
        law_client_keeps_its_name(moved(server, moves.first()), rest, client, name);
    }
}

/// A published name keeps leading to its client: whatever any connections do after a
/// client was told its name, a visitor whose request names that host still reaches
/// that client, unless the client is not told it or another one draws the
/// same identifier.
pub proof fn law_published_name_keeps_reaching_its_client(
    server: ServerView,
    client: u64,
    spare: Uuid,
    label: Seq<char>,
    moves: Seq<Move>,
    heads: Seq<Seq<char>>,
    tail: Seq<u8>,
    visitor: u64,
    id: Uuid,
    other_label: Seq<char>,
)
    requires
        random::is_label(label),
        forall|i: int|
            0 <= i < moves.len() ==> !gives_up(
                #[trigger] moves[i],
                client,
                if server.subdomain_conns.contains_key(label) {
                    ident::hyphenated(spare.value)
                } else {
                    label
                },
            ),
        forall|i: int|
            0 <= i < heads.len() ==> !(#[trigger] heads[i]).contains('\n') && !host::names_host(
                heads[i],
            ),
    ensures
        ({
            let hello = step(
                server,
                client,
                StageView::Parsing,
                EventView::Parsed(Some(ClientMessage::Hello)),
                spare,
                label,
            );
            let later = moved_on(hello.server, moves);
            hello.action matches ActionView::Encode(ServerMessageView::SubDomain(name)) && step(
                later,
                visitor,
                StageView::Peeking,
                EventView::Peeked(Some(request_bytes(heads, name, tail))),
                id,
                other_label,
            ) == (StepView {
                server: later,
                stage: StageView::Notifying { client, id },
                action: ActionView::Encode(ServerMessageView::Connection(id)),
                released: None,
            })
        }),
{
    let name = free_name(server, label, spare);
    law_client_keeps_its_name(
        after_hello(server, client, spare, label).server,
        moves,
        client,
        name,
    );
    ident::law_uuid_text_is_label(spare.value);
    lemma_request_names(heads, name, tail);
}

/// Whether a step lets a visitor wait under an identifier.
pub open spec fn notifies(m: Move, id: Uuid) -> bool {
    &&& m.stage matches StageView::Notifying { client, id: waiting } && waiting == id
    &&& m.event matches EventView::Encoded(Some(words))
}

/// A visitor is joined at most once: after an identifier was accepted, whatever any
/// connections do but notify a client under that identifier again, whoever accepts
/// it is told that no one waits under it, and nothing changes.
pub proof fn law_visitor_is_joined_once(
    server: ServerView,
    moves: Seq<Move>,
    id: Uuid,
    stream: u64,
    again: u64,
    other_id: Uuid,
    label: Seq<char>,
)
    requires
        forall|i: int| 0 <= i < moves.len() ==> !notifies(#[trigger] moves[i], id),
    ensures
        ({
            let accept = EventView::Parsed(Some(ClientMessage::Accept(id)));
            let accepted = step(server, stream, StageView::Parsing, accept, other_id, label);
            let later = moved_on(accepted.server, moves);
            step(later, again, StageView::Parsing, accept, other_id, label) == (StepView {
                server: later,
                stage: StageView::Ended,
                action: ActionView::Finish(Outcome::ConnectionNotFound),
                released: None,
            })
        }),
{
    let accept = EventView::Parsed(Some(ClientMessage::Accept(id)));
    lemma_no_one_waits(
        step(server, stream, StageView::Parsing, accept, other_id, label).server,
        moves,
        id,
    );
}

proof fn lemma_no_one_waits(server: ServerView, moves: Seq<Move>, id: Uuid)
    requires
        !server.cli_conns.contains_key(ident::hyphenated(id.value)),
        forall|i: int| 0 <= i < moves.len() ==> !notifies(#[trigger] moves[i], id),
    ensures
        !moved_on(server, moves).cli_conns.contains_key(ident::hyphenated(id.value)),
    decreases moves.len(),
{
    if moves.len() > 0 {
        let rest = moves.drop_first();
        assert(!notifies(moves[0], id));
        if let StageView::Notifying { client, id: waiting } = moves[0].stage {
            if ident::hyphenated(waiting.value) == ident::hyphenated(id.value) {
                ident::law_uuid_text_is_injective(waiting.value, id.value);
            }
        }
        assert forall|i: int| 0 <= i < rest.len() implies !notifies(#[trigger] rest[i], id) by {
            assert(rest[i] == moves[i + 1]);
        }
        lemma_no_one_waits(moved(server, moves.first()), rest, id);
    }
}

/// A visitor who waits is taken out by an `Accept` of their identifier alone, and
/// only a visitor who is notified under the same identifier takes their place.
pub proof fn law_only_accepting_ends_the_wait(
    server: ServerView,
    stream: u64,
    stage: StageView,
    event: EventView,
    id: Uuid,
    label: Seq<char>,
    waiting: Uuid,
)
    requires
        server.cli_conns.contains_key(ident::hyphenated(waiting.value)),
        !(stage is Parsing && event == EventView::Parsed(Some(ClientMessage::Accept(waiting)))),
    ensures
        ({
            let after = step(server, stream, stage, event, id, label).server;
            let name = ident::hyphenated(waiting.value);
            &&& after.cli_conns.contains_key(name)
            &&& after.cli_conns[name] == server.cli_conns[name] || (stage matches StageView::Notifying {
                client,
                id: notified,
            } && notified == waiting)
        }),
{
    if let StageView::Notifying { client, id: notified } = stage {
        if ident::hyphenated(notified.value) == ident::hyphenated(waiting.value) {
            ident::law_uuid_text_is_injective(notified.value, waiting.value);
        }
    }
    if let EventView::Parsed(Some(ClientMessage::Accept(accepted))) = event {
        if ident::hyphenated(accepted.value) == ident::hyphenated(waiting.value) {
            ident::law_uuid_text_is_injective(accepted.value, waiting.value);
        }
    }
}

/// A visitor who waits is found by the client that accepts them: whatever any
/// connections do but accept the same identifier or notify a client under it, the
/// visitor's stream stays where it is.
pub proof fn law_visitor_waits_until_accepted(
    server: ServerView,
    moves: Seq<Move>,
    visitor: u64,
    id: Uuid,
    acceptor: u64,
    other_id: Uuid,
    label: Seq<char>,
)
    requires
        server.cli_conns.contains_key(ident::hyphenated(id.value)),
        server.cli_conns[ident::hyphenated(id.value)] == visitor,
        forall|i: int|
            0 <= i < moves.len() ==> !notifies(#[trigger] moves[i], id) && !(moves[i].stage is Parsing
                && moves[i].event == EventView::Parsed(Some(ClientMessage::Accept(id)))),
    ensures
        step(
            moved_on(server, moves),
            acceptor,
            StageView::Parsing,
            EventView::Parsed(Some(ClientMessage::Accept(id))),
            other_id,
            label,
        ).action == (ActionView::Splice { visitor }),
    decreases moves.len(),
{
    if moves.len() > 0 {
        let rest = moves.drop_first();
        let m = moves[0];
        assert(!notifies(m, id));
        if let StageView::Notifying { client, id: waiting } = m.stage {
            if ident::hyphenated(waiting.value) == ident::hyphenated(id.value) {
                ident::law_uuid_text_is_injective(waiting.value, id.value);
            }
        }
        if let EventView::Parsed(Some(ClientMessage::Accept(accepted))) = m.event {
            if ident::hyphenated(accepted.value) == ident::hyphenated(id.value) {
                ident::law_uuid_text_is_injective(accepted.value, id.value);
            }
        }
        assert forall|i: int| 0 <= i < rest.len() implies !notifies(#[trigger] rest[i], id) && !(
        rest[i].stage is Parsing && rest[i].event == EventView::Parsed(
            Some(ClientMessage::Accept(id)),
        )) by {
            assert(rest[i] == moves[i + 1]);
        }
        law_visitor_waits_until_accepted(
            moved(server, moves.first()),
            rest,
            visitor,
            id,
            acceptor,
            other_id,
            label,
        );
    }
}

/// An entry of the relay: a visitor by identifier, or a client by subdomain.
pub enum Entry {
    Visitor(Seq<char>),
    Client(Seq<char>),
}

/// Whether two relays are the same but for one entry.
pub open spec fn same_but(before: ServerView, after: ServerView, entry: Entry) -> bool {
    &&& before.port == after.port
    &&& forall|name: Seq<char>|
        entry != Entry::Visitor(name) ==> #[trigger] stream_at(before.cli_conns, name) == stream_at(
            after.cli_conns,
            name,
        )
    &&& forall|name: Seq<char>|
        entry != Entry::Client(name) ==> #[trigger] stream_at(before.subdomain_conns, name)
            == stream_at(after.subdomain_conns, name)
}

/// What a connection finds when it takes a step: the relay as other connections
/// have left it, what happens, and the identifier and the name that are drawn.
pub struct Moment {
    pub server: ServerView,
    pub event: EventView,
    pub id: Uuid,
    pub label: Seq<char>,
}

/// Whether a connection, from a stage on and in one moment after the other, leaves
/// everything in the relay as it finds it but one entry.
pub open spec fn changes_only(
    stream: u64,
    stage: StageView,
    moments: Seq<Moment>,
    entry: Entry,
) -> bool
    decreases moments.len(),
{
    moments.len() == 0 || {
        let m = moments.first();
        let next = step(m.server, stream, stage, m.event, m.id, m.label);
        &&& same_but(m.server, next.server, entry)
        &&& changes_only(stream, next.stage, moments.drop_first(), entry)
    }
}

/// A stage at which a connection has left its mark.
spec fn is_settled(stage: StageView) -> bool {
    stage is Notified || stage is Splicing || stage is Announced || stage is Ended
}

proof fn lemma_settled_changes_nothing(
    stream: u64,
    stage: StageView,
    moments: Seq<Moment>,
    entry: Entry,
)
    requires
        is_settled(stage) || (stage matches StageView::Announcing { name } && entry
            == Entry::Client(name)),
    ensures
        changes_only(stream, stage, moments, entry),
    decreases moments.len(),
{
    if moments.len() > 0 {
        let m = moments.first();
        let next = step(m.server, stream, stage, m.event, m.id, m.label);
        lemma_settled_changes_nothing(stream, next.stage, moments.drop_first(), entry);
    }
}

proof fn lemma_changes_one_entry(
    stream: u64,
    stage: StageView,
    moments: Seq<Moment>,
) -> (entry: Entry)
    ensures
        changes_only(stream, stage, moments, entry),
    decreases moments.len(),
{
    if moments.len() == 0 {
        Entry::Visitor(Seq::empty())
    } else {
        let m = moments.first();
        let next = step(m.server, stream, stage, m.event, m.id, m.label);
        let rest = moments.drop_first();
        if let StageView::Announcing { name } = next.stage {
            let entry = Entry::Client(name);
            lemma_settled_changes_nothing(stream, next.stage, rest, entry);
            entry
        } else if is_settled(next.stage) {
            let entry = match (stage, m.event) {
                (StageView::Notifying { client, id }, _) => {
                    Entry::Visitor(ident::hyphenated(id.value))
                },
                (StageView::Announcing { name }, _) => Entry::Client(name),
                (_, EventView::Parsed(Some(ClientMessage::Accept(id)))) => {
                    Entry::Visitor(ident::hyphenated(id.value))
                },
                _ => Entry::Visitor(Seq::empty()),
            };
            lemma_settled_changes_nothing(stream, next.stage, rest, entry);
            entry
        } else {
            lemma_changes_one_entry(stream, next.stage, rest)
        }
    }
}

/// A connection changes at most one entry of the relay from its beginning to its
/// end: where a visitor waits, where a visitor was taken over, or where a client is
/// found. Everything else it leaves as other connections have left it.
pub proof fn law_connection_changes_one_entry(stream: u64, moments: Seq<Moment>)
    ensures
        exists|entry: Entry| changes_only(stream, StageView::Peeking, moments, entry),
{
    let entry = lemma_changes_one_entry(stream, StageView::Peeking, moments);
}

/// Whether the relay holds a stream: as a visitor's or as a client's.
pub open spec fn holds(server: ServerView, stream: u64) -> bool {
    ||| exists|name: Seq<char>| #[trigger] stream_at(server.cli_conns, name) == Some(stream)
    ||| exists|name: Seq<char>| #[trigger] stream_at(server.subdomain_conns, name) == Some(stream)
}

/// Whether a stream has come under no further name from one relay to another.
pub open spec fn not_spread(before: ServerView, after: ServerView, stream: u64) -> bool {
    &&& forall|name: Seq<char>| #[trigger]
        stream_at(after.cli_conns, name) == Some(stream) ==> stream_at(before.cli_conns, name)
            == Some(stream)
    &&& forall|name: Seq<char>| #[trigger]
        stream_at(after.subdomain_conns, name) == Some(stream) ==> stream_at(
            before.subdomain_conns,
            name,
        ) == Some(stream)
}

/// Whether other connections, between the moments of one that has left the relay as
/// `server`, put its stream under no name.
pub open spec fn left_alone(
    stream: u64,
    stage: StageView,
    server: ServerView,
    moments: Seq<Moment>,
) -> bool
    decreases moments.len(),
{
    moments.len() == 0 || {
        let m = moments.first();
        let next = step(m.server, stream, stage, m.event, m.id, m.label);
        &&& not_spread(server, m.server, stream)
        &&& left_alone(stream, next.stage, next.server, moments.drop_first())
    }
}

/// Whether a connection, from a stage on and in one moment after the other, comes to
/// an end that keeps its stream if the relay then holds that stream.
pub open spec fn keeps_what_is_held(stream: u64, stage: StageView, moments: Seq<Moment>) -> bool
    decreases moments.len(),
{
    moments.len() == 0 || {
        let m = moments.first();
        let next = step(m.server, stream, stage, m.event, m.id, m.label);
        &&& stage !is Ended && holds(next.server, stream) ==> (next.action matches ActionView::Finish(
            outcome,
        ) ==> outcome.keeps())
        &&& keeps_what_is_held(stream, next.stage, moments.drop_first())
    }
}

/// Whether the relay holds a stream no further than the stage of its connection
/// says.
spec fn fits(server: ServerView, stream: u64, stage: StageView) -> bool {
    match stage {
        StageView::Announcing { name } => {
            &&& forall|other: Seq<char>| #[trigger]
                stream_at(server.cli_conns, other) != Some(stream)
            &&& forall|other: Seq<char>| #[trigger]
                stream_at(server.subdomain_conns, other) == Some(stream) ==> other == name
        },
        StageView::Notified | StageView::Announced | StageView::Ended => true,
        _ => !holds(server, stream),
    }
}

proof fn lemma_not_spread(before: ServerView, after: ServerView, stream: u64)
    requires
        !holds(before, stream),
        not_spread(before, after, stream),
    ensures
        !holds(after, stream),
{
    assert forall|name: Seq<char>| #[trigger]
        stream_at(after.cli_conns, name) != Some(stream) by {
        assert(stream_at(before.cli_conns, name) != Some(stream));
    }
    assert forall|name: Seq<char>| #[trigger]
        stream_at(after.subdomain_conns, name) != Some(stream) by {
        assert(stream_at(before.subdomain_conns, name) != Some(stream));
    }
}

proof fn lemma_keeps_what_is_held(
    stream: u64,
    stage: StageView,
    server: ServerView,
    moments: Seq<Moment>,
)
    requires
        fits(server, stream, stage),
        left_alone(stream, stage, server, moments),
    ensures
        keeps_what_is_held(stream, stage, moments),
    decreases moments.len(),
{
    if moments.len() > 0 {
        let m = moments.first();
        let next = step(m.server, stream, stage, m.event, m.id, m.label);
        if let StageView::Announcing { name } = stage {
            assert forall|other: Seq<char>| #[trigger]
                stream_at(next.server.cli_conns, other) != Some(stream) by {
                assert(stream_at(m.server.cli_conns, other) != Some(stream));
            }
            assert forall|other: Seq<char>|
                next.stage is Ended implies #[trigger] stream_at(
                next.server.subdomain_conns,
                other,
            ) != Some(stream) by {
                if other != name {
                    assert(stream_at(m.server.subdomain_conns, other) != Some(stream));
                }
            }
        } else if !(stage is Notified || stage is Announced || stage is Ended) {
            lemma_not_spread(server, m.server, stream);
            if let StageView::Announcing { name } = next.stage {
                assert forall|other: Seq<char>| #[trigger]
                    stream_at(next.server.subdomain_conns, other) == Some(
                        stream,
                    ) implies other == name by {
                    assert(stream_at(m.server.subdomain_conns, other) != Some(stream));
                }
            } else if next.stage !is Notified {
                lemma_not_spread(m.server, next.server, stream);
            }
        }
        assert(fits(next.server, stream, next.stage));
        lemma_keeps_what_is_held(stream, next.stage, next.server, moments.drop_first());
    }
}

/// A stream that the relay holds is kept: a connection whose stream it holds when the
/// connection comes to its end, comes to an end that keeps the stream, if no other
/// connection puts that stream under a name.
pub proof fn law_held_stream_is_kept(stream: u64, server: ServerView, moments: Seq<Moment>)
    requires
        !holds(server, stream),
        left_alone(stream, StageView::Peeking, server, moments),
    ensures
        keeps_what_is_held(stream, StageView::Peeking, moments),
{
    lemma_keeps_what_is_held(stream, StageView::Peeking, server, moments);
}

/// A step puts no stream under a name but that of its own connection.
pub proof fn law_step_spreads_no_other_stream(server: ServerView, m: Move, other: u64)
    requires
        m.stream != other,
    ensures
        not_spread(server, moved(server, m), other),
{
}

/// No step changes the port, or lets a name in that is no label.
pub proof fn law_only_labels_come_in(server: ServerView, m: Move)
    requires
        server.wf(),
        random::is_label(m.label),
    ensures
        moved(server, m).port == server.port,
        moved(server, m).wf(),
{
    ident::law_uuid_text_is_label(m.id.value);
}

/// A connection that has ended does nothing more.
pub proof fn law_ended_stays_ended(
    server: ServerView,
    stream: u64,
    event: EventView,
    id: Uuid,
    label: Seq<char>,
)
    ensures
        step(server, stream, StageView::Ended, event, id, label) == end(server, Outcome::OutOfTurn),
{
}

/// What a connection is to do, what happens to it and how far it has come are seen as
/// they are.
pub proof fn law_steps_are_seen_whole(
    limit: usize,
    message: ServerMessage,
    number: u64,
    bytes: Vec<u8>,
    text: String,
    id: Uuid,
    outcome: Outcome,
    parsed: Option<ClientMessage>,
    error: FrameError,
)
    ensures
        (Action::Peek { limit })@ == (ActionView::Peek { limit }),
        Action::Encode(message)@ == ActionView::Encode(message@),
        (Action::Send { to: number, frame: bytes })@ == (ActionView::Send {
            to: number,
            frame: bytes@,
        }),
        Action::Read@ == ActionView::Read,
        Action::Parse(bytes)@ == ActionView::Parse(bytes@),
        (Action::Splice { visitor: number })@ == (ActionView::Splice { visitor: number }),
        Action::Finish(outcome)@ == ActionView::Finish(outcome),
        Event::Peeked(Some(bytes))@ == EventView::Peeked(Some(bytes@)),
        Event::Peeked(None)@ == EventView::Peeked(None),
        Event::Encoded(Some(text))@ == EventView::Encoded(Some(text@)),
        Event::Encoded(None)@ == EventView::Encoded(None),
        Event::Sent@ == EventView::Sent,
        Event::Frame(Some(Ok(bytes)))@ == EventView::Frame(Some(Ok(bytes@))),
        Event::Frame(Some(Err(error)))@ == EventView::Frame(Some(Err(error))),
        Event::Frame(None)@ == EventView::Frame(None),
        Event::Parsed(parsed)@ == EventView::Parsed(parsed),
        Event::Spliced@ == EventView::Spliced,
        Stage::Peeking@ == StageView::Peeking,
        (Stage::Notifying { client: number, id })@ == (StageView::Notifying { client: number, id }),
        Stage::Notified@ == StageView::Notified,
        Stage::Listening@ == StageView::Listening,
        Stage::Parsing@ == StageView::Parsing,
        (Stage::Announcing { name: text })@ == (StageView::Announcing { name: text@ }),
        Stage::Announced@ == StageView::Announced,
        Stage::Splicing@ == StageView::Splicing,
        Stage::Ended@ == StageView::Ended,
        PEEK_LIMIT == 1024,
{
}

} // verus!
