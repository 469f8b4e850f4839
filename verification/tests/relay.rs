use portpub::ident::Uuid;
use portpub::message::{ClientMessage, FrameError, ServerMessage};
use portpub::server::{
    parse_port, Action, Connection, Event, Outcome, PortError, Server, Step,
};

const ID: Uuid = Uuid { value: 0x11111111_1111_4111_8111_111111111111 };
const SPARE: Uuid = Uuid { value: 0x22222222_2222_4222_8222_222222222222 };

fn at(server: &mut Server, connection: Connection, event: Event, id: Uuid, label: &str) -> Step {
    server.handle_connection_with(connection, event, id, label.to_string())
}

fn outcome(step: &Step) -> Outcome {
    match step.action {
        Action::Finish(outcome) => outcome,
        _ => panic!("not at its end: {:?}", step.action),
    }
}

fn request_for(name: &str) -> Event {
    Event::Peeked(Some(format!("GET / HTTP/1.1\r\nHost: {name}.port.pub\r\n\r\n").into_bytes()))
}

fn says(message: ClientMessage) -> Event {
    Event::Parsed(Some(message))
}

/// A client's connection up to the point at which its message is understood.
fn parsing(server: &mut Server, stream: u64) -> Connection {
    let (connection, action) = Connection::new(stream);
    assert!(matches!(action, Action::Peek { limit: 1024 }));
    let step = at(server, connection, Event::Peeked(Some(b"\"x\"\0".to_vec())), ID, "aaaaa");
    assert!(matches!(step.action, Action::Read));
    let step = at(server, step.connection, Event::Frame(Some(Ok(b"\"x\"".to_vec()))), ID, "aaaaa");
    assert!(matches!(step.action, Action::Parse(ref bytes) if bytes == b"\"x\""));
    step.connection
}

/// The name that a client is told.
fn told(step: &Step) -> String {
    match &step.action {
        Action::Encode(ServerMessage::SubDomain(name)) => name.clone(),
        _ => panic!("no name"),
    }
}

/// Registers a client for which a name is drawn, and gives the name that it is told
/// and the stream that was released.
fn register(server: &mut Server, stream: u64, label: &str, spare: Uuid) -> (String, Option<u64>) {
    let connection = parsing(server, stream);
    let step = at(server, connection, says(ClientMessage::Hello), spare, label);
    let name = told(&step);
    let released = step.released;
    let step = at(server, step.connection, Event::Encoded(Some("words".to_string())), ID, "zzzzz");
    assert!(matches!(&step.action, Action::Send { to, frame } if *to == stream && frame == b"words\0"));
    assert_eq!(step.released, None);
    let step = at(server, step.connection, Event::Sent, ID, "zzzzz");
    assert_eq!(outcome(&step), Outcome::ClientRegistered);
    assert_eq!(step.released, None);
    (name, released)
}

/// Lets a visitor ask for a name, and gives the client that is to be told.
fn visit(server: &mut Server, stream: u64, name: &str, id: Uuid) -> Option<u64> {
    let (connection, _) = Connection::new(stream);
    let step = at(server, connection, request_for(name), id, "zzzzz");
    match step.action {
        Action::Encode(ServerMessage::Connection(told)) => assert_eq!(told, id),
        _ => {
            assert_eq!(outcome(&step), Outcome::UnknownSubdomain);
            return None;
        }
    }
    let step = at(server, step.connection, Event::Encoded(Some("c".to_string())), SPARE, "zzzzz");
    let client = match &step.action {
        Action::Send { to, frame } => {
            assert_eq!(frame, b"c\0");
            *to
        }
        _ => panic!("nothing is sent"),
    };
    let step = at(server, step.connection, Event::Sent, SPARE, "zzzzz");
    assert_eq!(outcome(&step), Outcome::VisitorWaits);
    Some(client)
}

fn accept(server: &mut Server, stream: u64, id: Uuid) -> Option<u64> {
    let connection = parsing(server, stream);
    let step = at(server, connection, says(ClientMessage::Accept(id)), SPARE, "zzzzz");
    match step.action {
        Action::Splice { visitor } => {
            let end = at(server, step.connection, Event::Spliced, SPARE, "zzzzz");
            assert_eq!(outcome(&end), Outcome::Joined);
            Some(visitor)
        }
        _ => {
            assert_eq!(outcome(&step), Outcome::ConnectionNotFound);
            None
        }
    }
}

#[test]
fn published_name_reaches_its_client() {
    let mut server = Server::new(4321);
    assert_eq!(server.port(), 4321);
    assert_eq!(visit(&mut server, 1, "abc12", ID), None);
    assert_eq!(register(&mut server, 2, "abc12", SPARE), ("abc12".to_string(), None));
    assert_eq!(visit(&mut server, 3, "abc12", ID), Some(2));
    assert_eq!(visit(&mut server, 4, "other", ID), None);
}

#[test]
fn accepting_joins_the_visitor_once() {
    let mut server = Server::new(1);
    register(&mut server, 2, "abc12", SPARE);
    visit(&mut server, 3, "abc12", ID);
    visit(&mut server, 4, "ABC12", SPARE);
    assert_eq!(accept(&mut server, 5, ID), Some(3));
    assert_eq!(accept(&mut server, 6, ID), None);
    assert_eq!(accept(&mut server, 7, SPARE), Some(4));
}

#[test]
fn name_in_use_stays() {
    let mut server = Server::new(1);
    let spare = SPARE.to_text();
    assert_eq!(register(&mut server, 2, "abc12", SPARE), ("abc12".to_string(), None));
    assert_eq!(register(&mut server, 3, "abc12", SPARE), (spare.clone(), None));
    assert_eq!(visit(&mut server, 4, "abc12", ID), Some(2));
    assert_eq!(visit(&mut server, 5, &spare, ID), Some(3));
    assert_eq!(register(&mut server, 6, "abc12", SPARE), (spare.clone(), Some(3)));
    assert_eq!(visit(&mut server, 7, &spare, ID), Some(6));
    assert_eq!(visit(&mut server, 8, "abc12", ID), Some(2));
}

#[test]
fn name_is_held_from_the_hello_on() {
    let mut server = Server::new(1);
    let first = parsing(&mut server, 2);
    let second = parsing(&mut server, 3);
    let first = at(&mut server, first, says(ClientMessage::Hello), ID, "abc12");
    assert_eq!(told(&first), "abc12");
    assert_eq!(visit(&mut server, 4, "abc12", ID), Some(2));
    let second = at(&mut server, second, says(ClientMessage::Hello), SPARE, "abc12");
    assert_eq!(told(&second), SPARE.to_text());
    let words = || Event::Encoded(Some("words".to_string()));
    let second = at(&mut server, second.connection, words(), ID, "abc12");
    let second = at(&mut server, second.connection, Event::Sent, ID, "abc12");
    assert_eq!(outcome(&second), Outcome::ClientRegistered);
    let first = at(&mut server, first.connection, words(), ID, "abc12");
    let first = at(&mut server, first.connection, Event::Sent, ID, "abc12");
    assert_eq!(outcome(&first), Outcome::ClientRegistered);
    assert_eq!(visit(&mut server, 5, "abc12", ID), Some(2));
    assert_eq!(visit(&mut server, 6, &SPARE.to_text(), ID), Some(3));
}

#[test]
fn name_that_cannot_be_told_is_free_again() {
    let mut server = Server::new(1);
    let connection = parsing(&mut server, 2);
    let step = at(&mut server, connection, says(ClientMessage::Hello), ID, "abc12");
    assert_eq!(visit(&mut server, 3, "abc12", ID), Some(2));
    let step = at(&mut server, step.connection, Event::Encoded(None), ID, "abc12");
    assert_eq!(outcome(&step), Outcome::EncodeFailed);
    assert_eq!(visit(&mut server, 4, "abc12", ID), None);
    assert_eq!(register(&mut server, 5, "abc12", SPARE), ("abc12".to_string(), None));
}

#[test]
fn name_that_another_client_has_by_now_is_not_taken_from_it() {
    let mut server = Server::new(1);
    register(&mut server, 2, "abc12", SPARE);
    let connection = parsing(&mut server, 3);
    let step = at(&mut server, connection, says(ClientMessage::Hello), ID, "abc12");
    let name = told(&step);
    assert_eq!(register(&mut server, 4, "abc12", ID), (name.clone(), Some(3)));
    let step = at(&mut server, step.connection, Event::Encoded(None), ID, "abc12");
    assert_eq!(outcome(&step), Outcome::EncodeFailed);
    assert_eq!(visit(&mut server, 5, &name, ID), Some(4));
}

#[test]
fn bytes_behind_the_host_do_not_matter() {
    let mut server = Server::new(1);
    register(&mut server, 2, "abc12", SPARE);
    for tail in [&b"\r\n\xff\xfe\x00\x80"[..], b"X: \xe2\x82", b"\xf0\x9f\x8f\r\nHost: zzzzz.port.pub"] {
        let mut bytes = b"POST / HTTP/1.1\r\nHost: abc12.port.pub\r\n".to_vec();
        bytes.extend_from_slice(tail);
        let (connection, _) = Connection::new(3);
        let step = at(&mut server, connection, Event::Peeked(Some(bytes)), ID, "zzzzz");
        assert!(matches!(step.action, Action::Encode(ServerMessage::Connection(id)) if id == ID));
    }
}

#[test]
fn accepted_identifier_stays_gone() {
    let mut server = Server::new(1);
    register(&mut server, 2, "abc12", SPARE);
    visit(&mut server, 3, "abc12", ID);
    visit(&mut server, 4, "abc12", SPARE);
    assert_eq!(accept(&mut server, 5, ID), Some(3));
    register(&mut server, 6, "other", ID);
    visit(&mut server, 7, "unknown", ID);
    assert_eq!(accept(&mut server, 8, SPARE), Some(4));
    assert_eq!(accept(&mut server, 9, ID), None);
    visit(&mut server, 10, "abc12", ID);
    assert_eq!(accept(&mut server, 11, ID), Some(10));
}

#[test]
fn visitor_under_the_same_identifier_takes_the_place() {
    let mut server = Server::new(1);
    register(&mut server, 2, "abc12", SPARE);
    visit(&mut server, 3, "abc12", ID);
    let (connection, _) = Connection::new(4);
    let step = at(&mut server, connection, request_for("abc12"), ID, "zzzzz");
    let step = at(&mut server, step.connection, Event::Encoded(Some(String::new())), ID, "zzzzz");
    assert_eq!(step.released, Some(3));
    assert_eq!(accept(&mut server, 5, ID), Some(4));
}

#[test]
fn connections_that_fail() {
    let mut server = Server::new(1);
    let (c, _) = Connection::new(1);
    assert_eq!(outcome(&at(&mut server, c, Event::Peeked(None), ID, "a")), Outcome::PeekFailed);
    let (c, _) = Connection::new(1);
    let bare = Event::Peeked(Some(b"GET /\r\nHost: .\r\n".to_vec()));
    assert_eq!(outcome(&at(&mut server, c, bare, ID, "a")), Outcome::NoSubdomain);
    for (frame, end) in [
        (None, Outcome::StreamEnded),
        (Some(Err(FrameError::MaxChunkLengthExceeded)), Outcome::FrameFailed),
        (Some(Err(FrameError::Io)), Outcome::FrameFailed),
    ] {
        let (c, _) = Connection::new(1);
        let step = at(&mut server, c, Event::Peeked(Some(vec![])), ID, "a");
        assert_eq!(outcome(&at(&mut server, step.connection, Event::Frame(frame), ID, "a")), end);
    }
    let c = parsing(&mut server, 1);
    assert_eq!(outcome(&at(&mut server, c, Event::Parsed(None), ID, "a")), Outcome::MessageRejected);
    let c = parsing(&mut server, 1);
    let step = at(&mut server, c, says(ClientMessage::Hello), ID, "a");
    let step = at(&mut server, step.connection, Event::Encoded(None), ID, "a");
    assert_eq!(outcome(&step), Outcome::EncodeFailed);
    assert_eq!(visit(&mut server, 9, "a", ID), None);
}

#[test]
fn visitor_whose_notice_fails_does_not_wait() {
    let mut server = Server::new(1);
    register(&mut server, 2, "abc12", SPARE);
    let (c, _) = Connection::new(3);
    let step = at(&mut server, c, request_for("abc12"), ID, "a");
    let step = at(&mut server, step.connection, Event::Encoded(None), ID, "a");
    assert_eq!(outcome(&step), Outcome::EncodeFailed);
    assert_eq!(accept(&mut server, 4, ID), None);
}

#[test]
fn outcomes_that_keep_the_stream() {
    for outcome in [Outcome::VisitorWaits, Outcome::ClientRegistered] {
        assert!(outcome.keeps_stream());
    }
    for outcome in [
        Outcome::PeekFailed,
        Outcome::NoSubdomain,
        Outcome::UnknownSubdomain,
        Outcome::EncodeFailed,
        Outcome::StreamEnded,
        Outcome::FrameFailed,
        Outcome::MessageRejected,
        Outcome::ConnectionNotFound,
        Outcome::Joined,
        Outcome::OutOfTurn,
    ] {
        assert!(!outcome.keeps_stream());
    }
}

#[test]
fn held_streams_are_kept() {
    let mut server = Server::new(1);
    let c = parsing(&mut server, 2);
    let step = at(&mut server, c, says(ClientMessage::Hello), ID, "abc12");
    let step = at(&mut server, step.connection, Event::Spliced, ID, "a");
    assert_eq!(outcome(&step), Outcome::OutOfTurn);
    assert!(!outcome(&step).keeps_stream());
    assert_eq!(visit(&mut server, 3, "abc12", ID), None);

    let c = parsing(&mut server, 4);
    let step = at(&mut server, c, says(ClientMessage::Hello), ID, "abc12");
    let words = Event::Encoded(Some("words".to_string()));
    let step = at(&mut server, step.connection, words, ID, "a");
    let step = at(&mut server, step.connection, Event::Spliced, ID, "a");
    assert!(outcome(&step).keeps_stream());
    assert_eq!(visit(&mut server, 5, "abc12", SPARE), Some(4));

    let (c, _) = Connection::new(6);
    let step = at(&mut server, c, request_for("abc12"), ID, "a");
    let step = at(&mut server, step.connection, Event::Encoded(Some(String::new())), ID, "a");
    let step = at(&mut server, step.connection, Event::Spliced, ID, "a");
    assert!(outcome(&step).keeps_stream());
    assert_eq!(accept(&mut server, 7, ID), Some(6));
}

#[test]
fn ended_connection_does_nothing() {
    let mut server = Server::new(1);
    let (c, _) = Connection::new(1);
    let step = at(&mut server, c, Event::Peeked(None), ID, "a");
    let step = at(&mut server, step.connection, says(ClientMessage::Hello), ID, "a");
    assert_eq!(outcome(&step), Outcome::OutOfTurn);
    let (c, _) = Connection::new(1);
    assert_eq!(outcome(&at(&mut server, c, Event::Sent, ID, "a")), Outcome::OutOfTurn);
}

#[test]
fn drawn_names_and_identifiers() {
    let mut server = Server::new(1);
    let (c, _) = server.listen(Some(7)).unwrap();
    assert!(server.listen(None).is_none());
    let step = server.handle_connection(c, Event::Peeked(Some(b"x".to_vec())));
    let step = server.handle_connection(step.connection, Event::Frame(Some(Ok(vec![1]))));
    let step = server.handle_connection(step.connection, says(ClientMessage::Hello));
    let name = told(&step);
    assert_eq!(name.len(), 5);
    let step = server.handle_connection(step.connection, Event::Encoded(Some("n".to_string())));
    let step = server.handle_connection(step.connection, Event::Sent);
    assert_eq!(outcome(&step), Outcome::ClientRegistered);
    assert_eq!(visit(&mut server, 8, &name, ID), Some(7));
}

#[test]
fn port_of_the_relay() {
    assert_eq!(parse_port(None), Err(PortError::NotSet));
    for text in ["4321", "+80", "0", "65535", "00080", "", "+", "-0", "65536", "8080 ", "1x", "++1", "٣",
        "99999999999999999999", "4294967376"] {
        assert_eq!(parse_port(Some(text)).ok(), text.parse::<u16>().ok(), "{text}");
    }
    for n in 0..=u16::MAX {
        assert_eq!(parse_port(Some(&n.to_string())), Ok(n));
    }
    assert_eq!(parse_port(Some("x")), Err(PortError::Invalid));
    assert_eq!(PortError::NotSet.message(), "PORT environment variable not set");
    assert_eq!(PortError::Invalid.message(), "PORT must be a valid integer");
    assert_eq!(Server::new(80).bind_error(), "failed to run server on port 80");
    assert_eq!(Server::new(65535).bind_error(), "failed to run server on port 65535");
}
