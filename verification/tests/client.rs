use portpub::http::{
    note_code, note_request, read_request_line, HeadStatus, PeekReader,
};
use portpub::ident::Uuid;
use portpub::message::{ClientMessage, ServerMessage};
use portpub::requests::RequestListWidget;
use portpub::session::{
    status_of, SessionAction, SessionEvent, SessionStage, Tunnel, TunnelAction, TunnelEvent,
    TunnelStage, SERVER,
};

const ID: Uuid = Uuid { value: 7 };

fn error(words: &str) -> String {
    words.to_string()
}

fn shown_row(list: &RequestListWidget, i: usize) -> Vec<String> {
    list.render().requests.rows[i].iter().map(|cell| cell[0].text.clone()).collect()
}

fn listening(list: &mut RequestListWidget) {
    let (stage, action) = list.run(8081);
    assert!(matches!(action, SessionAction::Connect));
    assert_eq!(list.state.local_port, 8081);
    let (stage, action) = list.run_portpub(stage, SessionEvent::Connected);
    assert!(matches!(action, SessionAction::Encode(ClientMessage::Hello)));
    let (stage, action) = list.run_portpub(stage, SessionEvent::Encoded(Ok("\"Hello\"".to_string())));
    assert!(matches!(action, SessionAction::Send(frame) if frame == b"\"Hello\"\0"));
    let (stage, action) = list.run_portpub(stage, SessionEvent::Sent(Ok(())));
    assert!(matches!(action, SessionAction::Read));
    assert_eq!(stage, SessionStage::Listening);
}

fn hear(list: &mut RequestListWidget, message: Result<ServerMessage, String>) -> SessionAction {
    let frame = SessionEvent::Frame(Some(Ok(vec![1, 2])));
    let (stage, action) = list.run_portpub(SessionStage::Listening, frame);
    assert!(matches!(action, SessionAction::Parse(bytes) if bytes == vec![1, 2]));
    let (stage, action) = list.run_portpub(stage, SessionEvent::Parsed(message));
    assert_eq!(stage, SessionStage::Listening);
    action
}

#[test]
fn conversation_with_the_relay() {
    let mut list = RequestListWidget::default();
    listening(&mut list);
    let action = hear(&mut list, Ok(ServerMessage::SubDomain("abc12".to_string())));
    assert!(matches!(action, SessionAction::Read));
    assert_eq!(list.state.sub_domain, "abc12");
    assert_eq!(list.render().header.rows[0][1][0].text, "http://abc12.port.pub");
    assert_eq!(list.render().header.rows[0][1][1].text, " -> localhost:8081");
    assert_eq!(list.render().loading.text, "Idle");

    let action = hear(&mut list, Ok(ServerMessage::Heartbeat));
    assert!(matches!(action, SessionAction::Read));
    let action = hear(&mut list, Ok(ServerMessage::Connection(ID)));
    assert!(matches!(action, SessionAction::OpenTunnel(id) if id == ID));
    assert_eq!(list.render().loading.text, "Handling");

    let action = hear(&mut list, Err(error("what?")));
    assert!(matches!(action, SessionAction::Read));
    assert_eq!(list.state.top_status, "unknown message from server: what?");

    let (stage, action) = list.run_portpub(SessionStage::Listening, SessionEvent::Frame(None));
    assert!(matches!(action, SessionAction::End));
    assert_eq!(stage, SessionStage::Ended);
    assert_eq!(list.state.top_status, "unknown message from server: what?");
}

#[test]
fn conversation_that_fails() {
    for (stage, event, told) in [
        (
            SessionStage::Greeting,
            SessionEvent::Encoded(Err(error("e1"))),
            "failed to marshal hello message: e1",
        ),
        (SessionStage::Greeted, SessionEvent::Sent(Err(error("e2"))), "failed to send hello message: e2"),
        (
            SessionStage::Listening,
            SessionEvent::Frame(Some(Err(error("e3")))),
            "failed to recieve new messages: e3",
        ),
        (SessionStage::Ended, SessionEvent::Connected, ""),
        (SessionStage::Connecting, SessionEvent::Sent(Ok(())), ""),
    ] {
        let mut list = RequestListWidget::default();
        let (next, action) = list.run_portpub(stage, event);
        assert!(matches!(action, SessionAction::End));
        assert_eq!(next, SessionStage::Ended);
        assert_eq!(list.state.top_status, told);
    }
}

fn tunnel_at(list: &mut RequestListWidget, bytes: &[u8]) -> (Tunnel, TunnelAction) {
    let (tunnel, action) = Tunnel::new(ID, 8081);
    assert!(matches!(action, TunnelAction::Connect));
    let (tunnel, action) = list.run_tunnel(tunnel, TunnelEvent::Connected(Ok(())));
    assert!(matches!(action, TunnelAction::Encode(ClientMessage::Accept(id)) if id == ID));
    let (tunnel, action) = list.run_tunnel(tunnel, TunnelEvent::Encoded(Ok("a".to_string())));
    assert!(matches!(action, TunnelAction::Send(frame) if frame == b"a\0"));
    let (tunnel, action) = list.run_tunnel(tunnel, TunnelEvent::Sent(Ok(())));
    assert!(matches!(action, TunnelAction::ConnectLocal { port: 8081 }));
    let (tunnel, action) = list.run_tunnel(tunnel, TunnelEvent::LocalConnected(Ok(())));
    assert!(matches!(action, TunnelAction::Peek { limit: 4096 }));
    list.run_tunnel(tunnel, TunnelEvent::Peeked(bytes.to_vec()))
}

#[test]
fn tunnel_notes_its_request() {
    let mut list = RequestListWidget::default();
    let (tunnel, action) = tunnel_at(&mut list, b"POST /a?b HTTP/1.1\r\nHost: x.port.pub\r\n\r\n");
    assert!(matches!(action, TunnelAction::Copy));
    let done = TunnelEvent::Copied { upload: Some(true), download: Some((true, Some(201))) };
    let time = "2024-01-02 03:04:05".to_string();
    let (tunnel, action) = list.run_tunnel_at(tunnel, done, time);
    assert!(matches!(action, TunnelAction::End));
    assert!(matches!(tunnel.stage, TunnelStage::Ended));
    assert_eq!(shown_row(&list, 0), ["2024-01-02 03:04:05", "201", "POST", "/a?b"]);
    assert_eq!(list.render().loading.text, "Handled");

    let again = TunnelEvent::Copied { upload: Some(true), download: None };
    let (_, action) = list.run_tunnel_at(tunnel, again, String::new());
    assert!(matches!(action, TunnelAction::End));
    assert_eq!(list.render().requests.rows.len(), 1);
}

#[test]
fn request_is_noted_with_the_time_of_the_clock() {
    let mut list = RequestListWidget::default();
    let (tunnel, _) = tunnel_at(&mut list, b"");
    list.run_tunnel(tunnel, TunnelEvent::Copied { upload: None, download: None });
    let row = shown_row(&list, 0);
    let read = chrono::NaiveDateTime::parse_from_str(&row[0], "%Y-%m-%d %H:%M:%S").unwrap();
    let apart = chrono::Local::now().naive_local() - read;
    assert!(apart.num_seconds().abs() < 60);
    assert_eq!(row[1..], ["0", "", ""]);
}

#[test]
fn tunnel_that_fails() {
    for (stage, event, told) in [
        (
            TunnelStage::Connecting,
            TunnelEvent::Connected(Err(error("e1"))),
            "failed to connecto to server (port.pub:4321): e1",
        ),
        (
            TunnelStage::Accepting,
            TunnelEvent::Encoded(Err(error("e2"))),
            "failed to marshal accept message: e2",
        ),
        (TunnelStage::Accepted, TunnelEvent::Sent(Err(error("e3"))), "failed to send accept message: e3"),
        (
            TunnelStage::ConnectingLocal,
            TunnelEvent::LocalConnected(Err(error("e4"))),
            "failed to connecto to local on port 8081: e4",
        ),
        (TunnelStage::Ended, TunnelEvent::Connected(Ok(())), ""),
    ] {
        let mut list = RequestListWidget::default();
        let (tunnel, action) = list.run_tunnel(Tunnel { id: ID, port: 8081, stage }, event);
        assert!(matches!(action, TunnelAction::End));
        assert!(matches!(tunnel.stage, TunnelStage::Ended));
        assert_eq!(list.state.top_status, told);
        assert_eq!(list.render().requests.rows.len(), 0);
    }
    assert_eq!(SERVER, "port.pub:4321");
}

#[test]
fn request_that_is_not_http_is_given_up() {
    let mut list = RequestListWidget::default();
    let (tunnel, action) = tunnel_at(&mut list, b"\x01\x02\x03");
    assert!(matches!(action, TunnelAction::Abort));
    assert!(matches!(tunnel.stage, TunnelStage::Ended));
}

#[test]
fn request_lines() {
    let line = read_request_line(b"GET /x HTTP/1.1\r\nA: b\r\n\r\n").unwrap();
    assert_eq!((line.method.as_str(), line.path.as_str()), ("GET", "/x"));
    let line = read_request_line(b"GET /x HT").unwrap();
    assert_eq!((line.method.as_str(), line.path.as_str()), ("GET", "/x"));
    let line = read_request_line(b"GET /x").unwrap();
    assert_eq!((line.method.as_str(), line.path.as_str()), ("GET", ""));
    let line = read_request_line(b"").unwrap();
    assert_eq!((line.method.as_str(), line.path.as_str()), ("", ""));
    assert!(read_request_line(b"GET /\x00 HTTP/1.1\r\n\r\n").is_none());

    let head = |n: usize| format!("GET / HTTP/1.1\r\n{}\r\n", "A: b\r\n".repeat(n));
    assert!(read_request_line(head(32).as_bytes()).is_some());
    assert!(read_request_line(head(33).as_bytes()).is_none());
}

#[test]
fn request_line_of_what_was_read() {
    assert!(note_request(HeadStatus::Invalid, Some("GET".to_string()), None).is_none());
    let line = note_request(HeadStatus::Partial, Some("GET".to_string()), None).unwrap();
    assert_eq!((line.method.as_str(), line.path.as_str()), ("GET", ""));
}

#[test]
fn status_codes_are_watched() {
    let mut reader = PeekReader::new();
    assert_eq!(reader.status_code, None);
    reader.poll_read(true, b"HTTP/1.1 200 OK\r\nA", 0);
    assert_eq!(reader.status_code, None);
    let filled = b"xxHTTP/1.1 404 Not Found\r\nA: b\r\n\r\nbody";
    reader.poll_read(false, filled, 2);
    assert_eq!(reader.status_code, None);
    reader.poll_read(true, filled, 2);
    assert_eq!(reader.status_code, Some(404));
    reader.poll_read(true, b"more of the body", 0);
    reader.poll_read(true, b"", 0);
    assert_eq!(reader.status_code, Some(404));
    reader.poll_read(true, b"HTTP/1.1 500\r\n\r\n", 0);
    assert_eq!(reader.status_code, Some(500));
}

#[test]
fn status_code_of_what_was_read() {
    assert_eq!(note_code(None, HeadStatus::Complete, Some(200)), Some(200));
    assert_eq!(note_code(Some(1), HeadStatus::Complete, None), Some(1));
    assert_eq!(note_code(Some(1), HeadStatus::Partial, Some(200)), Some(1));
    assert_eq!(note_code(Some(1), HeadStatus::Invalid, Some(200)), Some(1));
}

#[test]
fn status_of_a_request() {
    assert_eq!(status_of(Some(true), Some((true, Some(404)))), 404);
    assert_eq!(status_of(Some(true), Some((true, None))), 0);
    assert_eq!(status_of(Some(false), Some((true, Some(404)))), 0);
    assert_eq!(status_of(None, Some((true, Some(404)))), 0);
    assert_eq!(status_of(Some(true), Some((false, Some(404)))), 0);
    assert_eq!(status_of(Some(true), None), 0);
}

#[test]
fn conversation_keeps_the_requests() {
    let mut list = RequestListWidget::default();
    let (tunnel, _) = tunnel_at(&mut list, b"GET /kept HTTP/1.1\r\n\r\n");
    list.run_tunnel(tunnel, TunnelEvent::Copied { upload: Some(true), download: Some((true, Some(204))) });
    listening(&mut list);
    hear(&mut list, Ok(ServerMessage::SubDomain("abc12".to_string())));
    hear(&mut list, Ok(ServerMessage::Connection(ID)));
    hear(&mut list, Err(error("what?")));
    assert_eq!(list.render().requests.rows.len(), 1);
    assert_eq!(shown_row(&list, 0)[1..], ["204", "GET", "/kept"]);
}
