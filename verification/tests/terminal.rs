use portpub::app::{
    clipboard_hold, is_x11_session, App, Cli, Commands, Event, KeyCode, KeyEventKind, RunEvent,
    RunStage, Turn,
};
use portpub::requests::{color_of_status, Request, RequestListWidget, TableState};
use portpub::screen::{Alignment, Color, Heading, Room};
use portpub::session::{SessionAction, SessionStage};

fn press(code: KeyCode) -> Event {
    Event::Key { code, kind: KeyEventKind::Press }
}

/// A program that has begun and waits for something to happen.
fn waiting() -> App {
    let mut app = App::default();
    let (stage, _) = step(&mut app, RunStage::Starting, RunEvent::Start { port: 8081 });
    assert_eq!(stage, RunStage::Waiting);
    app
}

/// One turn of the program, where a failed drawing is told by a number.
fn step(app: &mut App, stage: RunStage, event: RunEvent<u8>) -> (RunStage, Turn<u8>) {
    app.run(stage, event)
}

fn is_idle(turn: &Turn<u8>) -> bool {
    turn.converse.is_none() && !turn.draw && turn.copy.is_none() && turn.end.is_none()
}

fn assert_heading(heading: &Heading, text: &str, bold: bool, alignment: Alignment) {
    assert_eq!(heading.text, text);
    assert_eq!(heading.bold, bold);
    assert_eq!(heading.alignment, alignment);
}

fn request(path: &str, status: u16) -> Request {
    Request {
        time: "t".to_string(),
        path: path.to_string(),
        method: "GET".to_string(),
        status,
    }
}

#[test]
fn command_line() {
    let cli = Cli { name: None, command: Some(Commands::Http { port: 8081 }) };
    assert_eq!(cli.start().line, "port: 8081");
    assert_eq!(cli.start().port, Some(8081));
    let cli = Cli { name: Some("x".to_string()), command: None };
    assert_eq!(cli.start().line, "invalid command, please run: portpub --help");
    assert_eq!(cli.start().port, None);
}

#[test]
fn keys_that_end_the_program() {
    for code in [KeyCode::Char('q'), KeyCode::Esc] {
        let mut app = waiting();
        assert!(!app.should_quit());
        let (stage, turn) = step(&mut app, RunStage::Waiting, RunEvent::Terminal(press(code)));
        assert_eq!(stage, RunStage::Ended);
        assert_eq!(turn.end, Some(Ok(())));
        assert!(!turn.draw && turn.copy.is_none() && turn.converse.is_none());
        assert!(app.should_quit());
        for event in [
            RunEvent::Start { port: 1 },
            RunEvent::Tick,
            RunEvent::Terminal(press(KeyCode::Char('c'))),
            RunEvent::Drawn(Err(1)),
        ] {
            let (stage, turn) = step(&mut app, RunStage::Ended, event);
            assert_eq!(stage, RunStage::Ended);
            assert!(is_idle(&turn));
        }
        let (stage, turn) = step(&mut app, RunStage::Waiting, RunEvent::Tick);
        assert_eq!(stage, RunStage::Ended);
        assert!(!turn.draw && turn.end == Some(Ok(())));
    }
}

#[test]
fn conversation_begins_once_and_before_drawing() {
    let mut app = App::default();
    for event in [RunEvent::Tick, RunEvent::Terminal(press(KeyCode::Esc)), RunEvent::Drawn(Ok(()))] {
        let (stage, turn) = step(&mut app, RunStage::Starting, event);
        assert_eq!(stage, RunStage::Starting);
        assert!(is_idle(&turn));
    }
    let (stage, turn) = step(&mut app, RunStage::Starting, RunEvent::Start { port: 8081 });
    assert_eq!(stage, RunStage::Waiting);
    assert!(matches!(turn.converse, Some((SessionStage::Connecting, SessionAction::Connect))));
    assert!(!turn.draw && turn.copy.is_none() && turn.end.is_none());
    assert_eq!(app.requests.state.local_port, 8081);
    let (stage, turn) = step(&mut app, stage, RunEvent::Start { port: 1 });
    assert_eq!(stage, RunStage::Waiting);
    assert!(is_idle(&turn));
    assert_eq!(app.requests.state.local_port, 8081);
    let (stage, turn) = step(&mut app, stage, RunEvent::Tick);
    assert_eq!(stage, RunStage::Drawing);
    assert!(turn.draw && turn.converse.is_none() && turn.copy.is_none() && turn.end.is_none());
}

#[test]
fn failed_draw_ends_the_program() {
    let mut app = waiting();
    let mut stage = RunStage::Waiting;
    for _ in 0..3 {
        let (drawing, turn) = step(&mut app, stage, RunEvent::Tick);
        assert!(turn.draw);
        let (drawn, turn) = step(&mut app, drawing, RunEvent::Drawn(Ok(())));
        assert_eq!(drawn, RunStage::Waiting);
        assert!(is_idle(&turn));
        stage = drawn;
    }
    let (drawing, _) = step(&mut app, stage, RunEvent::Tick);
    let (stage, turn) = step(&mut app, drawing, RunEvent::Drawn(Err(7)));
    assert_eq!(stage, RunStage::Ended);
    assert_eq!(turn.end, Some(Err(7)));
    assert!(!app.should_quit());
    let (stage, turn) = step(&mut app, stage, RunEvent::Tick);
    assert_eq!(stage, RunStage::Ended);
    assert!(is_idle(&turn));
}

#[test]
fn copied_text_goes_with_its_turn() {
    let mut app = waiting();
    app.requests.set_subdomain("abc12".to_string());
    let event = RunEvent::Terminal(press(KeyCode::Char('c')));
    let (stage, turn) = step(&mut app, RunStage::Waiting, event);
    assert_eq!(stage, RunStage::Waiting);
    assert_eq!(turn.copy.as_deref(), Some("http://abc12.port.pub"));
    assert!(!turn.draw && turn.end.is_none());
}

#[test]
fn keys_that_scroll() {
    let mut app = App::default();
    app.handle_event(press(KeyCode::Char('j')));
    assert_eq!(app.requests.state.table_state.selected, Some(1));
    app.handle_event(press(KeyCode::Down));
    assert_eq!(app.requests.state.table_state.selected, Some(2));
    app.handle_event(press(KeyCode::Char('k')));
    app.handle_event(press(KeyCode::Up));
    app.handle_event(press(KeyCode::Up));
    assert_eq!(app.requests.state.table_state.selected, Some(0));
    assert!(!app.should_quit());
}

#[test]
fn keys_that_do_nothing() {
    let mut app = waiting();
    for event in [
        Event::Other,
        press(KeyCode::Other),
        press(KeyCode::Char('x')),
        press(KeyCode::Char('Q')),
        Event::Key { code: KeyCode::Char('q'), kind: KeyEventKind::Release },
        Event::Key { code: KeyCode::Char('c'), kind: KeyEventKind::Repeat },
    ] {
        let (stage, turn) = step(&mut app, RunStage::Waiting, RunEvent::Terminal(event));
        assert_eq!(stage, RunStage::Waiting);
        assert!(is_idle(&turn));
    }
    assert_eq!(app.requests.state.table_state, TableState { offset: 0, selected: None });
}

#[test]
fn copied_address_is_the_shown_one() {
    let mut app = App::default();
    app.requests.set_subdomain("abc12".to_string());
    let copied = app.handle_event(press(KeyCode::Char('c'))).unwrap();
    assert_eq!(copied, "http://abc12.port.pub");
    assert_eq!(app.render().body.header.rows[0][1][0].text, copied);
}

#[test]
fn scrolling_stops_at_both_ends() {
    let mut list = RequestListWidget::default();
    list.scroll_up();
    assert_eq!(list.state.table_state.selected, Some(0));
    list.set_table_state(TableState { offset: 3, selected: Some(usize::MAX) });
    list.scroll_down();
    assert_eq!(list.state.table_state, TableState { offset: 3, selected: Some(usize::MAX) });
    list.scroll_up();
    assert_eq!(list.state.table_state, TableState { offset: 3, selected: Some(usize::MAX - 1) });
    list.scroll_down();
    assert_eq!(list.state.table_state.selected, Some(usize::MAX));
}

#[test]
fn latest_request_comes_first() {
    let mut list = RequestListWidget::default();
    list.add_request(request("/a", 200));
    list.add_request(request("/b", 404));
    list.add_request(request("/c", 500));
    let rows = list.render().requests.rows;
    let paths: Vec<&str> = rows.iter().map(|row| row[3][0].text.as_str()).collect();
    assert_eq!(paths, ["/c", "/b", "/a"]);
    let colors: Vec<Option<Color>> = rows.iter().map(|row| row[1][0].color).collect();
    assert_eq!(
        colors,
        [Some(Color::LightRed), Some(Color::LightYellow), Some(Color::LightGreen)]
    );
    assert_eq!(rows[0][0][0].color, Some(Color::Yellow));
    assert_eq!(rows[0][2][0].color, Some(Color::White));
    assert_eq!(rows[0][3][0].color, Some(Color::Blue));
    assert_eq!(list.render().loading.text, "Handled");
}

#[test]
fn cells_of_a_request() {
    assert_eq!(request("/a", 0).cells(), ["t", "0", "GET", "/a"]);
    assert_eq!(request("/a", 65535).cells(), ["t", "65535", "GET", "/a"]);
}

#[test]
fn colors_of_status_codes() {
    for (status, color) in [
        (0, Color::LightGreen),
        (399, Color::LightGreen),
        (400, Color::LightYellow),
        (499, Color::LightYellow),
        (500, Color::LightRed),
        (65535, Color::LightRed),
    ] {
        assert_eq!(color_of_status(status), color);
    }
}

#[test]
fn screen_around_the_list() {
    let mut app = App::default();
    app.requests.set_local_port(8081);
    app.requests.set_top_state("trouble".to_string());
    assert_eq!(app.requests.state.top_status, "trouble");
    let screen = app.render();
    assert_heading(&screen.title, "port.pub", true, Alignment::Center);
    assert_eq!(screen.rooms, [Room::Length(1), Room::Fill(1)]);
    let body = screen.body;
    assert_eq!(body.rooms, [Room::Length(2), Room::Min(0)]);
    assert!(body.bordered);
    assert_heading(&body.title, "Requests", false, Alignment::Left);
    assert_heading(&body.loading, "Idle", false, Alignment::Right);
    assert_heading(&body.bottom, "j/k to scroll, q to quit", false, Alignment::Left);
    assert_eq!(body.header.rows[0][0][0].text, "Forwarding: ");
    assert_eq!(body.header.rows[0][1][0].text, "http://.port.pub");
    assert_eq!(body.header.rows[0][1][0].color, Some(Color::LightGreen));
    assert_eq!(body.header.rows[0][1][1].text, " -> localhost:8081");
    assert_eq!(body.header.rows[0][1][1].color, None);
    assert_eq!(body.header.rows[1][0][0].text, "Copy to clipboard");
    assert_eq!(body.header.rows[1][1][0].text, "<c>");
    assert_eq!(body.header.widths, [Room::Length(20), Room::Fill(1)]);
    assert_eq!(body.header.highlight_color, Color::Blue);
    assert!(body.header.highlight_column_kept);
    assert!(body.requests.highlight_column_kept);
    let widths = [Room::Length(20), Room::Max(4), Room::Max(5), Room::Fill(1)];
    assert_eq!(body.requests.widths, widths);
    assert_eq!(body.requests.highlight_symbol, ">>");
    assert_eq!(body.requests.highlight_color, Color::DarkGray);
    assert!(body.requests.rows.is_empty());
}

#[test]
fn kinds_of_desktop_sessions() {
    assert!(is_x11_session(Some("x11")));
    assert!(is_x11_session(Some("X11")));
    assert!(!is_x11_session(Some("wayland")));
    assert!(!is_x11_session(Some("")));
    assert!(!is_x11_session(None));
}

#[test]
fn clipboard_is_held_on_x11() {
    assert_eq!(clipboard_hold(true, true, Some("X11")), 600);
    assert_eq!(clipboard_hold(true, true, Some("wayland")), 0);
    assert_eq!(clipboard_hold(true, true, None), 0);
    assert_eq!(clipboard_hold(false, true, Some("x11")), 0);
    assert_eq!(clipboard_hold(true, false, Some("x11")), 0);
}

#[test]
fn keys_keep_what_is_shown() {
    let mut app = App::default();
    app.requests.set_subdomain("abc12".to_string());
    app.requests.add_request(request("/a", 200));
    let before = format!("{:?}", app.render());
    for code in ['j', 'k', 'c', 'x', 'q'] {
        app.handle_event(press(KeyCode::Char(code)));
        assert_eq!(format!("{:?}", app.render()), before);
    }
}
