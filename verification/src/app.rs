//! The program at the terminal: its command line, its keys and its screen.
use crate::requests;
use crate::requests::{
    RequestListScreen, RequestListScreenView, RequestListStateView, RequestListWidget,
};
use crate::screen::{Alignment, Heading, HeadingView, Room};
use crate::session::{SessionAction, SessionActionView, SessionStage};
use crate::text;
use vstd::prelude::*;
use vstd::utf8::*;

verus! {

/// A command line.
#[derive(Debug)]
pub struct Cli {
    /// A name, which is not used.
    pub name: Option<String>,
    pub command: Option<Commands>,
}

/// What the program can be told to do.
#[derive(Debug, Clone, Copy, PartialEq, Eq, Structural)]
pub enum Commands {
    /// Publish the local HTTP server on a port.
    Http { port: u16 },
}

/// How the program starts: what it says first, and the port of the local server
/// that it publishes, if it was told to.
#[derive(Debug)]
pub struct Start {
    pub line: String,
    pub port: Option<u16>,
}

impl Cli {
    /// How the program starts with this command line.
    pub fn start(&self) -> (r: Start)
        ensures
            match self.command {
                Some(Commands::Http { port }) => r.port == Some(port) && r.line@ == "port: "@
                    + text::decimal(port as nat),
                None => r.port is None && r.line@
                    == "invalid command, please run: portpub --help"@,
            },
    {
        match self.command {
            Some(Commands::Http { port }) => {
                let mut line: String = "port: ".to_owned();
                line.append(text::decimal_string(port).as_str());
                Start { line, port: Some(port) }
            },
            None => Start {
                line: "invalid command, please run: portpub --help".to_owned(),
                port: None,
            },
        }
    }
}

/// A key, as far as the program cares.
#[derive(Debug, Clone, Copy, PartialEq, Eq, Structural)]
pub enum KeyCode {
    Char(char),
    Esc,
    Down,
    Up,
    Other,
}

/// What was done to a key.
#[derive(Debug, Clone, Copy, PartialEq, Eq, Structural)]
pub enum KeyEventKind {
    Press,
    Repeat,
    Release,
}

/// Something that happened at the terminal.
#[derive(Debug, Clone, Copy, PartialEq, Eq, Structural)]
pub enum Event {
    Key { code: KeyCode, kind: KeyEventKind },
    Other,
}

impl Event {
    /// The key that was pressed.
    pub open spec fn pressed(self) -> Option<KeyCode> {
        match self {
            Event::Key { code, kind: KeyEventKind::Press } => Some(code),
            _ => None,
        }
    }

    /// The key, if the event is that it was pressed.
    pub fn as_key_press(&self) -> (r: Option<KeyCode>)
        ensures
            r == self.pressed(),
    {
        match *self {
            Event::Key { code, kind: KeyEventKind::Press } => Some(code),
            _ => None,
        }
    }
}

/// The program while it runs: whether it is to end, and the list of requests.
#[derive(Debug)]
pub struct App {
    should_quit: bool,
    pub requests: RequestListWidget,
}

/// The program with its texts as sequences.
#[verifier::ext_equal]
pub struct AppView {
    pub should_quit: bool,
    pub requests: RequestListStateView,
}

impl View for App {
    type V = AppView;

    closed spec fn view(&self) -> AppView {
        AppView { should_quit: self.should_quit, requests: self.requests@ }
    }
}

impl Default for App {
    fn default() -> (r: App)
        ensures
            r@ == (AppView { should_quit: false, requests: requests::initial_state() }),
    {
        App { should_quit: false, requests: RequestListWidget::default() }
    }
}

/// What a key does: `q` and escape end the program, `j` and down select the next
/// row, `k` and up the row before.
pub open spec fn after_key(app: AppView, key: KeyCode) -> AppView {
    match key {
        KeyCode::Char('q') | KeyCode::Esc => AppView { should_quit: true, ..app },
        KeyCode::Char('j') | KeyCode::Down => AppView {
            requests: RequestListStateView {
                table_state: app.requests.table_state.down(1),
                ..app.requests
            },
            ..app
        },
        KeyCode::Char('k') | KeyCode::Up => AppView {
            requests: RequestListStateView {
                table_state: app.requests.table_state.up(1),
                ..app.requests
            },
            ..app
        },
        _ => app,
    }
}

/// What an event does. Only keys that are pressed do anything.
pub open spec fn after_event(app: AppView, event: Event) -> AppView {
    match event.pressed() {
        Some(key) => after_key(app, key),
        None => app,
    }
}

/// What an event copies to the clipboard: `c` copies the address.
pub open spec fn copied_text(app: AppView, event: Event) -> Option<Seq<char>> {
    if event.pressed() == Some(KeyCode::Char('c')) {
        Some(requests::published_url(app.requests.sub_domain))
    } else {
        None
    }
}

/// How far the program has come.
#[derive(Debug, Clone, Copy, PartialEq, Eq, Structural)]
pub enum RunStage {
    /// It has not begun.
    Starting,
    /// It waits for something to happen.
    Waiting,
    /// It is drawing the screen.
    Drawing,
    /// It has ended.
    Ended,
}

/// What happens to the program. `E` is the error of a screen that cannot be drawn.
#[derive(Debug)]
pub enum RunEvent<E> {
    /// It is to publish the local server on this port.
    Start { port: u16 },
    /// It is time to draw the screen.
    Tick,
    /// Something happened at the terminal.
    Terminal(Event),
    /// The screen was drawn, or could not be.
    Drawn(Result<(), E>),
}

/// What the program does when something happens.
#[derive(Debug)]
pub struct Turn<E> {
    /// The conversation with the relay is to begin here.
    pub converse: Option<(SessionStage, SessionAction)>,
    /// The screen is to be drawn.
    pub draw: bool,
    /// This is to be copied to the clipboard.
    pub copy: Option<String>,
    /// The program ends, with this result.
    pub end: Option<Result<(), E>>,
}

/// What the program does, with its texts as sequences.
#[verifier::ext_equal]
pub struct TurnView<E> {
    pub converse: Option<(SessionStage, SessionActionView)>,
    pub draw: bool,
    pub copy: Option<Seq<char>>,
    pub end: Option<Result<(), E>>,
}

impl<E> View for Turn<E> {
    type V = TurnView<E>;

    open spec fn view(&self) -> TurnView<E> {
        TurnView {
            converse: match self.converse {
                Some((stage, action)) => Some((stage, action@)),
                None => None,
            },
            draw: self.draw,
            copy: text::optional(self.copy),
            end: self.end,
        }
    }
}

/// A turn of the program: the program after it, how far it has come, and what it
/// does.
#[verifier::ext_equal]
pub struct RunStep<E> {
    pub app: AppView,
    pub stage: RunStage,
    pub turn: TurnView<E>,
}

/// A turn in which the program does nothing.
pub open spec fn idle_turn<E>() -> TurnView<E> {
    TurnView { converse: None, draw: false, copy: None, end: None }
}

/// The program waits for something to happen, unless it is to end.
pub open spec fn at_rest<E>(app: AppView, turn: TurnView<E>) -> RunStep<E> {
    if app.should_quit {
        RunStep { app, stage: RunStage::Ended, turn: TurnView { end: Some(Ok(())), ..turn } }
    } else {
        RunStep { app, stage: RunStage::Waiting, turn }
    }
}

/// The program begins: it notes the port and begins the conversation with the
/// relay.
pub open spec fn started<E>(app: AppView, port: u16) -> RunStep<E> {
    at_rest(
        AppView { requests: RequestListStateView { local_port: port, ..app.requests }, ..app },
        TurnView {
            converse: Some((SessionStage::Connecting, SessionActionView::Connect)),
            ..idle_turn()
        },
    )
}

/// What the program does when something happens. A screen that cannot be drawn
/// ends it. What does not belong to a stage has no effect.
pub open spec fn run_step<E>(app: AppView, stage: RunStage, event: RunEvent<E>) -> RunStep<E> {
    match (stage, event) {
        (RunStage::Starting, RunEvent::Start { port }) => started(app, port),
        (RunStage::Waiting, RunEvent::Tick) => if app.should_quit {
            at_rest(app, idle_turn())
        } else {
            RunStep {
                app,
                stage: RunStage::Drawing,
                turn: TurnView { draw: true, ..idle_turn() },
            }
        },
        (RunStage::Waiting, RunEvent::Terminal(event)) => if app.should_quit {
            at_rest(app, idle_turn())
        } else {
            at_rest(
                after_event(app, event),
                TurnView { copy: copied_text(app, event), ..idle_turn() },
            )
        },
        (RunStage::Drawing, RunEvent::Drawn(Ok(()))) => at_rest(app, idle_turn()),
        (RunStage::Drawing, RunEvent::Drawn(Err(e))) => RunStep {
            app,
            stage: RunStage::Ended,
            turn: TurnView { end: Some(Err(e)), ..idle_turn() },
        },
        _ => RunStep { app, stage, turn: idle_turn() },
    }
}

/// What is shown: the title and the list below it, and the room of both.
#[derive(Debug)]
pub struct AppScreen {
    pub rooms: Vec<Room>,
    pub title: Heading,
    pub body: RequestListScreen,
}

/// What is shown, with its texts as sequences.
#[verifier::ext_equal]
pub struct AppScreenView {
    pub rooms: Seq<Room>,
    pub title: HeadingView,
    pub body: RequestListScreenView,
}

impl View for AppScreen {
    type V = AppScreenView;

    open spec fn view(&self) -> AppScreenView {
        AppScreenView { rooms: self.rooms@, title: self.title@, body: self.body@ }
    }
}

/// A turn in which the program does nothing.
fn nothing<E>() -> (r: Turn<E>)
    ensures
        r@ == idle_turn::<E>(),
{
    Turn { converse: None, draw: false, copy: None, end: None }
}

impl App {
    /// Whether the program is to end.
    pub fn should_quit(&self) -> (r: bool)
        ensures
            r == self@.should_quit,
    {
        self.should_quit
    }

    /// Lets an event at the terminal take effect, and gives what is to be copied to
    /// the clipboard.
    pub fn handle_event(&mut self, event: Event) -> (r: Option<String>)
        ensures
            final(self)@ == after_event(old(self)@, event),
            text::optional(r) == copied_text(old(self)@, event),
    {
        if let Some(key) = event.as_key_press() {
            match key {
                KeyCode::Char('q') | KeyCode::Esc => {
                    self.should_quit = true;
                    None
                },
                KeyCode::Char('j') | KeyCode::Down => {
                    self.requests.scroll_down();
                    None
                },
                KeyCode::Char('k') | KeyCode::Up => {
                    self.requests.scroll_up();
                    None
                },
                KeyCode::Char('c') => Some(self.requests.state.url()),
                _ => None,
            }
        } else {
            None
        }
    }

    /// Waits for something to happen, unless the program is to end.
    fn rest<E>(&self, turn: Turn<E>) -> (r: (RunStage, Turn<E>))
        ensures
            (RunStep { app: self@, stage: r.0, turn: r.1@ }) == at_rest(self@, turn@),
    {
        if self.should_quit {
            (RunStage::Ended, Turn { end: Some(Ok(())), ..turn })
        } else {
            (RunStage::Waiting, turn)
        }
    }

    /// One turn of the program. It begins the conversation with the relay, and then
    /// draws when it is time to and lets events take effect, until it is to end or
    /// the screen cannot be drawn.
    pub fn run<E>(&mut self, stage: RunStage, event: RunEvent<E>) -> (r: (RunStage, Turn<E>))
        ensures
            (RunStep { app: final(self)@, stage: r.0, turn: r.1@ }) == run_step(
                old(self)@,
                stage,
                event,
            ),
    {
        match (stage, event) {
            (RunStage::Starting, RunEvent::Start { port }) => {
                let begun: (SessionStage, SessionAction) = self.requests.run(port);
                self.rest(Turn { converse: Some(begun), draw: false, copy: None, end: None })
            },
            (RunStage::Waiting, RunEvent::Tick) => if self.should_quit {
                self.rest(nothing())
            } else {
                (RunStage::Drawing, Turn { draw: true, ..nothing() })
            },
            (RunStage::Waiting, RunEvent::Terminal(event)) => if self.should_quit {
                self.rest(nothing())
            } else {
                let copy: Option<String> = self.handle_event(event);
                self.rest(Turn { copy, ..nothing() })
            },
            (RunStage::Drawing, RunEvent::Drawn(drawn)) => match drawn {
                Ok(()) => self.rest(nothing()),
                Err(e) => (RunStage::Ended, Turn { end: Some(Err(e)), ..nothing() }),
            },
            _ => (stage, nothing()),
        }
    }

    /// What is shown.
    pub fn render(&self) -> (r: AppScreen)
        ensures
            r@ == (AppScreenView {
                rooms: seq![Room::Length(1), Room::Fill(1)],
                title: HeadingView {
                    text: "port.pub"@,
                    bold: true,
                    alignment: Alignment::Center,
                },
                body: requests::shown(self@.requests),
            }),
    {
        let r = AppScreen {
            rooms: vec![Room::Length(1), Room::Fill(1)],
            title: Heading {
                text: "port.pub".to_owned(),
                bold: true,
                alignment: Alignment::Center,
            },
            body: self.requests.render(),
        };
        assert(r.rooms@ =~= seq![Room::Length(1), Room::Fill(1)]);
        r
    }
}

/// The variable that tells the kind of a desktop session.
pub const SESSION_VARIABLE: &'static str = "XDG_SESSION_TYPE";

/// For how many seconds a copied text is served to other programs on X11.
pub const X11_HOLD_SECONDS: u64 = 600;

/// Whether the kind of a desktop session, if it is known, is X11.
pub open spec fn names_x11(session_type: Option<Seq<char>>) -> bool {
    session_type matches Some(kind) && text::lowercase(kind) == "x11"@
}

/// A text that may be missing.
pub open spec fn str_view(text: Option<&str>) -> Option<Seq<char>> {
    match text {
        Some(text) => Some(text@),
        None => None,
    }
}

/// Whether the kind of the desktop session, if it is known, is X11.
pub fn is_x11_session(session_type: Option<&str>) -> (r: bool)
    ensures
        r == names_x11(str_view(session_type)),
{
    match session_type {
        Some(kind) => text::to_lowercase(kind) == "x11".to_owned(),
        None => false,
    }
}

/// For how many seconds the clipboard is to be held once a text was copied to it:
/// on X11 the program that copied a text has to serve it. Nothing is held if the
/// clipboard was not there or did not take the text.
pub fn clipboard_hold(opened: bool, stored: bool, session_type: Option<&str>) -> (r: u64)
    ensures
        r == if opened && stored && names_x11(str_view(session_type)) {
            X11_HOLD_SECONDS
        } else {
            0u64
        },
{
    if opened && stored && is_x11_session(session_type) {
        X11_HOLD_SECONDS
    } else {
        0
    }
}

/// What is copied is what is shown: the address in the first row above the list.
pub proof fn law_copied_address_is_the_shown_one(app: AppView, event: Event)
    ensures
        copied_text(app, event) matches Some(text) ==> requests::shown(
            app.requests,
        ).header.rows[0][1][0].text == text,
{
}

/// Only `q` and escape, when they are pressed, end the program.
pub proof fn law_only_quit_keys_quit(app: AppView, event: Event)
    ensures
        !app.should_quit ==> (after_event(app, event).should_quit <==> event.pressed() == Some(
            KeyCode::Char('q'),
        ) || event.pressed() == Some(KeyCode::Esc)),
        app.should_quit ==> after_event(app, event).should_quit,
{
}

/// Keys change what is selected and nothing else that is shown: neither the
/// requests nor the address.
pub proof fn law_keys_keep_what_is_shown(app: AppView, event: Event)
    ensures
        requests::shown(after_event(app, event).requests) == requests::shown(app.requests),
{
}

/// A repeated or released key does nothing.
pub proof fn law_only_presses_count(app: AppView, code: KeyCode, kind: KeyEventKind)
    requires
        kind != KeyEventKind::Press,
    ensures
        after_event(app, Event::Key { code, kind }) == app,
        copied_text(app, Event::Key { code, kind }) is None,
{
}

/// The program ends with an error if and only if the screen cannot be drawn, with
/// that error and at once. It ends without one only when it is to end.
pub proof fn law_failed_draw_ends_the_program<E>(
    app: AppView,
    stage: RunStage,
    event: RunEvent<E>,
    e: E,
)
    ensures
        ({
            let next = run_step(app, stage, event);
            &&& next.turn.end == Some(Err::<(), E>(e)) <==> stage == RunStage::Drawing && event
                == RunEvent::Drawn(Err::<(), E>(e))
            &&& next.turn.end == Some(Ok::<(), E>(())) ==> next.app.should_quit
            &&& next.turn.end is Some <==> stage != RunStage::Ended && next.stage
                == RunStage::Ended
            &&& next.turn.draw <==> stage == RunStage::Waiting && next.stage == RunStage::Drawing
        }),
{
}

/// What the program finds when something happens: itself as its conversations have
/// left it, and what happens.
pub struct RunMoment<E> {
    pub app: AppView,
    pub event: RunEvent<E>,
}

/// The turns of the program, from a stage on and in one moment after the other.
pub open spec fn run_turns<E>(stage: RunStage, moments: Seq<RunMoment<E>>) -> Seq<TurnView<E>>
    decreases moments.len(),
{
    if moments.len() == 0 {
        Seq::empty()
    } else {
        let next = run_step(moments.first().app, stage, moments.first().event);
        seq![next.turn] + run_turns(next.stage, moments.drop_first())
    }
}

proof fn lemma_turns_after_the_start<E>(stage: RunStage, moments: Seq<RunMoment<E>>)
    requires
        stage != RunStage::Starting,
    ensures
        run_turns(stage, moments).len() == moments.len(),
        forall|i: int|
            0 <= i < moments.len() ==> (#[trigger] run_turns(stage, moments)[i]).converse is None,
        stage == RunStage::Ended ==> forall|i: int|
            0 <= i < moments.len() ==> #[trigger] run_turns(stage, moments)[i] == idle_turn::<E>(),
    decreases moments.len(),
{
    if moments.len() > 0 {
        let next = run_step(moments.first().app, stage, moments.first().event);
        lemma_turns_after_the_start(next.stage, moments.drop_first());
        let rest = run_turns(next.stage, moments.drop_first());
        assert(forall|i: int|
            0 < i < moments.len() ==> #[trigger] run_turns(stage, moments)[i] == rest[i - 1]);
    }
}

/// The conversation with the relay begins once, and before the screen is drawn at
/// all.
pub proof fn law_conversation_begins_once_and_first<E>(moments: Seq<RunMoment<E>>)
    ensures
        ({
            let turns = run_turns(RunStage::Starting, moments);
            &&& turns.len() == moments.len()
            &&& forall|i: int, j: int|
                0 <= i < j < moments.len() && (#[trigger] turns[i]).converse is Some ==> (
                #[trigger] turns[j]).converse is None
            &&& forall|j: int|
                0 <= j < moments.len() && (#[trigger] turns[j]).draw ==> exists|i: int|
                    0 <= i < j && (#[trigger] turns[i]).converse is Some
        }),
    decreases moments.len(),
{
    if moments.len() > 0 {
        let turns = run_turns(RunStage::Starting, moments);
        let next = run_step(moments.first().app, RunStage::Starting, moments.first().event);
        let rest = run_turns(next.stage, moments.drop_first());
        assert(turns[0] == next.turn);
        if next.stage == RunStage::Starting {
            law_conversation_begins_once_and_first(moments.drop_first());
        } else {
            lemma_turns_after_the_start(next.stage, moments.drop_first());
        }
        assert(forall|i: int| 0 < i < moments.len() ==> #[trigger] turns[i] == rest[i - 1]);
        assert forall|j: int| 0 <= j < moments.len() && (#[trigger] turns[j]).draw implies exists|
            i: int,
        |
            0 <= i < j && (#[trigger] turns[i]).converse is Some by {
            if next.stage == RunStage::Starting {
                assert(rest[j - 1].draw);
                let i = choose|i: int| 0 <= i < j - 1 && (#[trigger] rest[i]).converse is Some;
                assert(turns[i + 1].converse is Some);
            } else {
                assert(turns[0].converse is Some);
            }
        }
    }
}

/// The program ends once: after it has ended it does nothing.
pub proof fn law_program_ends_once<E>(stage: RunStage, moments: Seq<RunMoment<E>>, i: int, j: int)
    requires
        0 <= i < j < moments.len(),
        run_turns(stage, moments)[i].end is Some,
    ensures
        run_turns(stage, moments)[j] == idle_turn::<E>(),
    decreases moments.len(),
{
    let next = run_step(moments.first().app, stage, moments.first().event);
    let rest = moments.drop_first();
    if i == 0 {
        lemma_turns_after_the_start(next.stage, rest);
        assert(run_turns(stage, moments)[j] == run_turns(next.stage, rest)[j - 1]);
    } else {
        lemma_turn_count(next.stage, rest);
        law_program_ends_once(next.stage, rest, i - 1, j - 1);
    }
}

proof fn lemma_turn_count<E>(stage: RunStage, moments: Seq<RunMoment<E>>)
    ensures
        run_turns(stage, moments).len() == moments.len(),
    decreases moments.len(),
{
    if moments.len() > 0 {
        let next = run_step(moments.first().app, stage, moments.first().event);
        lemma_turn_count(next.stage, moments.drop_first());
    }
}

/// Each key does what it is for when it is pressed: `q` and escape end the program,
/// `j` and down select the next row, `k` and up the row before, and every other key
/// changes nothing. What is known but for the selected row stays as it is.
pub proof fn law_keys_do_what_they_are_for(app: AppView, code: KeyCode, row: usize)
    requires
        app.requests.table_state.selected == Some(row) || (
        app.requests.table_state.selected is None && row == 0),
    ensures
        ({
            let after = after_event(app, Event::Key { code, kind: KeyEventKind::Press });
            let (was, is) = (app.requests, after.requests);
            &&& is.requests == was.requests
            &&& is.loading_state == was.loading_state
            &&& is.top_status == was.top_status
            &&& is.sub_domain == was.sub_domain
            &&& is.local_port == was.local_port
            &&& is.table_state.offset == was.table_state.offset
            &&& if code == KeyCode::Char('j') || code == KeyCode::Down {
                is.table_state.selected == Some(
                    if row == usize::MAX {
                        row
                    } else {
                        (row + 1) as usize
                    },
                )
            } else if code == KeyCode::Char('k') || code == KeyCode::Up {
                is.table_state.selected == Some(
                    if row == 0 {
                        row
                    } else {
                        (row - 1) as usize
                    },
                )
            } else {
                is.table_state.selected == was.table_state.selected
            }
            &&& after.should_quit <==> app.should_quit || code == KeyCode::Char('q') || code
                == KeyCode::Esc
        }),
{
    requests::law_scrolling_selects_the_neighbour(app.requests.table_state, row);
}

/// The address is copied if and only if `c` is pressed, and it is all of the address.
pub proof fn law_address_is_copied_with_c(app: AppView, event: Event)
    ensures
        copied_text(app, event) is Some <==> event == (Event::Key {
            code: KeyCode::Char('c'),
            kind: KeyEventKind::Press,
        }),
        copied_text(app, event) matches Some(copied) ==> copied == "http://"@
            + app.requests.sub_domain + ".port.pub"@,
{
}

/// What is no key does nothing.
pub proof fn law_other_events_do_nothing(app: AppView)
    ensures
        after_event(app, Event::Other) == app,
        copied_text(app, Event::Other) is None,
{
}

/// The program begins with the conversation about the port that it was told, notes
/// that port, and then waits.
pub proof fn law_program_begins_with_the_conversation<E>(app: AppView, port: u16)
    ensures
        ({
            let next = run_step(app, RunStage::Starting, RunEvent::<E>::Start { port });
            &&& next.turn.converse == Some((SessionStage::Connecting, SessionActionView::Connect))
            &&& !next.turn.draw && next.turn.copy is None
            &&& next.app.requests == (RequestListStateView { local_port: port, ..app.requests })
            &&& next.app.should_quit == app.should_quit
            &&& !app.should_quit ==> next.stage == RunStage::Waiting && next.turn.end is None
            &&& app.should_quit ==> next.stage == RunStage::Ended && next.turn.end == Some(
                Ok::<(), E>(()),
            )
        }),
{
}

/// A program that waits draws whenever it is time to, and goes on when it has drawn.
pub proof fn law_program_draws_when_it_is_time<E>(app: AppView)
    requires
        !app.should_quit,
    ensures
        run_step(app, RunStage::Waiting, RunEvent::<E>::Tick) == (RunStep {
            app,
            stage: RunStage::Drawing,
            turn: TurnView::<E> { converse: None, draw: true, copy: None, end: None },
        }),
        run_step(app, RunStage::Drawing, RunEvent::<E>::Drawn(Ok(()))) == (RunStep {
            app,
            stage: RunStage::Waiting,
            turn: TurnView::<E> { converse: None, draw: false, copy: None, end: None },
        }),
{
}

/// A program that waits lets every event take its effect: the keys that end it end it
/// at once and without an error, `c` has the address copied, and after any other event
/// it waits for the next one.
pub proof fn law_program_lets_events_take_effect<E>(app: AppView, event: Event)
    requires
        !app.should_quit,
    ensures
        ({
            let next = run_step(app, RunStage::Waiting, RunEvent::<E>::Terminal(event));
            let quits = event == (Event::Key {
                code: KeyCode::Char('q'),
                kind: KeyEventKind::Press,
            }) || event == (Event::Key { code: KeyCode::Esc, kind: KeyEventKind::Press });
            &&& next.app == after_event(app, event)
            &&& next.stage == if quits {
                RunStage::Ended
            } else {
                RunStage::Waiting
            }
            &&& next.turn.end == if quits {
                Some(Ok::<(), E>(()))
            } else {
                None
            }
            &&& !next.turn.draw && next.turn.converse is None
            &&& next.turn.copy == if event == (Event::Key {
                code: KeyCode::Char('c'),
                kind: KeyEventKind::Press,
            }) {
                Some("http://"@ + app.requests.sub_domain + ".port.pub"@)
            } else {
                None
            }
        }),
{
}

/// A program that is to end does so when it would wait, and does nothing else.
pub proof fn law_program_ends_when_it_is_to<E>(app: AppView, event: Event)
    requires
        app.should_quit,
    ensures
        ({
            let ended = RunStep {
                app,
                stage: RunStage::Ended,
                turn: TurnView::<E> { converse: None, draw: false, copy: None, end: Some(Ok::<(), E>(())) },
            };
            &&& run_step(app, RunStage::Waiting, RunEvent::<E>::Tick) == ended
            &&& run_step(app, RunStage::Waiting, RunEvent::<E>::Terminal(event)) == ended
            &&& run_step(app, RunStage::Drawing, RunEvent::<E>::Drawn(Ok(()))) == ended
        }),
{
}

/// What does not belong to a stage has no effect, and once the program has ended
/// nothing has.
pub proof fn law_event_out_of_turn_has_no_effect<E>(
    app: AppView,
    stage: RunStage,
    event: RunEvent<E>,
)
    requires
        match stage {
            RunStage::Starting => event !is Start,
            RunStage::Waiting => event !is Tick && event !is Terminal,
            RunStage::Drawing => event !is Drawn,
            RunStage::Ended => true,
        },
    ensures
        run_step(app, stage, event) == (RunStep {
            app,
            stage,
            turn: TurnView::<E> { converse: None, draw: false, copy: None, end: None },
        }),
{
}

/// A desktop session is X11 if its kind is spelled so, capitalised in any way, and
/// not if the kind is not known.
pub proof fn law_x11_is_spelled_in_any_case(kind: Seq<char>)
    requires
        is_ascii_chars(kind),
    ensures
        names_x11(Some(kind)) <==> kind.len() == 3 && (kind[0] == 'x' || kind[0] == 'X') && kind[1]
            == '1' && kind[2] == '1',
        !names_x11(None),
{
    reveal_strlit("x11");
    let lowered = text::ascii_lowercase(kind);
    assert(text::lowercase(kind) == lowered);
    assert(lowered.len() == kind.len());
    assert("x11"@.len() == 3);
    if kind.len() == 3 {
        assert(lowered[0] == text::ascii_lower(kind[0]));
        assert(lowered[1] == text::ascii_lower(kind[1]));
        assert(lowered[2] == text::ascii_lower(kind[2]));
        if names_x11(Some(kind)) {
            assert("x11"@[0] == lowered[0]);
            assert("x11"@[1] == lowered[1]);
            assert("x11"@[2] == lowered[2]);
        }
        if (kind[0] == 'x' || kind[0] == 'X') && kind[1] == '1' && kind[2] == '1' {
            assert(lowered =~= "x11"@);
        }
    }
}

/// What the program does and what it shows are seen as they are.
pub proof fn law_turns_are_seen_whole<E>(turn: Turn<E>, screen: AppScreen, text: &str)
    ensures
        turn@.draw == turn.draw,
        turn@.end == turn.end,
        turn.converse is None <==> turn@.converse is None,
        turn.converse matches Some((stage, action)) ==> turn@.converse == Some((stage, action@)),
        turn.copy is None <==> turn@.copy is None,
        turn.copy matches Some(copied) ==> turn@.copy == Some(copied@),
        screen@.rooms == screen.rooms@,
        screen@.title == screen.title@,
        screen@.body == screen.body@,
        str_view(Some(text)) == Some(text@),
        str_view(None) is None,
{
}

} // verus!
