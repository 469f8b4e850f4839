//! The list of the requests that went through the tunnel, and what is shown of
//! it.
use crate::screen;
use crate::screen::{
    Alignment, Color, Heading, HeadingView, Piece, PieceView, Room, Table, TableView,
};
use crate::text;
use vstd::prelude::*;

verus! {

/// A request that went through the tunnel.
#[derive(Debug)]
pub struct Request {
    pub time: String,
    pub path: String,
    pub method: String,
    pub status: u16,
}

/// A request with its texts as sequences.
#[verifier::ext_equal]
pub struct RequestView {
    pub time: Seq<char>,
    pub path: Seq<char>,
    pub method: Seq<char>,
    pub status: u16,
}

impl View for Request {
    type V = RequestView;

    open spec fn view(&self) -> RequestView {
        RequestView {
            time: self.time@,
            path: self.path@,
            method: self.method@,
            status: self.status,
        }
    }
}

/// The texts that stand in the row of a request: time, status, method and path.
pub open spec fn request_cells(request: RequestView) -> Seq<Seq<char>> {
    seq![request.time, text::decimal(request.status as nat), request.method, request.path]
}

/// Texts as sequences.
pub open spec fn texts_view(texts: Seq<String>) -> Seq<Seq<char>> {
    texts.map_values(|t: String| t@)
}

impl Request {
    /// The texts that stand in the row of the request.
    pub fn cells(&self) -> (r: Vec<String>)
        ensures
            texts_view(r@) == request_cells(self@),
    {
        let r: Vec<String> = vec![
            self.time.clone(),
            text::decimal_string(self.status),
            self.method.clone(),
            self.path.clone(),
        ];
        assert(texts_view(r@) =~= request_cells(self@));
        r
    }
}

/// What the tunnel is doing.
#[derive(Debug, Clone, Copy, PartialEq, Eq, Structural)]
pub enum LoadingState {
    /// No visitor has come.
    Idle,
    /// A visitor is being served.
    Handling,
    /// A visitor has been served.
    Handled,
}

impl Default for LoadingState {
    fn default() -> (r: LoadingState)
        ensures
            r == LoadingState::Idle,
    {
        LoadingState::Idle
    }
}

impl LoadingState {
    /// The word for a state.
    pub open spec fn word(self) -> Seq<char> {
        match self {
            LoadingState::Idle => "Idle"@,
            LoadingState::Handling => "Handling"@,
            LoadingState::Handled => "Handled"@,
        }
    }

    /// The word for the state.
    pub fn name(&self) -> (r: String)
        ensures
            r@ == self.word(),
    {
        match self {
            LoadingState::Idle => "Idle".to_owned(),
            LoadingState::Handling => "Handling".to_owned(),
            LoadingState::Handled => "Handled".to_owned(),
        }
    }
}

/// Which rows of a table are shown: the first that is, and the one that is
/// selected.
#[derive(Debug, Clone, Copy, PartialEq, Eq, Structural)]
pub struct TableState {
    pub offset: usize,
    pub selected: Option<usize>,
}

impl TableState {
    /// The row that is selected, or the first where none is.
    pub open spec fn row(self) -> usize {
        match self.selected {
            Some(row) => row,
            None => 0,
        }
    }

    /// The table with the selection `amount` rows further down.
    pub open spec fn down(self, amount: u16) -> TableState {
        let row = if self.row() + amount <= usize::MAX {
            (self.row() + amount) as usize
        } else {
            usize::MAX
        };
        TableState { selected: Some(row), ..self }
    }

    /// The table with the selection `amount` rows further up.
    pub open spec fn up(self, amount: u16) -> TableState {
        let row = if self.row() >= amount {
            (self.row() - amount) as usize
        } else {
            0usize
        };
        TableState { selected: Some(row), ..self }
    }
}

impl Default for TableState {
    fn default() -> (r: TableState)
        ensures
            r == (TableState { offset: 0, selected: None }),
    {
        TableState { offset: 0, selected: None }
    }
}

/// `ratatui::widgets::TableState::scroll_down_by` selects a row further down,
/// counted from the first where none is selected, and up to the largest number
/// there is. The first row that is shown stays.
#[verifier::external_body]
fn scroll_down_by(table: TableState, amount: u16) -> (r: TableState)
    ensures
        r == table.down(amount),
{
    let inner = ratatui::widgets::TableState::new().with_offset(table.offset);
    let mut inner = inner.with_selected(table.selected);
    inner.scroll_down_by(amount);
    TableState { offset: inner.offset(), selected: inner.selected() }
}

/// `ratatui::widgets::TableState::scroll_up_by` selects a row further up, counted
/// from the first where none is selected, and no further than that. The first row
/// that is shown stays.
#[verifier::external_body]
fn scroll_up_by(table: TableState, amount: u16) -> (r: TableState)
    ensures
        r == table.up(amount),
{
    let inner = ratatui::widgets::TableState::new().with_offset(table.offset);
    let mut inner = inner.with_selected(table.selected);
    inner.scroll_up_by(amount);
    TableState { offset: inner.offset(), selected: inner.selected() }
}

/// What is known of a tunnel and of the requests that went through it.
#[derive(Debug)]
pub struct RequestListState {
    requests: Vec<Request>,
    loading_state: LoadingState,
    pub top_status: String,
    pub sub_domain: String,
    pub local_port: u16,
    pub table_state: TableState,
}

/// What is known of a tunnel, with its texts as sequences.
#[verifier::ext_equal]
pub struct RequestListStateView {
    pub requests: Seq<RequestView>,
    pub loading_state: LoadingState,
    pub top_status: Seq<char>,
    pub sub_domain: Seq<char>,
    pub local_port: u16,
    pub table_state: TableState,
}

/// Requests with their texts as sequences.
pub open spec fn requests_view(requests: Seq<Request>) -> Seq<RequestView> {
    requests.map_values(|r: Request| r@)
}

impl View for RequestListState {
    type V = RequestListStateView;

    closed spec fn view(&self) -> RequestListStateView {
        RequestListStateView {
            requests: requests_view(self.requests@),
            loading_state: self.loading_state,
            top_status: self.top_status@,
            sub_domain: self.sub_domain@,
            local_port: self.local_port,
            table_state: self.table_state,
        }
    }
}

/// A tunnel of which nothing is known.
pub open spec fn initial_state() -> RequestListStateView {
    RequestListStateView {
        requests: Seq::empty(),
        loading_state: LoadingState::Idle,
        top_status: Seq::empty(),
        sub_domain: Seq::empty(),
        local_port: 0,
        table_state: TableState { offset: 0, selected: None },
    }
}

impl Default for RequestListState {
    fn default() -> (r: RequestListState)
        ensures
            r@ == initial_state(),
    {
        let r = RequestListState {
            requests: Vec::new(),
            loading_state: LoadingState::Idle,
            top_status: String::new(),
            sub_domain: String::new(),
            local_port: 0,
            table_state: TableState { offset: 0, selected: None },
        };
        assert(r@ =~= initial_state());
        r
    }
}

/// The list of requests.
#[derive(Debug)]
pub struct RequestListWidget {
    pub state: RequestListState,
}

impl View for RequestListWidget {
    type V = RequestListStateView;

    open spec fn view(&self) -> RequestListStateView {
        self.state@
    }
}

impl Default for RequestListWidget {
    fn default() -> (r: RequestListWidget)
        ensures
            r@ == initial_state(),
    {
        RequestListWidget { state: RequestListState::default() }
    }
}

/// The list with one more request, which has been served.
pub open spec fn with_request(
    state: RequestListStateView,
    request: RequestView,
) -> RequestListStateView {
    RequestListStateView {
        requests: state.requests.push(request),
        loading_state: LoadingState::Handled,
        ..state
    }
}

impl RequestListWidget {
    /// Notes a request that has been served.
    pub fn add_request(&mut self, request: Request)
        ensures
            final(self)@ == with_request(old(self)@, request@),
    {
        self.state.loading_state = LoadingState::Handled;
        self.state.requests.push(request);
        assert(requests_view(self.state.requests@) =~= requests_view(
            old(self).state.requests@,
        ).push(request@));
    }

    /// Notes that a visitor is being served.
    pub fn set_handling(&mut self)
        ensures
            final(self)@ == (RequestListStateView {
                loading_state: LoadingState::Handling,
                ..old(self)@
            }),
    {
        self.state.loading_state = LoadingState::Handling;
    }

    /// Notes what is to be told about the tunnel.
    pub fn set_top_state(&mut self, status: String)
        ensures
            final(self)@ == (RequestListStateView { top_status: status@, ..old(self)@ }),
    {
        self.state.top_status = status;
    }

    /// Notes the subdomain that the local server is published at.
    pub fn set_subdomain(&mut self, subdomain: String)
        ensures
            final(self)@ == (RequestListStateView { sub_domain: subdomain@, ..old(self)@ }),
    {
        self.state.sub_domain = subdomain;
    }

    /// Notes the port of the local server.
    pub fn set_local_port(&mut self, local_port: u16)
        ensures
            final(self)@ == (RequestListStateView { local_port, ..old(self)@ }),
    {
        self.state.local_port = local_port;
    }

    /// Notes which rows are shown, once the table has been drawn.
    pub fn set_table_state(&mut self, table_state: TableState)
        ensures
            final(self)@ == (RequestListStateView { table_state, ..old(self)@ }),
    {
        self.state.table_state = table_state;
    }

    /// Selects the next row.
    pub fn scroll_down(&mut self)
        ensures
            final(self)@ == (RequestListStateView {
                table_state: old(self)@.table_state.down(1),
                ..old(self)@
            }),
    {
        self.state.table_state = scroll_down_by(self.state.table_state, 1);
    }

    /// Selects the row before.
    pub fn scroll_up(&mut self)
        ensures
            final(self)@ == (RequestListStateView {
                table_state: old(self)@.table_state.up(1),
                ..old(self)@
            }),
    {
        self.state.table_state = scroll_up_by(self.state.table_state, 1);
    }
}

/// The address at which a local server is published.
pub open spec fn published_url(sub_domain: Seq<char>) -> Seq<char> {
    "http://"@ + sub_domain + ".port.pub"@
}

impl RequestListState {
    /// The address at which the local server is published.
    pub fn url(&self) -> (r: String)
        ensures
            r@ == published_url(self@.sub_domain),
    {
        let mut r: String = "http://".to_owned();
        r.append(self.sub_domain.as_str());
        r.append(".port.pub");
        r
    }
}

/// The colour of a status code: green below 400, yellow below 500, and red from
/// there on.
pub open spec fn status_color(status: u16) -> Color {
    if status < 400 {
        Color::LightGreen
    } else if status < 500 {
        Color::LightYellow
    } else {
        Color::LightRed
    }
}

/// The row of a request.
pub open spec fn request_row(request: RequestView) -> Seq<Seq<PieceView>> {
    seq![
        seq![screen::colored(request.time, Color::Yellow)],
        seq![screen::colored(text::decimal(request.status as nat), status_color(request.status))],
        seq![screen::colored(request.method, Color::White)],
        seq![screen::colored(request.path, Color::Blue)],
    ]
}

/// The rows of requests, the latest first.
pub open spec fn request_rows(requests: Seq<RequestView>) -> Seq<Seq<Seq<PieceView>>> {
    requests.reverse().map_values(|request: RequestView| request_row(request))
}

/// The table above the list: from where to where requests go, and how to copy the
/// address.
pub open spec fn header_rows(sub_domain: Seq<char>, local_port: u16) -> Seq<Seq<Seq<PieceView>>> {
    seq![
        seq![
            seq![screen::plain("Forwarding: "@)],
            seq![
                screen::colored(published_url(sub_domain), Color::LightGreen),
                screen::plain(" -> localhost:"@ + text::decimal(local_port as nat)),
            ],
        ],
        seq![
            seq![screen::plain("Copy to clipboard"@)],
            seq![screen::colored("<c>"@, Color::LightGreen)],
        ],
    ]
}

/// What is shown of the list: the table above it and the room of both, whether
/// there is a border around the list, the headings on the border, and the table of
/// the requests.
#[derive(Debug)]
pub struct RequestListScreen {
    pub rooms: Vec<Room>,
    pub header: Table,
    pub bordered: bool,
    pub title: Heading,
    pub loading: Heading,
    pub bottom: Heading,
    pub requests: Table,
}

/// What is shown of the list, with its texts as sequences.
#[verifier::ext_equal]
pub struct RequestListScreenView {
    pub rooms: Seq<Room>,
    pub header: TableView,
    pub bordered: bool,
    pub title: HeadingView,
    pub loading: HeadingView,
    pub bottom: HeadingView,
    pub requests: TableView,
}

impl View for RequestListScreen {
    type V = RequestListScreenView;

    open spec fn view(&self) -> RequestListScreenView {
        RequestListScreenView {
            rooms: self.rooms@,
            header: self.header@,
            bordered: self.bordered,
            title: self.title@,
            loading: self.loading@,
            bottom: self.bottom@,
            requests: self.requests@,
        }
    }
}

/// What is shown of what is known.
pub open spec fn shown(state: RequestListStateView) -> RequestListScreenView {
    RequestListScreenView {
        rooms: seq![Room::Length(2), Room::Min(0)],
        header: TableView {
            rows: header_rows(state.sub_domain, state.local_port),
            widths: seq![Room::Length(20), Room::Fill(1)],
            highlight_symbol: ">>"@,
            highlight_column_kept: true,
            highlight_color: Color::Blue,
        },
        bordered: true,
        title: HeadingView { text: "Requests"@, bold: false, alignment: Alignment::Left },
        loading: HeadingView {
            text: state.loading_state.word(),
            bold: false,
            alignment: Alignment::Right,
        },
        bottom: HeadingView {
            text: "j/k to scroll, q to quit"@,
            bold: false,
            alignment: Alignment::Left,
        },
        requests: TableView {
            rows: request_rows(state.requests),
            widths: seq![Room::Length(20), Room::Max(4), Room::Max(5), Room::Fill(1)],
            highlight_symbol: ">>"@,
            highlight_column_kept: true,
            highlight_color: Color::DarkGray,
        },
    }
}

/// The colour of a status code.
pub fn color_of_status(status: u16) -> (r: Color)
    ensures
        r == status_color(status),
{
    if status < 400 {
        Color::LightGreen
    } else if status < 500 {
        Color::LightYellow
    } else {
        Color::LightRed
    }
}

/// A cell of one text in a colour.
fn color_cell(text: &String, color: Color) -> (r: Vec<Piece>)
    ensures
        screen::cell_view(r@) == seq![screen::colored(text@, color)],
{
    screen::cell(screen::color_piece(text.clone(), color))
}

impl Request {
    /// The row of the request.
    pub fn row(&self) -> (r: Vec<Vec<Piece>>)
        ensures
            screen::row_view(r@) == request_row(self@),
    {
        let cells: Vec<String> = self.cells();
        assert(texts_view(cells@).len() == 4);
        assert(forall|i: int| 0 <= i < 4 ==> texts_view(cells@)[i] == #[trigger] cells@[i]@);
        let r: Vec<Vec<Piece>> = vec![
            color_cell(&cells[0], Color::Yellow),
            color_cell(&cells[1], color_of_status(self.status)),
            color_cell(&cells[2], Color::White),
            color_cell(&cells[3], Color::Blue),
        ];
        assert(screen::row_view(r@) =~= request_row(self@));
        r
    }
}

impl RequestListState {
    /// The table above the list.
    fn header(&self) -> (r: Table)
        ensures
            r@ == shown(self@).header,
    {
        let mut local: String = " -> localhost:".to_owned();
        local.append(text::decimal_string(self.local_port).as_str());
        let forward: Vec<Piece> = vec![
            screen::color_piece(self.url(), Color::LightGreen),
            screen::plain_piece(local),
        ];
        assert(screen::cell_view(forward@) =~= seq![
            screen::colored(published_url(self@.sub_domain), Color::LightGreen),
            screen::plain(local@),
        ]);
        let copy: Vec<Piece> = screen::cell(
            screen::color_piece("<c>".to_owned(), Color::LightGreen),
        );
        let rows: Vec<Vec<Vec<Piece>>> = vec![
            screen::row_of_two(
                screen::cell(screen::plain_piece("Forwarding: ".to_owned())),
                forward,
            ),
            screen::row_of_two(
                screen::cell(screen::plain_piece("Copy to clipboard".to_owned())),
                copy,
            ),
        ];
        assert(screen::rows_view(rows@) =~= header_rows(self@.sub_domain, self@.local_port));
        let r = Table {
            rows,
            widths: vec![Room::Length(20), Room::Fill(1)],
            highlight_symbol: ">>".to_owned(),
            highlight_column_kept: true,
            highlight_color: Color::Blue,
        };
        assert(r@ =~= shown(self@).header);
        r
    }

    /// The rows of the requests, the latest first.
    fn rows(&self) -> (r: Vec<Vec<Vec<Piece>>>)
        ensures
            screen::rows_view(r@) == request_rows(self@.requests),
    {
        let mut r: Vec<Vec<Vec<Piece>>> = Vec::new();
        let n: usize = self.requests.len();
        let mut i: usize = 0;
        while i < n
            invariant
                n == self.requests@.len(),
                0 <= i <= n,
                screen::rows_view(r@) =~= request_rows(self@.requests).take(i as int),
            decreases n - i,
        {
            let row: Vec<Vec<Piece>> = self.requests[n - 1 - i].row();
            let ghost before = r@;
            r.push(row);
            proof {
                assert(self@.requests[n - 1 - i] == self.requests@[n - 1 - i]@);
                assert(request_rows(self@.requests)[i as int] == screen::row_view(row@));
                assert(screen::rows_view(r@) =~= screen::rows_view(before).push(
                    screen::row_view(row@),
                ));
                assert(request_rows(self@.requests).take(i + 1) =~= request_rows(
                    self@.requests,
                ).take(i as int).push(screen::row_view(row@)));
            }
            i += 1;
        }
        assert(request_rows(self@.requests).take(n as int) =~= request_rows(self@.requests));
        r
    }
}

impl RequestListWidget {
    /// What is shown of the list.
    pub fn render(&self) -> (r: RequestListScreen)
        ensures
            r@ == shown(self@),
    {
        let requests = Table {
            rows: self.state.rows(),
            widths: vec![Room::Length(20), Room::Max(4), Room::Max(5), Room::Fill(1)],
            highlight_symbol: ">>".to_owned(),
            highlight_column_kept: true,
            highlight_color: Color::DarkGray,
        };
        assert(requests@ =~= shown(self@).requests);
        let r = RequestListScreen {
            rooms: vec![Room::Length(2), Room::Min(0)],
            header: self.state.header(),
            bordered: true,
            title: Heading {
                text: "Requests".to_owned(),
                bold: false,
                alignment: Alignment::Left,
            },
            loading: Heading {
                text: self.state.loading_state.name(),
                bold: false,
                alignment: Alignment::Right,
            },
            bottom: Heading {
                text: "j/k to scroll, q to quit".to_owned(),
                bold: false,
                alignment: Alignment::Left,
            },
            requests,
        };
        assert(r@ =~= shown(self@));
        r
    }
}

/// The latest request is shown first, above the rows that were shown before.
pub proof fn law_latest_request_comes_first(state: RequestListStateView, request: RequestView)
    ensures
        shown(with_request(state, request)).requests.rows == seq![request_row(request)] + shown(
            state,
        ).requests.rows,
        shown(with_request(state, request)).loading.text == "Handled"@,
{
    assert(shown(with_request(state, request)).requests.rows =~= seq![request_row(request)] + shown(
        state,
    ).requests.rows);
}

/// Every request has one row, in the reverse of the order in which they came.
pub proof fn law_every_request_has_its_row(state: RequestListStateView, i: int)
    requires
        0 <= i < state.requests.len(),
    ensures
        shown(state).requests.rows.len() == state.requests.len(),
        shown(state).requests.rows[state.requests.len() - 1 - i] == request_row(state.requests[i]),
{
}

/// Scrolling down and up again leads back to the row, unless there is no row
/// further down.
pub proof fn law_up_undoes_down(table: TableState, amount: u16)
    requires
        table.row() + amount <= usize::MAX,
    ensures
        table.down(amount).up(amount).row() == table.row(),
        table.down(amount).up(amount).offset == table.offset,
{
}

/// The row of a request shows the request: its time, its status in decimal digits,
/// its method and its path, each whole and in a cell of its own. The status is green
/// below 400, yellow below 500, and red from there on.
pub proof fn law_row_shows_the_request(state: RequestListStateView, i: int)
    requires
        0 <= i < state.requests.len(),
    ensures
        ({
            let row = shown(state).requests.rows[state.requests.len() - 1 - i];
            let request = state.requests[i];
            &&& shown(state).requests.rows.len() == state.requests.len()
            &&& row.len() == 4
            &&& forall|k: int| 0 <= k < 4 ==> (#[trigger] row[k]).len() == 1
            &&& row[0][0].text == request.time && row[0][0].color == Some(Color::Yellow)
            &&& row[1][0].text == text::decimal(request.status as nat)
            &&& request.status < 400 <==> row[1][0].color == Some(Color::LightGreen)
            &&& 400 <= request.status < 500 <==> row[1][0].color == Some(Color::LightYellow)
            &&& request.status >= 500 <==> row[1][0].color == Some(Color::LightRed)
            &&& row[2][0].text == request.method && row[2][0].color == Some(Color::White)
            &&& row[3][0].text == request.path && row[3][0].color == Some(Color::Blue)
        }),
{
}

/// The table above the list shows where visitors find the local server and where that
/// is: the address with the whole name, and the port in decimal digits.
pub proof fn law_header_shows_address_and_port(state: RequestListStateView)
    ensures
        ({
            let rows = shown(state).header.rows;
            &&& rows.len() == 2
            &&& rows[0].len() == 2 && rows[1].len() == 2
            &&& rows[0][0] == seq![PieceView { text: "Forwarding: "@, color: None }]
            &&& rows[0][1].len() == 2
            &&& rows[0][1][0].text == "http://"@ + state.sub_domain + ".port.pub"@
            &&& rows[0][1][0].color == Some(Color::LightGreen)
            &&& rows[0][1][1].text == " -> localhost:"@ + text::decimal(state.local_port as nat)
            &&& rows[0][1][1].color is None
            &&& rows[1][0] == seq![PieceView { text: "Copy to clipboard"@, color: None }]
            &&& rows[1][1] == seq![PieceView { text: "<c>"@, color: Some(Color::LightGreen) }]
            &&& published_url(state.sub_domain) == rows[0][1][0].text
        }),
{
}

/// What stands around the requests is the same whatever is known, but for the word
/// that tells what the tunnel is doing.
pub proof fn law_frame_of_the_list_stays(state: RequestListStateView)
    ensures
        ({
            let screen = shown(state);
            &&& screen.rooms == seq![Room::Length(2), Room::Min(0)]
            &&& screen.bordered
            &&& screen.title.text == "Requests"@ && screen.title.alignment == Alignment::Left
            &&& screen.bottom.text == "j/k to scroll, q to quit"@
            &&& screen.bottom.alignment == Alignment::Left
            &&& screen.loading.alignment == Alignment::Right
            &&& !screen.title.bold && !screen.loading.bold && !screen.bottom.bold
            &&& state.loading_state == LoadingState::Idle ==> screen.loading.text == "Idle"@
            &&& state.loading_state == LoadingState::Handling ==> screen.loading.text
                == "Handling"@
            &&& state.loading_state == LoadingState::Handled ==> screen.loading.text == "Handled"@
            &&& screen.header.widths == seq![Room::Length(20), Room::Fill(1)]
            &&& screen.requests.widths == seq![
                Room::Length(20),
                Room::Max(4),
                Room::Max(5),
                Room::Fill(1),
            ]
            &&& screen.header.highlight_symbol == ">>"@ && screen.requests.highlight_symbol
                == ">>"@
            &&& screen.header.highlight_column_kept && screen.requests.highlight_column_kept
            &&& screen.header.highlight_color == Color::Blue
            &&& screen.requests.highlight_color == Color::DarkGray
        }),
{
}

/// A request that is added comes behind all the others, and none of them is lost or
/// changed. With it the tunnel is done, and nothing else of what is known changes.
pub proof fn law_added_request_comes_last(state: RequestListStateView, request: RequestView)
    ensures
        ({
            let after = with_request(state, request);
            &&& after.requests.len() == state.requests.len() + 1
            &&& after.requests.drop_last() == state.requests
            &&& after.requests.last() == request
            &&& after.loading_state == LoadingState::Handled
            &&& after.top_status == state.top_status
            &&& after.sub_domain == state.sub_domain
            &&& after.local_port == state.local_port
            &&& after.table_state == state.table_state
        }),
{
    assert(with_request(state, request).requests.drop_last() =~= state.requests);
}

/// The texts of a request are its time, its status, its method and its path.
pub proof fn law_cells_are_the_request(request: RequestView)
    ensures
        request_cells(request).len() == 4,
        request_cells(request)[0] == request.time,
        request_cells(request)[1] == text::decimal(request.status as nat),
        request_cells(request)[2] == request.method,
        request_cells(request)[3] == request.path,
{
}

/// Before anything happens nothing is known: no request, no name, nothing to tell,
/// and no row is selected.
pub proof fn law_nothing_is_known_at_first()
    ensures
        initial_state().requests.len() == 0,
        initial_state().loading_state == LoadingState::Idle,
        initial_state().top_status.len() == 0,
        initial_state().sub_domain.len() == 0,
        initial_state().local_port == 0,
        initial_state().table_state.offset == 0,
        initial_state().table_state.selected is None,
{
}

/// Scrolling by one row selects the next row or the one before, counted from the
/// first where none is selected, and stops at both ends. What is shown first stays.
pub proof fn law_scrolling_selects_the_neighbour(table: TableState, row: usize)
    requires
        table.selected == Some(row) || (table.selected is None && row == 0),
    ensures
        table.down(1).selected == Some(
            if row == usize::MAX {
                row
            } else {
                (row + 1) as usize
            },
        ),
        table.up(1).selected == Some(
            if row == 0 {
                row
            } else {
                (row - 1) as usize
            },
        ),
        table.down(1).offset == table.offset,
        table.up(1).offset == table.offset,
{
}

/// A request, its texts and the screen are seen as they are.
pub proof fn law_requests_are_seen_whole(
    request: Request,
    texts: Seq<String>,
    all: Seq<Request>,
    i: int,
    screen: RequestListScreen,
    list: RequestListWidget,
)
    ensures
        request@.time == request.time@,
        request@.path == request.path@,
        request@.method == request.method@,
        request@.status == request.status,
        texts_view(texts).len() == texts.len(),
        0 <= i < texts.len() ==> texts_view(texts)[i] == texts[i]@,
        requests_view(all).len() == all.len(),
        0 <= i < all.len() ==> requests_view(all)[i] == all[i]@,
        screen@.rooms == screen.rooms@,
        screen@.header == screen.header@,
        screen@.bordered == screen.bordered,
        screen@.title == screen.title@,
        screen@.loading == screen.loading@,
        screen@.bottom == screen.bottom@,
        screen@.requests == screen.requests@,
        list@ == list.state@,
{
}

} // verus!
