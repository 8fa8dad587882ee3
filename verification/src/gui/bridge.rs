//! What the background thread does for the window: it takes commands one by
//! one, knows what is running, and decides what is to be done.

use std::collections::HashSet;

use vstd::prelude::*;

use crate::exec::text_pairs;
use crate::gui::app::RunCommand;
use crate::protocols::{GrpcResponse, SseEvent, WsEvent};
use crate::runner::resolve::{address_text, parse_address, url_parsed};
use crate::runner::run::RunEvent;
use crate::text::{cat2, cat3, cat5, replace_all, replaced};
use crate::view::{group_views, opt_view, views};

verus! {

broadcast use vstd::string::group_string_axioms;

/// A call of a unary gRPC method.
#[derive(Debug)]
pub struct GrpcCall {
    pub call_id: u64,
    pub protos: Vec<String>,
    pub endpoint: String,
    pub method: String,
    pub request_json: String,
    pub metadata: Vec<(String, String)>,
}

/// A command of the window.
#[derive(Debug)]
pub enum Cmd {
    Run(RunCommand),
    Cancel { run_id: u64 },
    /// Open a WebSocket connection.
    WsConnect { conn_id: u64, url: String, headers: Vec<(String, String)> },
    WsSend { conn_id: u64, msg: String },
    WsClose { conn_id: u64 },
    /// Follow a stream of server-sent events.
    SseSubscribe { conn_id: u64, url: String, headers: Vec<(String, String)> },
    SseClose { conn_id: u64 },
    GrpcCall(GrpcCall),
    ListCookies,
    RemoveCookie { domain: String, name: String },
    ClearCookies,
    /// Take the cookies of the file at `path` in place of those in the jar, and
    /// save the jar there from now on.
    LoadCookies { path: String },
    Shutdown,
}

/// An event for the window.
#[derive(Debug)]
#[allow(inconsistent_fields)]
pub enum Evt {
    Run { run_id: u64, event: RunEvent },
    /// The run could not start.
    RunFailed { run_id: u64, error: String },
    Ws { conn_id: u64, event: WsEvent },
    Sse { conn_id: u64, event: SseEvent },
    /// What is in the jar.
    Cookies(Vec<StoredCookie>),
    Grpc { call_id: u64, result: Result<GrpcResponse, String> },
}

/// Something that is to be done.
#[derive(Debug)]
pub enum Action {
    StartRun(RunCommand),
    CancelRun { run_id: u64 },
    OpenWs { conn_id: u64, url: String, headers: Vec<(String, String)> },
    SendWs { conn_id: u64, msg: String },
    CloseWs { conn_id: u64 },
    OpenSse { conn_id: u64, url: String, headers: Vec<(String, String)> },
    CancelSse { conn_id: u64 },
    CallGrpc(GrpcCall),
    /// Tell the window what is in the jar.
    ReportCookies,
    DropCookie { domain: String, name: String },
    DropAllCookies,
    /// Add the cookies of a file to the jar; one that cannot be read has none.
    ReadCookies { path: String },
    SaveCookies { path: String },
    Stop,
}

/// A task that runs beside the thread has come to a point.
#[derive(Debug, Clone, Copy, PartialEq, Eq, Structural)]
pub enum TaskEvent {
    RunEnded(u64),
    WsOpened(u64),
    WsEnded(u64),
    SseEnded(u64),
}

/// What the thread knows.
#[derive(Debug)]
pub struct BridgeState {
    /// The runs that can be cancelled.
    pub runs: HashSet<u64>,
    /// The open WebSocket connections.
    pub sockets: HashSet<u64>,
    /// The streams that can be cancelled.
    pub streams: HashSet<u64>,
    /// Where the jar is saved.
    pub cookie_path: Option<String>,
}

/// What [`BridgeState`] holds.
pub struct BridgeV {
    pub runs: Set<u64>,
    pub sockets: Set<u64>,
    pub streams: Set<u64>,
    pub cookie_path: Option<Seq<char>>,
}

impl View for BridgeState {
    type V = BridgeV;

    open spec fn view(&self) -> BridgeV {
        BridgeV {
            runs: self.runs@,
            sockets: self.sockets@,
            streams: self.streams@,
            cookie_path: opt_view(self.cookie_path),
        }
    }
}

/// What an [`Action`] says.
pub enum ActionV {
    StartRun(RunCommand),
    CancelRun(u64),
    OpenWs(u64, Seq<char>, Seq<(Seq<char>, Seq<char>)>),
    SendWs(u64, Seq<char>),
    CloseWs(u64),
    OpenSse(u64, Seq<char>, Seq<(Seq<char>, Seq<char>)>),
    CancelSse(u64),
    CallGrpc(GrpcCall),
    ReportCookies,
    DropCookie(Seq<char>, Seq<char>),
    DropAllCookies,
    ReadCookies(Seq<char>),
    SaveCookies(Seq<char>),
    Stop,
}

impl View for Action {
    type V = ActionV;

    open spec fn view(&self) -> ActionV {
        match self {
            Action::StartRun(run) => ActionV::StartRun(*run),
            Action::CancelRun { run_id } => ActionV::CancelRun(*run_id),
            Action::OpenWs { conn_id, url, headers } => ActionV::OpenWs(*conn_id, url@, text_pairs(headers@)),
            Action::SendWs { conn_id, msg } => ActionV::SendWs(*conn_id, msg@),
            Action::CloseWs { conn_id } => ActionV::CloseWs(*conn_id),
            Action::OpenSse { conn_id, url, headers } => ActionV::OpenSse(*conn_id, url@, text_pairs(headers@)),
            Action::CancelSse { conn_id } => ActionV::CancelSse(*conn_id),
            Action::CallGrpc(call) => ActionV::CallGrpc(*call),
            Action::ReportCookies => ActionV::ReportCookies,
            Action::DropCookie { domain, name } => ActionV::DropCookie(domain@, name@),
            Action::DropAllCookies => ActionV::DropAllCookies,
            Action::ReadCookies { path } => ActionV::ReadCookies(path@),
            Action::SaveCookies { path } => ActionV::SaveCookies(path@),
            Action::Stop => ActionV::Stop,
        }
    }
}

/// The jar is saved where a place for it is known.
pub open spec fn saving(path: Option<Seq<char>>) -> Seq<ActionV> {
    match path {
        Some(path) => seq![ActionV::SaveCookies(path)],
        None => seq![],
    }
}

/// One action, if `wanted`.
pub open spec fn only_if(wanted: bool, action: ActionV) -> Seq<ActionV> {
    if wanted {
        seq![action]
    } else {
        seq![]
    }
}

/// What a command asks to be done.
pub open spec fn actions_for(state: BridgeV, cmd: Cmd) -> Seq<ActionV> {
    match cmd {
        Cmd::Run(run) => seq![ActionV::StartRun(run)],
        Cmd::Cancel { run_id } => only_if(state.runs.contains(run_id), ActionV::CancelRun(run_id)),
        Cmd::WsConnect { conn_id, url, headers } => seq![ActionV::OpenWs(conn_id, url@, text_pairs(headers@))],
        Cmd::WsSend { conn_id, msg } => only_if(state.sockets.contains(conn_id), ActionV::SendWs(conn_id, msg@)),
        Cmd::WsClose { conn_id } => only_if(state.sockets.contains(conn_id), ActionV::CloseWs(conn_id)),
        Cmd::SseSubscribe { conn_id, url, headers } => seq![ActionV::OpenSse(conn_id, url@, text_pairs(headers@))],
        Cmd::SseClose { conn_id } => only_if(state.streams.contains(conn_id), ActionV::CancelSse(conn_id)),
        Cmd::GrpcCall(call) => seq![ActionV::CallGrpc(call)],
        Cmd::ListCookies => seq![ActionV::ReportCookies],
        Cmd::RemoveCookie { domain, name } => seq![ActionV::DropCookie(domain@, name@), ActionV::ReportCookies]
            + saving(state.cookie_path),
        Cmd::ClearCookies => seq![ActionV::DropAllCookies, ActionV::ReportCookies] + saving(state.cookie_path),
        Cmd::LoadCookies { path } => seq![
            ActionV::DropAllCookies,
            ActionV::ReadCookies(path@),
            ActionV::ReportCookies,
        ],
        Cmd::Shutdown => saving(state.cookie_path).push(ActionV::Stop),
    }
}

/// What is known after a command.
pub open spec fn state_after(state: BridgeV, cmd: Cmd) -> BridgeV {
    match cmd {
        Cmd::Run(run) => BridgeV { runs: state.runs.insert(run.run_id), ..state },
        Cmd::SseSubscribe { conn_id, .. } => BridgeV { streams: state.streams.insert(conn_id), ..state },
        Cmd::SseClose { conn_id } => BridgeV { streams: state.streams.remove(conn_id), ..state },
        Cmd::LoadCookies { path } => BridgeV { cookie_path: Some(path@), ..state },
        _ => state,
    }
}

/// What is known after a task has come to a point.
pub open spec fn state_after_task(state: BridgeV, event: TaskEvent) -> BridgeV {
    match event {
        TaskEvent::RunEnded(id) => BridgeV { runs: state.runs.remove(id), ..state },
        TaskEvent::WsOpened(id) => BridgeV { sockets: state.sockets.insert(id), ..state },
        TaskEvent::WsEnded(id) => BridgeV { sockets: state.sockets.remove(id), ..state },
        TaskEvent::SseEnded(id) => BridgeV { streams: state.streams.remove(id), ..state },
    }
}

impl BridgeState {
    /// Nothing runs, and the jar has no place to be saved.
    pub fn new() -> (r: BridgeState)
        ensures
            r@ == (BridgeV { runs: Set::empty(), sockets: Set::empty(), streams: Set::empty(), cookie_path: None }),
    {
        BridgeState { runs: HashSet::new(), sockets: HashSet::new(), streams: HashSet::new(), cookie_path: None }
    }

    fn save(&self, out: &mut Vec<Action>)
        ensures
            views(final(out)@) == views(old(out)@) + saving(self@.cookie_path),
    {
        broadcast use group_views;

        let ghost before = views(out@);
        match &self.cookie_path {
            Some(path) => {
                out.push(Action::SaveCookies { path: path.clone() });
                assert(before.push(ActionV::SaveCookies(path@)) =~= before + saving(self@.cookie_path));
            },
            None => {
                assert(before + saving(self@.cookie_path) =~= before);
            },
        }
    }

    /// Take a command.
    pub fn step(&mut self, cmd: Cmd) -> (r: Vec<Action>)
        ensures
            views(r@) == actions_for(old(self)@, cmd),
            final(self)@ == state_after(old(self)@, cmd),
    {
        broadcast use group_views;
        broadcast use vstd::std_specs::hash::group_hash_axioms;

        let ghost wanted = actions_for(self@, cmd);
        let ghost next = state_after(self@, cmd);
        let ghost known = self@;
        let mut out: Vec<Action> = Vec::new();
        match cmd {
            Cmd::Run(run) => {
                let _ = self.runs.insert(run.run_id);
                out.push(Action::StartRun(run));
            },
            Cmd::Cancel { run_id } => {
                if self.runs.contains(&run_id) {
                    out.push(Action::CancelRun { run_id });
                }
            },
            Cmd::WsConnect { conn_id, url, headers } => {
                out.push(Action::OpenWs { conn_id, url, headers });
            },
            Cmd::WsSend { conn_id, msg } => {
                if self.sockets.contains(&conn_id) {
                    out.push(Action::SendWs { conn_id, msg });
                }
            },
            Cmd::WsClose { conn_id } => {
                if self.sockets.contains(&conn_id) {
                    out.push(Action::CloseWs { conn_id });
                }
            },
            Cmd::SseSubscribe { conn_id, url, headers } => {
                let _ = self.streams.insert(conn_id);
                out.push(Action::OpenSse { conn_id, url, headers });
            },
            Cmd::SseClose { conn_id } => {
                if self.streams.remove(&conn_id) {
                    out.push(Action::CancelSse { conn_id });
                }
            },
            Cmd::GrpcCall(call) => {
                out.push(Action::CallGrpc(call));
            },
            Cmd::ListCookies => {
                out.push(Action::ReportCookies);
            },
            Cmd::RemoveCookie { domain, name } => {
                out.push(Action::DropCookie { domain, name });
                out.push(Action::ReportCookies);
                self.save(&mut out);
            },
            Cmd::ClearCookies => {
                out.push(Action::DropAllCookies);
                out.push(Action::ReportCookies);
                self.save(&mut out);
            },
            Cmd::LoadCookies { path } => {
                out.push(Action::DropAllCookies);
                out.push(Action::ReadCookies { path: path.clone() });
                self.cookie_path = Some(path);
                out.push(Action::ReportCookies);
            },
            Cmd::Shutdown => {
                self.save(&mut out);
                assert(views(out@) =~= saving(self@.cookie_path));
                out.push(Action::Stop);
            },
        }
        assert(views(out@) =~= wanted);
        assert(self@.runs =~= next.runs);
        assert(self@.streams =~= next.streams);
        out
    }

    /// Note that a task has come to a point. After a run the jar is saved.
    pub fn task(&mut self, event: TaskEvent) -> (r: Vec<Action>)
        ensures
            final(self)@ == state_after_task(old(self)@, event),
            views(r@) == if event is RunEnded {
                saving(old(self)@.cookie_path)
            } else {
                seq![]
            },
    {
        broadcast use group_views;
        broadcast use vstd::std_specs::hash::group_hash_axioms;

        let ghost next = state_after_task(self@, event);
        let mut out: Vec<Action> = Vec::new();
        match event {
            TaskEvent::RunEnded(id) => {
                let _ = self.runs.remove(&id);
                self.save(&mut out);
            },
            TaskEvent::WsOpened(id) => {
                let _ = self.sockets.insert(id);
            },
            TaskEvent::WsEnded(id) => {
                let _ = self.sockets.remove(&id);
            },
            TaskEvent::SseEnded(id) => {
                let _ = self.streams.remove(&id);
            },
        }
        assert(self@.runs =~= next.runs);
        assert(self@.sockets =~= next.sockets);
        assert(self@.streams =~= next.streams);
        assert(views(out@) =~= if event is RunEnded {
            saving(next.cookie_path)
        } else {
            seq![]
        });
        out
    }
}

// ---------------------------------------------------------------------
// Cookies
// ---------------------------------------------------------------------

/// A cookie as it is saved.
#[derive(Debug)]
pub struct StoredCookie {
    pub domain: String,
    pub path: String,
    pub name: String,
    pub value: String,
    /// In seconds since the epoch.
    pub expires: Option<i64>,
    pub secure: bool,
    pub http_only: bool,
}

/// What a [`StoredCookie`] holds.
pub struct CookieV {
    pub domain: Seq<char>,
    pub path: Seq<char>,
    pub name: Seq<char>,
    pub value: Seq<char>,
    pub expires: Option<i64>,
    pub secure: bool,
    pub http_only: bool,
}

impl View for StoredCookie {
    type V = CookieV;

    open spec fn view(&self) -> CookieV {
        CookieV {
            domain: self.domain@,
            path: self.path@,
            name: self.name@,
            value: self.value@,
            expires: self.expires,
            secure: self.secure,
            http_only: self.http_only,
        }
    }
}

/// The first second of the year 0.
pub const FIRST_SECOND: i64 = -62_167_219_200;

/// The last second of the year 9999.
pub const LAST_SECOND: i64 = 253_402_300_799;

/// A time in the years that a date header can hold.
pub open spec fn datable(expires: Option<i64>) -> bool {
    expires matches Some(secs) ==> FIRST_SECOND <= secs <= LAST_SECOND
}

/// A time as `chrono` writes it in the form of RFC 2822.
pub uninterp spec fn date_text(secs: i64) -> Seq<char>;

/// `chrono::DateTime::to_rfc2822` writes a time, given in seconds since the
/// epoch, in UTC. It does so for the years 0 to 9999 only. The text depends on
/// the time alone.
#[verifier::external_body]
fn write_date(secs: i64) -> (r: String)
    requires
        FIRST_SECOND <= secs <= LAST_SECOND,
    ensures
        r@ == date_text(secs),
{
    chrono::DateTime::from_timestamp(secs, 0).map(|t| t.to_rfc2822()).unwrap_or_default()
}

/// The header that brings a cookie back.
pub open spec fn set_cookie(c: CookieV) -> Seq<char> {
    let base = c.name + "="@ + c.value + "; Domain="@ + c.domain + "; Path="@ + c.path;
    let secure = if c.secure {
        base + "; Secure"@
    } else {
        base
    };
    let http_only = if c.http_only {
        secure + "; HttpOnly"@
    } else {
        secure
    };
    match c.expires {
        Some(secs) => http_only + ("; Expires="@ + replaced(date_text(secs), "+0000"@, "GMT"@)),
        None => http_only,
    }
}

/// The header that brings a cookie back.
pub fn set_cookie_text(c: &StoredCookie) -> (r: String)
    requires
        datable(c.expires),
    ensures
        r@ == set_cookie(c@),
{
    let mut out = cat5(c.name.as_str(), "=", c.value.as_str(), "; Domain=", c.domain.as_str());
    out.append("; Path=");
    out.append(c.path.as_str());
    if c.secure {
        out.append("; Secure");
    }
    if c.http_only {
        out.append("; HttpOnly");
    }
    if let Some(secs) = c.expires {
        let date = replace_all(write_date(secs).as_str(), "+0000", "GMT");
        out.append(cat2("; Expires=", date.as_str()).as_str());
    }
    out
}

/// The address that a cookie is stored for.
pub open spec fn cookie_address(c: CookieV) -> Seq<char> {
    "https://"@ + c.domain + "/"@
}

/// The addresses and headers that bring the first `n` cookies back. One whose
/// domain makes no address is passed over.
pub open spec fn restored(cookies: Seq<CookieV>, n: int) -> Seq<(Seq<char>, Seq<char>)>
    decreases n,
{
    if n <= 0 || n > cookies.len() {
        seq![]
    } else {
        let before = restored(cookies, n - 1);
        match url_parsed(cookie_address(cookies[n - 1])) {
            Ok((address, _)) => before.push((address, set_cookie(cookies[n - 1]))),
            Err(_) => before,
        }
    }
}

/// The addresses and headers that bring cookies back.
pub fn restore_cookies(cookies: &Vec<StoredCookie>) -> (r: Vec<(String, String)>)
    requires
        forall|i: int| 0 <= i < cookies@.len() ==> datable((#[trigger] cookies@[i]).expires),
    ensures
        text_pairs(r@) == restored(views(cookies@), cookies@.len() as int),
{
    let ghost all = views(cookies@);
    let mut out: Vec<(String, String)> = Vec::new();
    let mut i: usize = 0;
    assert(text_pairs(out@) =~= seq![]);
    while i < cookies.len()
        invariant
            i <= cookies.len(),
            all == views(cookies@),
            forall|k: int| 0 <= k < cookies@.len() ==> datable((#[trigger] cookies@[k]).expires),
            text_pairs(out@) == restored(all, i as int),
        decreases cookies.len() - i,
    {
        assert(all[i as int] == cookies@[i as int]@);
        let address = cat3("https://", cookies[i].domain.as_str(), "/");
        if let Ok(u) = parse_address(address.as_str()) {
            let ghost before = text_pairs(out@);
            let pair = (address_text(&u), set_cookie_text(&cookies[i]));
            let ghost view = (pair.0@, pair.1@);
            out.push(pair);
            assert(text_pairs(out@) =~= before.push(view));
        }
        i += 1;
    }
    out
}

// ---------------------------------------------------------------------
// Laws
// ---------------------------------------------------------------------

/// The cookies of a jar but those with a domain and name.
pub open spec fn dropped(jar: Seq<CookieV>, domain: Seq<char>, name: Seq<char>) -> Seq<CookieV> {
    jar.filter(|c: CookieV| !(c.domain == domain && c.name == name))
}

/// The jar after an action. `files` has the cookies of the files that can be
/// read.
pub open spec fn jar_after_one(jar: Seq<CookieV>, action: ActionV, files: Map<Seq<char>, Seq<CookieV>>) -> Seq<CookieV> {
    match action {
        ActionV::DropAllCookies => seq![],
        ActionV::DropCookie(domain, name) => dropped(jar, domain, name),
        ActionV::ReadCookies(path) => if files.dom().contains(path) {
            jar + files[path]
        } else {
            jar
        },
        _ => jar,
    }
}

/// The jar after actions in turn.
pub open spec fn jar_after(jar: Seq<CookieV>, actions: Seq<ActionV>, files: Map<Seq<char>, Seq<CookieV>>) -> Seq<CookieV>
    decreases actions.len(),
{
    if actions.len() == 0 {
        jar
    } else {
        jar_after(jar_after_one(jar, actions[0], files), actions.skip(1), files)
    }
}

/// Loading cookies leaves nothing of what was in the jar: it holds what the
/// file holds, and nothing where there is no file. From then on the jar is
/// saved to that file.
pub proof fn lemma_loading_starts_afresh(
    state: BridgeV,
    path: String,
    jar: Seq<CookieV>,
    files: Map<Seq<char>, Seq<CookieV>>,
)
    ensures
        jar_after(jar, actions_for(state, Cmd::LoadCookies { path }), files) == if files.dom().contains(path@) {
            files[path@]
        } else {
            seq![]
        },
        state_after(state, Cmd::LoadCookies { path }).cookie_path == Some(path@),
{
    let actions = actions_for(state, Cmd::LoadCookies { path });
    let rest = actions.skip(1);
    assert(rest =~= seq![ActionV::ReadCookies(path@), ActionV::ReportCookies]);
    assert(rest.skip(1) =~= seq![ActionV::ReportCookies]);
    assert(rest.skip(1).skip(1) =~= seq![]);
    let one = jar_after_one(jar, actions[0], files);
    assert(one =~= seq![]);
    let two = jar_after_one(one, rest[0], files);
    let three = jar_after_one(two, rest.skip(1)[0], files);
    assert(jar_after(three, rest.skip(1).skip(1), files) == three);
    assert(jar_after(two, rest.skip(1), files) == three);
    assert(jar_after(one, rest, files) == three);
    if files.dom().contains(path@) {
        assert(one + files[path@] =~= files[path@]);
    }
}

/// The jar is never saved but to the file that it was loaded from.
pub proof fn lemma_saved_where_loaded(state: BridgeV, cmd: Cmd, i: int)
    requires
        0 <= i < actions_for(state, cmd).len(),
        actions_for(state, cmd)[i] is SaveCookies,
    ensures
        state.cookie_path == Some(actions_for(state, cmd)[i]->SaveCookies_0),
{
}

/// A stream that was closed is not cancelled again.
pub proof fn lemma_closed_stays_closed(state: BridgeV, conn_id: u64)
    ensures
        actions_for(state_after(state, Cmd::SseClose { conn_id }), Cmd::SseClose { conn_id }).len() == 0,
{
}

} // verus!
