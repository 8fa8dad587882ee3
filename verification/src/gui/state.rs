//! What the program has open: a workspace, tabs, and what it shows.

use vstd::prelude::*;

use crate::gui::settings::StatusMessage;
use crate::gui::theme::ThemeKind;
use crate::model::request::{RequestDef, RequestDefV};
use crate::runner::run::{OutcomeV, RequestOutcome};
use crate::store::Workspace;
use crate::text::same;
use crate::view::{group_views, opt_view, views};

verus! {

broadcast use vstd::string::group_string_axioms;

/// A tool window at the bottom.
#[derive(Debug, Clone, Copy, PartialEq, Eq, Structural)]
pub enum BottomTool {
    Run,
    Problems,
    Terminal,
    Log,
    History,
    Console,
    Cookies,
}

impl BottomTool {
    /// The title of the window.
    pub open spec fn name(self) -> Seq<char> {
        match self {
            BottomTool::Run => "Run"@,
            BottomTool::Problems => "Problems"@,
            BottomTool::Terminal => "Terminal"@,
            BottomTool::Log => "Log"@,
            BottomTool::History => "History"@,
            BottomTool::Console => "Console"@,
            BottomTool::Cookies => "Cookies"@,
        }
    }

    /// The title of the window.
    pub fn label(&self) -> (r: &'static str)
        ensures
            r@ == self.name(),
    {
        match self {
            BottomTool::Run => "Run",
            BottomTool::Problems => "Problems",
            BottomTool::Terminal => "Terminal",
            BottomTool::Log => "Log",
            BottomTool::History => "History",
            BottomTool::Console => "Console",
            BottomTool::Cookies => "Cookies",
        }
    }

    /// The window of a title.
    pub fn from_label(label: &str) -> (r: Option<BottomTool>)
        ensures
            match r {
                Some(tool) => tool.name() == label@,
                None => forall|tool: BottomTool| tool.name() != label@,
            },
    {
        if same(label, "Run") {
            Some(BottomTool::Run)
        } else if same(label, "Problems") {
            Some(BottomTool::Problems)
        } else if same(label, "Terminal") {
            Some(BottomTool::Terminal)
        } else if same(label, "Log") {
            Some(BottomTool::Log)
        } else if same(label, "History") {
            Some(BottomTool::History)
        } else if same(label, "Console") {
            Some(BottomTool::Console)
        } else if same(label, "Cookies") {
            Some(BottomTool::Cookies)
        } else {
            None
        }
    }
}

/// Tool windows have different titles.
pub proof fn lemma_tool_names_differ(a: BottomTool, b: BottomTool)
    ensures
        a.name() == b.name() ==> a == b,
{
    reveal_strlit("Run");
    reveal_strlit("Problems");
    reveal_strlit("Terminal");
    reveal_strlit("Log");
    reveal_strlit("History");
    reveal_strlit("Console");
    reveal_strlit("Cookies");
    assert("Run"@[0] == 'R' && "Problems"@[0] == 'P' && "Terminal"@[0] == 'T' && "Log"@[0] == 'L' && "History"@[0]
        == 'H');
    assert("Console"@[0] == 'C' && "Cookies"@[0] == 'C' && "Console"@[2] == 'n' && "Cookies"@[2] == 'o');
}

/// An open request.
#[derive(Debug)]
pub struct Tab {
    /// The path of its file from the workspace root.
    pub rel_id: String,
    /// The request as it is edited.
    pub def: RequestDef,
    pub dirty: bool,
    /// The run that the request is in.
    pub run_id: Option<u64>,
    pub response: Option<RequestOutcome>,
}

/// What a [`Tab`] holds.
pub struct TabV {
    pub rel_id: Seq<char>,
    pub def: RequestDefV,
    pub dirty: bool,
    pub run_id: Option<u64>,
    pub response: Option<OutcomeV>,
}

impl View for Tab {
    type V = TabV;

    open spec fn view(&self) -> TabV {
        TabV {
            rel_id: self.rel_id@,
            def: self.def@,
            dirty: self.dirty,
            run_id: self.run_id,
            response: opt_view(self.response),
        }
    }
}

/// A run as the status line shows it.
#[derive(Debug, Clone, Copy, PartialEq, Eq, Structural)]
pub struct RunState {
    pub run_id: Option<u64>,
    pub total: usize,
    pub completed: usize,
}

/// The open tabs, the one in front, and what is shown.
#[derive(Debug)]
pub struct AppState {
    pub workspace: Option<Workspace>,
    pub tabs: Vec<Tab>,
    pub active_tab: Option<usize>,
    pub active_env: Option<String>,
    pub theme: ThemeKind,
    pub show_collections: bool,
    pub show_environment: bool,
    pub bottom_tool: Option<BottomTool>,
    pub run_state: RunState,
    pub status: Option<StatusMessage>,
    pub next_run_id: u64,
}

/// What an [`AppState`] shows.
pub struct AppV {
    pub tabs: Seq<TabV>,
    pub active_tab: Option<usize>,
    pub active_env: Option<Seq<char>>,
    pub theme: ThemeKind,
    pub show_collections: bool,
    pub show_environment: bool,
    pub bottom_tool: Option<BottomTool>,
}

impl View for AppState {
    type V = AppV;

    open spec fn view(&self) -> AppV {
        AppV {
            tabs: views(self.tabs@),
            active_tab: self.active_tab,
            active_env: opt_view(self.active_env),
            theme: self.theme,
            show_collections: self.show_collections,
            show_environment: self.show_environment,
            bottom_tool: self.bottom_tool,
        }
    }
}

/// The first tab of a request, from the `i`-th on.
pub open spec fn tab_position(tabs: Seq<TabV>, rel_id: Seq<char>, i: int) -> Option<int>
    decreases tabs.len() - i,
{
    if i < 0 || i >= tabs.len() {
        None
    } else if tabs[i].rel_id == rel_id {
        Some(i)
    } else {
        tab_position(tabs, rel_id, i + 1)
    }
}

/// A tab that was just opened.
pub open spec fn fresh_tab(rel_id: Seq<char>, def: RequestDefV) -> TabV {
    TabV { rel_id, def, dirty: false, run_id: None, response: None }
}

/// A request opened: its tab comes to the front, a new one at the end where it
/// has none.
pub open spec fn opened(app: AppV, rel_id: Seq<char>, def: RequestDefV) -> AppV {
    match tab_position(app.tabs, rel_id, 0) {
        Some(i) => AppV { active_tab: Some(i as usize), ..app },
        None => AppV {
            tabs: app.tabs.push(fresh_tab(rel_id, def)),
            active_tab: Some(app.tabs.len() as usize),
            ..app
        },
    }
}

/// The tab of a request among `tabs`.
pub fn tab_index(tabs: &Vec<Tab>, rel_id: &str) -> (r: Option<usize>)
    ensures
        match r {
            Some(i) => i < tabs@.len() && tab_position(views(tabs@), rel_id@, 0) == Some(i as int),
            None => tab_position(views(tabs@), rel_id@, 0) is None,
        },
{
    let ghost all = views(tabs@);
    let mut i: usize = 0;
    while i < tabs.len()
        invariant
            i <= tabs.len(),
            all == views(tabs@),
            tab_position(all, rel_id@, 0) == tab_position(all, rel_id@, i as int),
        decreases tabs.len() - i,
    {
        assert(all[i as int] == tabs@[i as int]@);
        if same(tabs[i].rel_id.as_str(), rel_id) {
            return Some(i);
        }
        i += 1;
    }
    None
}

impl AppState {
    /// The program at its start.
    pub fn new() -> (r: AppState)
        ensures
            r.workspace is None,
            r@.tabs.len() == 0,
            r.active_tab is None,
            r.active_env is None,
            r.theme == ThemeKind::Darcula,
            r.show_collections,
            r.show_environment,
            r.bottom_tool is None,
            r.run_state == (RunState { run_id: None, total: 0, completed: 0 }),
            r.status is None,
            r.next_run_id == 1,
    {
        AppState {
            workspace: None,
            tabs: Vec::new(),
            active_tab: None,
            active_env: None,
            theme: ThemeKind::Darcula,
            show_collections: true,
            show_environment: true,
            bottom_tool: None,
            run_state: RunState { run_id: None, total: 0, completed: 0 },
            status: None,
            next_run_id: 1,
        }
    }

    /// Open a request, or bring its tab to the front.
    pub fn open_tab(&mut self, rel_id: String, def: RequestDef)
        ensures
            final(self)@ == opened(old(self)@, rel_id@, def@),
            final(self).tabs@.take(old(self).tabs@.len() as int) == old(self).tabs@,
            final(self).workspace == old(self).workspace,
            final(self).run_state == old(self).run_state,
            final(self).status == old(self).status,
            final(self).next_run_id == old(self).next_run_id,
    {
        broadcast use group_views;

        let ghost before = self@;
        let ghost tabs = self.tabs@;
        assert(tabs.take(tabs.len() as int) =~= tabs);
        match tab_index(&self.tabs, rel_id.as_str()) {
            Some(i) => {
                self.active_tab = Some(i);
            },
            None => {
                let n: usize = self.tabs.len();
                let tab = Tab { rel_id, def, dirty: false, run_id: None, response: None };
                let ghost view = tab@;
                self.tabs.push(tab);
                self.active_tab = Some(n);
                assert(self@.tabs == before.tabs.push(view));
                assert(before.tabs.len() == n);
                assert(self.tabs@.take(n as int) =~= tabs);
            },
        }
    }

    /// Close a tab. The one in front stays in front; where it was closed, the
    /// next one comes, or the last.
    pub fn close_tab(&mut self, i: usize)
        requires
            i < old(self)@.tabs.len(),
        ensures
            final(self)@ == (AppV {
                tabs: old(self)@.tabs.remove(i as int),
                active_tab: match old(self).active_tab {
                    None => None,
                    Some(a) => if old(self)@.tabs.len() == 1 {
                        None
                    } else if a > i || a + 1 == old(self)@.tabs.len() && a == i {
                        Some((a - 1) as usize)
                    } else {
                        Some(a)
                    },
                },
                ..old(self)@
            }),
            final(self).tabs@ == old(self).tabs@.remove(i as int),
            final(self).workspace == old(self).workspace,
            final(self).run_state == old(self).run_state,
            final(self).status == old(self).status,
            final(self).next_run_id == old(self).next_run_id,
    {
        let n: usize = self.tabs.len();
        let ghost before = views(self.tabs@);
        assert(n == before.len());
        let _ = self.tabs.remove(i);
        assert(views(self.tabs@) =~= before.remove(i as int));
        self.active_tab = match self.active_tab {
            None => None,
            Some(a) => {
                if n == 1 {
                    None
                } else if a > i || (a == i && i == n - 1) {
                    Some(a - 1)
                } else {
                    Some(a)
                }
            },
        };
    }

    /// The number of the next run.
    pub fn alloc_run_id(&mut self) -> (r: u64)
        requires
            old(self).next_run_id < u64::MAX,
        ensures
            r == old(self).next_run_id,
            final(self).next_run_id == r + 1,
            final(self)@ == old(self)@,
            final(self).tabs == old(self).tabs,
            final(self).workspace == old(self).workspace,
            final(self).run_state == old(self).run_state,
            final(self).status == old(self).status,
    {
        let id: u64 = self.next_run_id;
        self.next_run_id = id + 1;
        id
    }
}

} // verus!
