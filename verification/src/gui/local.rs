//! What is remembered of the program's windows for each workspace.

use vstd::prelude::*;

use crate::gui::state::{lemma_tool_names_differ, opened, tab_position, AppState, AppV, BottomTool, TabV};
use crate::gui::theme::{lemma_theme_names_differ, ThemeKind};
use crate::runner::resolve::{joined_path, resolve_body_path};
use crate::store::{stored_request, CollectionV};
use crate::view::{copy_opt, group_views, opt_view, views, Copied};

verus! {

broadcast use vstd::string::group_string_axioms;

/// Which tabs and tool windows were open, and what was chosen.
#[derive(Debug)]
pub struct UiState {
    /// The open requests by the paths of their files.
    pub open_tabs: Vec<String>,
    pub active_tab: usize,
    pub active_env: Option<String>,
    /// The name of the theme.
    pub theme: String,
    pub show_collections: bool,
    pub show_environment: bool,
    /// The title of the tool window at the bottom.
    pub bottom_panel_selected: Option<String>,
}

/// What a [`UiState`] holds.
pub struct UiV {
    pub open_tabs: Seq<Seq<char>>,
    pub active_tab: usize,
    pub active_env: Option<Seq<char>>,
    pub theme: Seq<char>,
    pub show_collections: bool,
    pub show_environment: bool,
    pub bottom_panel_selected: Option<Seq<char>>,
}

impl View for UiState {
    type V = UiV;

    open spec fn view(&self) -> UiV {
        UiV {
            open_tabs: views(self.open_tabs@),
            active_tab: self.active_tab,
            active_env: opt_view(self.active_env),
            theme: self.theme@,
            show_collections: self.show_collections,
            show_environment: self.show_environment,
            bottom_panel_selected: opt_view(self.bottom_panel_selected),
        }
    }
}

/// What is remembered of a state.
pub open spec fn captured(app: AppV) -> UiV {
    UiV {
        open_tabs: Seq::new(app.tabs.len(), |i: int| app.tabs[i].rel_id),
        active_tab: match app.active_tab {
            Some(i) => i,
            None => 0,
        },
        active_env: app.active_env,
        theme: app.theme.name(),
        show_collections: app.show_collections,
        show_environment: app.show_environment,
        bottom_panel_selected: match app.bottom_tool {
            Some(tool) => Some(tool.name()),
            None => None,
        },
    }
}

/// The state once the first `n` of the named requests have been opened. One
/// that is no longer stored is passed over.
pub open spec fn reopened(app: AppV, cols: Seq<CollectionV>, names: Seq<Seq<char>>, n: int) -> AppV
    decreases n,
{
    if n <= 0 || n > names.len() {
        app
    } else {
        let before = reopened(app, cols, names, n - 1);
        match stored_request(cols, names[n - 1]) {
            Some(node) => opened(before, names[n - 1], node.def),
            None => before,
        }
    }
}

/// The theme called `name`, or the one in use where there is none.
pub open spec fn theme_or(name: Seq<char>, kept: ThemeKind) -> ThemeKind {
    if name == ThemeKind::Darcula.name() {
        ThemeKind::Darcula
    } else if name == ThemeKind::Light.name() {
        ThemeKind::Light
    } else {
        kept
    }
}

/// The tool window of a title.
pub open spec fn tool_of(title: Seq<char>) -> Option<BottomTool> {
    if exists|tool: BottomTool| tool.name() == title {
        Some(choose|tool: BottomTool| tool.name() == title)
    } else {
        None
    }
}

/// The state once what was remembered has been brought back.
pub open spec fn applied(app: AppV, cols: Seq<CollectionV>, snapshot: UiV) -> AppV {
    let open = reopened(app, cols, snapshot.open_tabs, snapshot.open_tabs.len() as int);
    AppV {
        tabs: open.tabs,
        active_tab: if snapshot.active_tab < open.tabs.len() {
            Some(snapshot.active_tab)
        } else {
            open.active_tab
        },
        active_env: snapshot.active_env,
        theme: theme_or(snapshot.theme, app.theme),
        show_collections: snapshot.show_collections,
        show_environment: snapshot.show_environment,
        bottom_tool: match snapshot.bottom_panel_selected {
            Some(title) => tool_of(title),
            None => None,
        },
    }
}

/// Where the windows of a workspace are remembered, below its root.
pub fn path_for(root: &str) -> (r: String)
    ensures
        r@ == joined_path(joined_path(root@, ".forge-local"@), "ui-state.json"@),
{
    resolve_body_path(resolve_body_path(root, ".forge-local").as_str(), "ui-state.json")
}

/// What is to be remembered of a state.
pub fn capture(state: &AppState) -> (r: UiState)
    ensures
        r@ == captured(state@),
{
    broadcast use group_views;

    let mut open_tabs: Vec<String> = Vec::new();
    let mut i: usize = 0;
    while i < state.tabs.len()
        invariant
            i <= state.tabs.len(),
            open_tabs.len() == i,
            forall|k: int| 0 <= k < i ==> (#[trigger] open_tabs@[k])@ == state.tabs@[k]@.rel_id,
        decreases state.tabs.len() - i,
    {
        open_tabs.push(state.tabs[i].rel_id.clone());
        i += 1;
    }
    assert(views(open_tabs@) =~= captured(state@).open_tabs);
    UiState {
        open_tabs,
        active_tab: match state.active_tab {
            Some(i) => i,
            None => 0,
        },
        active_env: copy_opt(&state.active_env),
        theme: state.theme.label().to_owned(),
        show_collections: state.show_collections,
        show_environment: state.show_environment,
        bottom_panel_selected: match &state.bottom_tool {
            Some(tool) => Some(tool.label().to_owned()),
            None => None,
        },
    }
}

/// Bring back what was remembered of a workspace that was just opened.
/// Requests that are no longer stored stay closed. Without a workspace nothing
/// happens.
pub fn apply(state: &mut AppState, snapshot: UiState)
    ensures
        final(state).workspace == old(state).workspace,
        final(state).run_state == old(state).run_state,
        final(state).status == old(state).status,
        final(state).next_run_id == old(state).next_run_id,
        final(state)@ == match old(state).workspace {
            Some(ws) => applied(old(state)@, views(ws.collections@), snapshot@),
            None => old(state)@,
        },
        old(state).workspace is None ==> *final(state) == *old(state),
{
    let ghost before = state@;
    let ghost kept = *state;
    if state.workspace.is_none() {
        return;
    }
    let ghost cols = views(state.workspace->Some_0.collections@);
    let ghost names = snapshot@.open_tabs;
    let mut i: usize = 0;
    while i < snapshot.open_tabs.len()
        invariant
            i <= snapshot.open_tabs.len(),
            names == views(snapshot.open_tabs@),
            kept == *old(state),
            before == kept@,
            state.workspace == kept.workspace,
            state.run_state == kept.run_state,
            state.status == kept.status,
            state.next_run_id == kept.next_run_id,
            kept.workspace is Some,
            cols == views(kept.workspace->Some_0.collections@),
            state@ == reopened(before, cols, names, i as int),
            state@.theme == before.theme,
        decreases snapshot.open_tabs.len() - i,
    {
        assert(names[i as int] == snapshot.open_tabs@[i as int]@);
        let found = match &state.workspace {
            Some(ws) => match ws.find_request(snapshot.open_tabs[i].as_str()) {
                Some(node) => Some(node.def.copied()),
                None => None,
            },
            None => None,
        };
        if let Some(def) = found {
            state.open_tab(snapshot.open_tabs[i].clone(), def);
        }
        i += 1;
    }
    let ghost open = state@;
    assert(state.tabs@.len() == open.tabs.len());
    if snapshot.active_tab < state.tabs.len() {
        state.active_tab = Some(snapshot.active_tab);
    }
    let theme = ThemeKind::from_label(snapshot.theme.as_str());
    proof {
        if let Some(kind) = theme {
            assert(kind == theme_or(snapshot.theme@, before.theme)) by {
                lemma_theme_names_differ(kind, ThemeKind::Darcula);
                lemma_theme_names_differ(kind, ThemeKind::Light);
            }
        } else {
            assert(ThemeKind::Darcula.name() != snapshot.theme@);
            assert(ThemeKind::Light.name() != snapshot.theme@);
        }
    }
    if let Some(kind) = theme {
        state.theme = kind;
    }
    state.active_env = snapshot.active_env;
    state.show_collections = snapshot.show_collections;
    state.show_environment = snapshot.show_environment;
    state.bottom_tool = match &snapshot.bottom_panel_selected {
        Some(title) => {
            let tool = BottomTool::from_label(title.as_str());
            proof {
                if let Some(t) = tool {
                    assert(exists|x: BottomTool| x.name() == title@);
                    lemma_tool_names_differ(t, choose|x: BottomTool| x.name() == title@);
                }
            }
            tool
        },
        None => None,
    };
}

// ---------------------------------------------------------------------
// Laws
// ---------------------------------------------------------------------

/// No request has two tabs.
pub open spec fn one_tab_each(tabs: Seq<TabV>) -> bool {
    forall|i: int, j: int| 0 <= i < j < tabs.len() ==> (#[trigger] tabs[i]).rel_id != (#[trigger] tabs[j]).rel_id
}

proof fn lemma_absent_tab(tabs: Seq<TabV>, rel_id: Seq<char>, i: int)
    requires
        0 <= i <= tabs.len(),
        forall|k: int| i <= k < tabs.len() ==> (#[trigger] tabs[k]).rel_id != rel_id,
    ensures
        tab_position(tabs, rel_id, i) is None,
    decreases tabs.len() - i,
{
    if i < tabs.len() {
        lemma_absent_tab(tabs, rel_id, i + 1);
    }
}

proof fn lemma_found_tab(tabs: Seq<TabV>, rel_id: Seq<char>, i: int)
    requires
        0 <= i,
    ensures
        match tab_position(tabs, rel_id, i) {
            Some(k) => i <= k < tabs.len() && tabs[k].rel_id == rel_id,
            None => forall|k: int| i <= k < tabs.len() ==> (#[trigger] tabs[k]).rel_id != rel_id,
        },
    decreases tabs.len() - i,
{
    if i < tabs.len() {
        lemma_found_tab(tabs, rel_id, i + 1);
    }
}

/// Opening a request leaves every request with at most one tab, brings the tab
/// of that request to the front, and leaves the other tabs as they are.
pub proof fn lemma_open_keeps_one_tab_each(app: AppV, rel_id: Seq<char>, def: crate::model::request::RequestDefV)
    requires
        one_tab_each(app.tabs),
        app.tabs.len() < usize::MAX,
    ensures
        one_tab_each(opened(app, rel_id, def).tabs),
        app.tabs.is_prefix_of(opened(app, rel_id, def).tabs),
        ({
            let after = opened(app, rel_id, def);
            after.active_tab is Some && after.active_tab->Some_0 < after.tabs.len()
                && after.tabs[after.active_tab->Some_0 as int].rel_id == rel_id
        }),
{
    lemma_found_tab(app.tabs, rel_id, 0);
}

proof fn lemma_reopened_all(app: AppV, fresh: AppV, cols: Seq<CollectionV>, n: int)
    requires
        one_tab_each(app.tabs),
        forall|i: int| 0 <= i < app.tabs.len() ==> stored_request(cols, (#[trigger] app.tabs[i]).rel_id) is Some,
        fresh.tabs.len() == 0,
        0 <= n <= app.tabs.len(),
    ensures
        ({
            let names = captured(app).open_tabs;
            let now = reopened(fresh, cols, names, n);
            now.tabs.len() == n && forall|i: int|
                0 <= i < n ==> (#[trigger] now.tabs[i]).rel_id == app.tabs[i].rel_id
        }),
    decreases n,
{
    if n > 0 {
        let names = captured(app).open_tabs;
        lemma_reopened_all(app, fresh, cols, n - 1);
        let before = reopened(fresh, cols, names, n - 1);
        assert(names[n - 1] == app.tabs[n - 1].rel_id);
        assert forall|k: int| 0 <= k < before.tabs.len() implies (#[trigger] before.tabs[k]).rel_id != names[n - 1] by {
            assert(before.tabs[k].rel_id == app.tabs[k].rel_id);
        }
        lemma_absent_tab(before.tabs, names[n - 1], 0);
    }
}

/// What is remembered when a workspace is left comes back when it is opened
/// again: the same tabs in the same order, the same one in front, and the same
/// environment, theme and tool windows. This is so where every open request is
/// still stored and has one tab, and a tab is in front wherever one is open.
pub proof fn lemma_snapshot_restores(app: AppV, fresh: AppV, cols: Seq<CollectionV>)
    requires
        one_tab_each(app.tabs),
        forall|i: int| 0 <= i < app.tabs.len() ==> stored_request(cols, (#[trigger] app.tabs[i]).rel_id) is Some,
        match app.active_tab {
            Some(i) => i < app.tabs.len(),
            None => app.tabs.len() == 0,
        },
        fresh.tabs.len() == 0,
        fresh.active_tab is None,
    ensures
        ({
            let back = applied(fresh, cols, captured(app));
            &&& back.tabs.len() == app.tabs.len()
            &&& forall|i: int|
                0 <= i < app.tabs.len() ==> (#[trigger] back.tabs[i]).rel_id == app.tabs[i].rel_id
            &&& back.active_tab == app.active_tab
            &&& back.active_env == app.active_env
            &&& back.theme == app.theme
            &&& back.show_collections == app.show_collections
            &&& back.show_environment == app.show_environment
            &&& back.bottom_tool == app.bottom_tool
        }),
{
    lemma_reopened_all(app, fresh, cols, app.tabs.len() as int);
    let names = captured(app).open_tabs;
    lemma_theme_names_differ(app.theme, ThemeKind::Darcula);
    lemma_theme_names_differ(app.theme, ThemeKind::Light);
    if let Some(tool) = app.bottom_tool {
        assert(exists|x: BottomTool| x.name() == tool.name());
        lemma_tool_names_differ(tool, choose|x: BottomTool| x.name() == tool.name());
    }
    if app.tabs.len() == 0 {
        assert(reopened(fresh, cols, names, 0) == fresh);
    }
}

} // verus!
