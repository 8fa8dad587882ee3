//! The settings dialog: a draft of the HTTP settings, saved on request.

use vstd::prelude::*;

use crate::model::workspace::{default_settings, ProxyConfig, ProxyV, SettingsV, WorkspaceSettings};
use crate::view::{opt_or, opt_view};

verus! {

broadcast use vstd::string::group_string_axioms;

/// A page of the dialog.
#[derive(Debug, Clone, Copy, PartialEq, Eq, Structural)]
pub enum Category {
    Appearance,
    Http,
    Editor,
    Keymap,
}

impl Category {
    /// The title of the page.
    pub fn label(&self) -> (r: &'static str)
        ensures
            r@ == match self {
                Category::Appearance => "Appearance"@,
                Category::Http => "HTTP"@,
                Category::Editor => "Editor"@,
                Category::Keymap => "Keymap"@,
            },
    {
        match self {
            Category::Appearance => "Appearance",
            Category::Http => "HTTP",
            Category::Editor => "Editor",
            Category::Keymap => "Keymap",
        }
    }
}

/// The HTTP settings while they are edited.
#[derive(Debug)]
pub struct HttpDraft {
    pub timeout_ms: u64,
    pub follow_redirects: bool,
    pub max_redirects: u32,
    pub verify_tls: bool,
    pub proxy_enabled: bool,
    pub proxy_url: String,
    pub proxy_no_proxy: String,
    pub user_agent: String,
}

/// What an [`HttpDraft`] holds.
pub struct DraftV {
    pub timeout_ms: u64,
    pub follow_redirects: bool,
    pub max_redirects: u32,
    pub verify_tls: bool,
    pub proxy_enabled: bool,
    pub proxy_url: Seq<char>,
    pub proxy_no_proxy: Seq<char>,
    pub user_agent: Seq<char>,
}

impl View for HttpDraft {
    type V = DraftV;

    open spec fn view(&self) -> DraftV {
        DraftV {
            timeout_ms: self.timeout_ms,
            follow_redirects: self.follow_redirects,
            max_redirects: self.max_redirects,
            verify_tls: self.verify_tls,
            proxy_enabled: self.proxy_enabled,
            proxy_url: self.proxy_url@,
            proxy_no_proxy: self.proxy_no_proxy@,
            user_agent: self.user_agent@,
        }
    }
}

/// The draft of settings.
pub open spec fn draft_of(s: SettingsV) -> DraftV {
    DraftV {
        timeout_ms: s.timeout_ms,
        follow_redirects: s.follow_redirects,
        max_redirects: s.max_redirects,
        verify_tls: s.verify_tls,
        proxy_enabled: s.proxy is Some,
        proxy_url: match s.proxy {
            Some(p) => p.url,
            None => seq![],
        },
        proxy_no_proxy: match s.proxy {
            Some(p) => p.no_proxy,
            None => seq![],
        },
        user_agent: opt_or(s.user_agent, seq![]),
    }
}

/// The settings of a draft.
pub open spec fn settings_of(d: DraftV) -> SettingsV {
    SettingsV {
        timeout_ms: d.timeout_ms,
        follow_redirects: d.follow_redirects,
        max_redirects: d.max_redirects,
        verify_tls: d.verify_tls,
        proxy: if d.proxy_enabled {
            Some(ProxyV { url: d.proxy_url, no_proxy: d.proxy_no_proxy })
        } else {
            None
        },
        user_agent: if d.user_agent.len() == 0 {
            None
        } else {
            Some(d.user_agent)
        },
    }
}

impl HttpDraft {
    /// The draft of settings.
    pub fn from_settings(s: &WorkspaceSettings) -> (r: HttpDraft)
        ensures
            r@ == draft_of(s@),
    {
        let (proxy_url, proxy_no_proxy) = match &s.proxy {
            Some(p) => (p.url.clone(), p.no_proxy.clone()),
            None => (String::new(), String::new()),
        };
        let user_agent = match &s.user_agent {
            Some(s) => s.clone(),
            None => String::new(),
        };
        let r = HttpDraft {
            timeout_ms: s.timeout_ms,
            follow_redirects: s.follow_redirects,
            max_redirects: s.max_redirects,
            verify_tls: s.verify_tls,
            proxy_enabled: s.proxy.is_some(),
            proxy_url,
            proxy_no_proxy,
            user_agent,
        };
        assert(r@.proxy_url =~= draft_of(s@).proxy_url);
        assert(r@.proxy_no_proxy =~= draft_of(s@).proxy_no_proxy);
        assert(r@.user_agent =~= draft_of(s@).user_agent);
        r
    }

    /// The settings of the draft.
    pub fn to_settings(&self) -> (r: WorkspaceSettings)
        ensures
            r@ == settings_of(self@),
    {
        let proxy = if self.proxy_enabled {
            Some(ProxyConfig { url: self.proxy_url.clone(), no_proxy: self.proxy_no_proxy.clone() })
        } else {
            None
        };
        let user_agent = if self.user_agent.as_str().unicode_len() == 0 {
            None
        } else {
            Some(self.user_agent.clone())
        };
        WorkspaceSettings {
            timeout_ms: self.timeout_ms,
            follow_redirects: self.follow_redirects,
            max_redirects: self.max_redirects,
            verify_tls: self.verify_tls,
            proxy,
            user_agent,
        }
    }
}

/// A draft that nobody touched gives the settings back, unless they hold an
/// empty user agent.
pub proof fn lemma_untouched_draft_changes_nothing(s: SettingsV)
    requires
        s.user_agent != Some(Seq::<char>::empty()),
    ensures
        settings_of(draft_of(s)) == s,
{
    if let Some(ua) = s.user_agent {
        if ua.len() == 0 {
            assert(ua =~= Seq::<char>::empty());
        }
    }
}

/// The settings dialog.
#[derive(Debug)]
pub struct SettingsState {
    pub open: bool,
    pub category: Category,
    pub draft: Option<HttpDraft>,
}

/// What was clicked in a frame of the dialog.
#[derive(Debug, Clone, Copy, PartialEq, Eq, Structural)]
pub struct Clicks {
    pub save: bool,
    pub apply: bool,
    pub cancel: bool,
    /// The window was closed.
    pub closed: bool,
}

impl SettingsState {
    /// The dialog at the start of the program.
    pub fn new() -> (r: SettingsState)
        ensures
            !r.open,
            r.category == Category::Appearance,
            r.draft is None,
    {
        SettingsState { open: false, category: Category::Appearance, draft: None }
    }

    /// Before a frame: a closed dialog has no draft, an open one has the draft
    /// it had, or one of the current settings. Tells whether there is anything
    /// to draw.
    pub fn begin_frame(&mut self, current: Option<&WorkspaceSettings>) -> (draw: bool)
        ensures
            draw == old(self).open,
            final(self).open == old(self).open,
            final(self).category == old(self).category,
            !old(self).open ==> final(self).draft is None,
            old(self).open && old(self).draft is Some ==> final(self).draft == old(self).draft,
            old(self).open && old(self).draft is None ==> final(self).draft is Some && final(self).draft->Some_0@
                == draft_of(
                match current {
                    Some(s) => s@,
                    None => default_settings(),
                },
            ),
    {
        if !self.open {
            self.draft = None;
            return false;
        }
        if self.draft.is_none() {
            let draft = match current {
                Some(s) => HttpDraft::from_settings(s),
                None => HttpDraft::from_settings(&WorkspaceSettings::default()),
            };
            self.draft = Some(draft);
        }
        true
    }

    /// After a frame: what is to be saved, and the dialog closed where it is
    /// saved, cancelled or closed.
    pub fn end_frame(&mut self, clicks: Clicks) -> (saved: Option<WorkspaceSettings>)
        ensures
            opt_view(saved) == if clicks.save || clicks.apply {
                match old(self).draft {
                    Some(d) => Some(settings_of(d@)),
                    None => None,
                }
            } else {
                None
            },
            final(self).category == old(self).category,
            clicks.save || clicks.cancel || clicks.closed ==> !final(self).open && final(self).draft is None,
            !(clicks.save || clicks.cancel || clicks.closed) ==> final(self).open == old(self).open
                && final(self).draft == old(self).draft,
    {
        let saved = if clicks.save || clicks.apply {
            match &self.draft {
                Some(d) => Some(d.to_settings()),
                None => None,
            }
        } else {
            None
        };
        if clicks.save || clicks.cancel || clicks.closed {
            self.open = false;
            self.draft = None;
        }
        saved
    }
}

/// A message for the status line.
#[derive(Debug)]
pub struct StatusMessage {
    pub text: String,
    pub is_error: bool,
}

impl View for StatusMessage {
    type V = (Seq<char>, bool);

    open spec fn view(&self) -> (Seq<char>, bool) {
        (self.text@, self.is_error)
    }
}

impl StatusMessage {
    /// A note.
    pub fn info(text: &str) -> (r: StatusMessage)
        ensures
            r@ == (text@, false),
    {
        StatusMessage { text: text.to_owned(), is_error: false }
    }

    /// An error.
    pub fn error(text: &str) -> (r: StatusMessage)
        ensures
            r@ == (text@, true),
    {
        StatusMessage { text: text.to_owned(), is_error: true }
    }
}

/// What the status line says once the settings were written, or where there is
/// no workspace to write them to. `written` is the outcome of the write.
pub fn save_http_settings(workspace_open: bool, written: Result<(), String>) -> (r: StatusMessage)
    ensures
        r@ == if !workspace_open {
            ("No workspace open"@, true)
        } else {
            match written {
                Ok(_) => ("Settings saved"@, false),
                Err(e) => (e@, true),
            }
        },
{
    if !workspace_open {
        return StatusMessage::error("No workspace open");
    }
    match written {
        Ok(_) => StatusMessage::info("Settings saved"),
        Err(e) => StatusMessage::error(e.as_str()),
    }
}

} // verus!
