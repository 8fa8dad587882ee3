//! Workspaces and their settings.

use vstd::prelude::*;

use crate::view::{copy_opt, opt_view, Copied};

verus! {

broadcast use vstd::string::group_string_axioms;

/// A proxy.
#[derive(Debug)]
pub struct ProxyConfig {
    /// For example `http://127.0.0.1:8080`.
    pub url: String,
    /// Comma-separated host suffixes that are reached directly.
    pub no_proxy: String,
}

/// What [`ProxyConfig`] holds.
pub struct ProxyV {
    pub url: Seq<char>,
    pub no_proxy: Seq<char>,
}

impl View for ProxyConfig {
    type V = ProxyV;

    open spec fn view(&self) -> ProxyV {
        ProxyV {
            url: self.url@,
            no_proxy: self.no_proxy@,
        }
    }
}

impl Copied for ProxyConfig {
    fn copied(&self) -> (r: Self) {
        ProxyConfig {
            url: self.url.clone(),
            no_proxy: self.no_proxy.clone(),
        }
    }
}

/// Settings of a whole workspace.
#[derive(Debug)]
pub struct WorkspaceSettings {
    pub timeout_ms: u64,
    pub follow_redirects: bool,
    pub max_redirects: u32,
    pub verify_tls: bool,
    pub proxy: Option<ProxyConfig>,
    pub user_agent: Option<String>,
}

/// What [`WorkspaceSettings`] holds.
pub struct SettingsV {
    pub timeout_ms: u64,
    pub follow_redirects: bool,
    pub max_redirects: u32,
    pub verify_tls: bool,
    pub proxy: Option<ProxyV>,
    pub user_agent: Option<Seq<char>>,
}

impl View for WorkspaceSettings {
    type V = SettingsV;

    open spec fn view(&self) -> SettingsV {
        SettingsV {
            timeout_ms: self.timeout_ms,
            follow_redirects: self.follow_redirects,
            max_redirects: self.max_redirects,
            verify_tls: self.verify_tls,
            proxy: opt_view(self.proxy),
            user_agent: opt_view(self.user_agent),
        }
    }
}

impl Copied for WorkspaceSettings {
    fn copied(&self) -> (r: Self) {
        WorkspaceSettings {
            timeout_ms: self.timeout_ms,
            follow_redirects: self.follow_redirects,
            max_redirects: self.max_redirects,
            verify_tls: self.verify_tls,
            proxy: copy_opt(&self.proxy),
            user_agent: copy_opt(&self.user_agent),
        }
    }
}

/// The settings of a new workspace.
pub open spec fn default_settings() -> SettingsV {
    SettingsV {
        timeout_ms: 30_000,
        follow_redirects: true,
        max_redirects: 10,
        verify_tls: true,
        proxy: None,
        user_agent: None,
    }
}

impl Default for WorkspaceSettings {
    fn default() -> (r: Self)
        ensures
            r@ == default_settings(),
    {
        WorkspaceSettings {
            timeout_ms: 30_000,
            follow_redirects: true,
            max_redirects: 10,
            verify_tls: true,
            proxy: None,
            user_agent: None,
        }
    }
}

impl WorkspaceSettings {
    /// Whether the settings are those of a new workspace.
    pub fn is_default(&self) -> (r: bool)
        ensures
            r == (self@ == default_settings()),
    {
        self.timeout_ms == 30_000 && self.follow_redirects && self.max_redirects == 10 && self.verify_tls
            && self.proxy.is_none() && self.user_agent.is_none()
    }
}

/// The marker file of a workspace.
#[derive(Debug)]
pub struct WorkspaceMeta {
    pub format: u32,
    pub name: String,
    pub settings: WorkspaceSettings,
}

/// What [`WorkspaceMeta`] holds.
pub struct MetaV {
    pub format: u32,
    pub name: Seq<char>,
    pub settings: SettingsV,
}

impl View for WorkspaceMeta {
    type V = MetaV;

    open spec fn view(&self) -> MetaV {
        MetaV {
            format: self.format,
            name: self.name@,
            settings: self.settings@,
        }
    }
}

impl Copied for WorkspaceMeta {
    fn copied(&self) -> (r: Self) {
        WorkspaceMeta {
            format: self.format,
            name: self.name.clone(),
            settings: self.settings.copied(),
        }
    }
}

/// The format version of workspace files.
pub const FORMAT_VERSION: u32 = 1;

impl WorkspaceMeta {
    /// The marker of a new workspace.
    pub fn new(name: &str) -> (r: WorkspaceMeta)
        ensures
            r@ == (MetaV { format: 1, name: name@, settings: default_settings() }),
    {
        WorkspaceMeta { format: FORMAT_VERSION, name: name.to_owned(), settings: WorkspaceSettings::default() }
    }
}

} // verus!
