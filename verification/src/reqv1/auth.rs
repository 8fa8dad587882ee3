//! Project auth: which requests get a token, where the token comes from, and
//! how long it is good for.

use vstd::prelude::*;

use crate::json::{text_in, text_member};
use crate::paths::{absolute, climbs, equal_paths, is_absolute, lies_under, path_parts, same_path, under};
use crate::reqv1::diag::{diag, Code, Diagnostic, DiagnosticV};
use crate::reqv1::model::{
    DocumentV, HeaderSpec, HeaderSpecV, PipelineEntry, PipelineEntryV, PipelinePhase, ProjectAuthConfig, RequestDocument,
};
use crate::reqv1::pipeline::{query_one, query_result, ResponseV, ResponseView};
use crate::reqv1::runner::{ProjectAuthHeader, RunMode, RunStatus};
use crate::text::{
    cat2, cat3, cat4, cat5, eq_ignore_case, has_prefix, same, same_ignoring_case, starts_with,
};
use crate::view::{opt_view, ref_view, views};
use crate::words::{decimal, number_text, trim, trimmed};

verus! {

broadcast use vstd::string::group_string_axioms;

// ---------------------------------------------------------------------
// Paths inside the project
// ---------------------------------------------------------------------

/// A path that stays below the project root as it is written: not blank, not
/// absolute, and without `..`.
pub open spec fn project_relative(value: Seq<char>) -> bool {
    trimmed(value).len() > 0 && !is_absolute(value) && !path_parts(value).contains(seq!['.', '.'])
}

/// What becomes of a path that a project names: refused where it is not
/// relative, where the root or the path cannot be resolved, or where the
/// resolved path leaves the project.
pub open spec fn project_path(
    value: Seq<char>,
    label: Seq<char>,
    root: Seq<char>,
    path: Seq<char>,
    real_root: Result<Seq<char>, Seq<char>>,
    real_path: Result<Seq<char>, Seq<char>>,
) -> Result<Seq<char>, DiagnosticV> {
    if !project_relative(value) {
        Err(diag(Code::InvalidAssetInput, label + " must be a project-relative path"@))
    } else {
        match (real_root, real_path) {
            (Err(e), _) => Err(diag(Code::InvalidAssetInput, "cannot resolve project root "@ + root + ": "@ + e)),
            (Ok(_), Err(e)) => Err(
                diag(Code::AssetNotFound, "cannot resolve "@ + label + " "@ + path + ": "@ + e),
            ),
            (Ok(real_root), Ok(real_path)) => if lies_under(real_path, real_root) {
                Ok(real_path)
            } else {
                Err(diag(Code::InvalidAssetInput, label + " must stay inside the project"@))
            },
        }
    }
}

/// A text or an error, by their views.
pub open spec fn text_result(r: Result<String, String>) -> Result<Seq<char>, Seq<char>> {
    match r {
        Ok(s) => Ok(s@),
        Err(e) => Err(e@),
    }
}

/// A text or a diagnostic, by their views.
pub open spec fn text_or_diag(r: Result<String, Diagnostic>) -> Result<Seq<char>, DiagnosticV> {
    match r {
        Ok(s) => Ok(s@),
        Err(d) => Err(d@),
    }
}

/// Check a path that a project names. `path` is the path below `root`, and
/// `real_root` and `real_path` are what the file system resolves them to.
pub fn checked_project_path(
    value: &str,
    label: &str,
    root: &str,
    path: &str,
    real_root: Result<String, String>,
    real_path: Result<String, String>,
) -> (r: Result<String, Diagnostic>)
    ensures
        text_or_diag(r) == project_path(
            value@,
            label@,
            root@,
            path@,
            text_result(real_root),
            text_result(real_path),
        ),
{
    if trim(value).as_str().unicode_len() == 0 || absolute(value) || climbs(value) {
        return Err(Diagnostic::new(Code::InvalidAssetInput, cat2(label, " must be a project-relative path")));
    }
    let real_root = match real_root {
        Ok(p) => p,
        Err(e) => {
            return Err(
                Diagnostic::new(
                    Code::InvalidAssetInput,
                    cat4("cannot resolve project root ", root, ": ", e.as_str()),
                ),
            );
        },
    };
    let real_path = match real_path {
        Ok(p) => p,
        Err(e) => {
            let mut message = cat5("cannot resolve ", label, " ", path, ": ");
            message.append(e.as_str());
            return Err(Diagnostic::new(Code::AssetNotFound, message));
        },
    };
    if under(real_path.as_str(), real_root.as_str()) {
        Ok(real_path)
    } else {
        Err(Diagnostic::new(Code::InvalidAssetInput, cat2(label, " must stay inside the project")))
    }
}

// ---------------------------------------------------------------------
// Which requests get a token
// ---------------------------------------------------------------------

/// The token is for `target`: the auth request itself does without it, every
/// request in the scope gets it.
pub open spec fn serves(request: Seq<char>, apply_to: Seq<char>, target: Seq<char>) -> bool {
    !same_path(target, request) && (same_path(target, apply_to) || lies_under(target, apply_to))
}

/// Whether the token is for `target`, a path from the project root.
/// `validity` tells whether the settings are valid.
pub fn auth_applies(config: &ProjectAuthConfig, validity: Result<(), String>, target: &str) -> (r: Result<
    bool,
    Diagnostic,
>)
    ensures
        match validity {
            Err(message) => r matches Err(d) && d@ == diag(Code::InvalidAssetInput, message@),
            Ok(_) => r == Ok::<bool, Diagnostic>(serves(config.request@, config.apply_to@, target@)),
        },
{
    if let Err(message) = validity {
        return Err(Diagnostic::new(Code::InvalidAssetInput, message));
    }
    if equal_paths(target, config.request.as_str()) {
        return Ok(false);
    }
    Ok(equal_paths(target, config.apply_to.as_str()) || under(target, config.apply_to.as_str()))
}

/// A header that says `Authorization`.
pub open spec fn authorizes(h: HeaderSpecV) -> bool {
    h.enabled && same_ignoring_case(h.name, "authorization"@)
}

/// A hook that sets `Authorization`.
pub open spec fn hook_authorizes(e: PipelineEntryV) -> bool {
    &&& e.enabled
    &&& e.phase == PipelinePhase::BeforeRequest
    &&& {
        ||| has_prefix(e.uses, "builtin:bearer@"@)
        ||| has_prefix(e.uses, "builtin:basic@"@)
        ||| has_prefix(e.uses, "builtin:header@"@) && match text_member(e.with, "name"@) {
            Some(name) => same_ignoring_case(name, "authorization"@),
            None => false,
        }
    }
}

/// The document brings its own authorization.
pub open spec fn explicit_auth(doc: DocumentV) -> bool {
    ||| exists|i: int| 0 <= i < doc.request.headers.len() && authorizes(#[trigger] doc.request.headers[i])
    ||| exists|i: int| 0 <= i < doc.pipeline.len() && hook_authorizes(#[trigger] doc.pipeline[i])
}

fn is_authorization(h: &HeaderSpec) -> (r: bool)
    ensures
        r == authorizes(h@),
{
    h.enabled && eq_ignore_case(h.name.as_str(), "authorization")
}

fn sets_authorization(e: &PipelineEntry) -> (r: bool)
    ensures
        r == hook_authorizes(e@),
{
    if !e.enabled || e.phase != PipelinePhase::BeforeRequest {
        return false;
    }
    let uses = e.uses.as_str();
    if starts_with(uses, "builtin:bearer@") || starts_with(uses, "builtin:basic@") {
        return true;
    }
    if !starts_with(uses, "builtin:header@") {
        return false;
    }
    match e.with.get_str("name") {
        Some(name) => eq_ignore_case(name, "authorization"),
        None => false,
    }
}

/// Whether the document brings its own authorization: an enabled header, or an
/// enabled hook that sets one.
pub fn has_explicit_auth(doc: &RequestDocument) -> (r: bool)
    ensures
        r == explicit_auth(doc@),
{
    let ghost view = doc@;
    let headers = &doc.request.headers;
    let mut i: usize = 0;
    while i < headers.len()
        invariant
            i <= headers.len(),
            view == doc@,
            view.request.headers == views(headers@),
            forall|k: int| 0 <= k < i ==> !authorizes(#[trigger] view.request.headers[k]),
        decreases headers.len() - i,
    {
        if is_authorization(&headers[i]) {
            assert(authorizes(view.request.headers[i as int]));
            return true;
        }
        i += 1;
    }
    let mut j: usize = 0;
    while j < doc.pipeline.len()
        invariant
            j <= doc.pipeline.len(),
            view == doc@,
            view.pipeline == views(doc.pipeline@),
            forall|k: int| 0 <= k < j ==> !hook_authorizes(#[trigger] view.pipeline[k]),
        decreases doc.pipeline.len() - j,
    {
        if sets_authorization(&doc.pipeline[j]) {
            assert(hook_authorizes(view.pipeline[j as int]));
            return true;
        }
        j += 1;
    }
    false
}

/// Whether a request gets the project token: there is one, it is for the
/// request, and the request brings no authorization of its own.
pub fn needs_token(
    config: Option<&ProjectAuthConfig>,
    validity: Result<(), String>,
    target: &str,
    doc: &RequestDocument,
) -> (r: Result<bool, Diagnostic>)
    ensures
        match config {
            None => r == Ok::<bool, Diagnostic>(false),
            Some(config) => match validity {
                Err(message) => r matches Err(d) && d@ == diag(Code::InvalidAssetInput, message@),
                Ok(_) => r == Ok::<bool, Diagnostic>(
                    serves(config.request@, config.apply_to@, target@) && !explicit_auth(doc@),
                ),
            },
        },
{
    match config {
        None => Ok(false),
        Some(config) => match auth_applies(config, validity, target) {
            Err(d) => Err(d),
            Ok(applies) => Ok(applies && !has_explicit_auth(doc)),
        },
    }
}

// ---------------------------------------------------------------------
// Tokens
// ---------------------------------------------------------------------

/// The token in a response, at the JSONPath `token_path`.
pub open spec fn token_in(token_path: Seq<char>, response: ResponseV) -> Result<Seq<char>, DiagnosticV> {
    match query_result(response.body, token_path) {
        Err(d) => Err(d),
        Ok(v) => match text_in(Some(v)) {
            Some(token) if token.len() > 0 => Ok(token),
            _ => Err(
                diag(Code::InvalidAssetInput, "auth token at "@ + token_path + " must be a non-empty string"@),
            ),
        },
    }
}

/// What a run of the auth request gives: its token, or why there is none.
pub open spec fn fetched_token(
    request: Seq<char>,
    token_path: Seq<char>,
    status: RunStatus,
    complaint: Option<Seq<char>>,
    response: Option<ResponseV>,
) -> Result<Seq<char>, DiagnosticV> {
    if status != RunStatus::Passed {
        let detail = match complaint {
            Some(message) => ": "@ + message,
            None => seq![],
        };
        Err(diag(Code::HttpError, "auth request "@ + request + " failed"@ + detail))
    } else {
        match response {
            None => Err(diag(Code::HttpError, "auth request "@ + request + " returned no response"@)),
            Some(r) => if !(200 <= r.status < 300) {
                Err(
                    diag(
                        Code::HttpError,
                        "auth request "@ + request + " returned HTTP "@ + decimal(r.status as nat),
                    ),
                )
            } else {
                token_in(token_path, r)
            },
        }
    }
}

/// Take the token from a run of the auth request. `complaint` is the message
/// of the run's first diagnostic.
pub fn token_from_run(
    config: &ProjectAuthConfig,
    status: RunStatus,
    complaint: Option<&str>,
    response: Option<&ResponseView>,
) -> (r: Result<String, Diagnostic>)
    ensures
        text_or_diag(r) == fetched_token(
            config.request@,
            config.token_path@,
            status,
            ref_view(complaint),
            ref_view(response),
        ),
{
    let request = config.request.as_str();
    if status != RunStatus::Passed {
        let mut message = cat3("auth request ", request, " failed");
        if let Some(detail) = complaint {
            let ghost before = message@;
            message.append(": ");
            message.append(detail);
            assert(message@ =~= before + (": "@ + detail@));
        } else {
            assert(message@ =~= message@ + Seq::<char>::empty());
        }
        return Err(Diagnostic::new(Code::HttpError, message));
    }
    let response = match response {
        Some(r) => r,
        None => {
            return Err(Diagnostic::new(Code::HttpError, cat3("auth request ", request, " returned no response")));
        },
    };
    if !(200 <= response.status && response.status < 300) {
        let status = number_text(response.status as u64);
        return Err(
            Diagnostic::new(Code::HttpError, cat4("auth request ", request, " returned HTTP ", status.as_str())),
        );
    }
    match query_one(response, config.token_path.as_str()) {
        Err(d) => Err(d),
        Ok(v) => {
            if let Some(token) = v.as_str() {
                if token.unicode_len() > 0 {
                    return Ok(token.to_owned());
                }
            }
            Err(
                Diagnostic::new(
                    Code::InvalidAssetInput,
                    cat3("auth token at ", config.token_path.as_str(), " must be a non-empty string"),
                ),
            )
        },
    }
}

// ---------------------------------------------------------------------
// The session
// ---------------------------------------------------------------------

/// What a token was fetched for.
#[derive(Debug)]
pub struct AuthKey {
    pub root: String,
    pub provider: String,
    /// The JSON text of the environment.
    pub environment: String,
    /// The JSON text of the auth settings.
    pub settings: String,
    pub mode: RunMode,
}

/// What an [`AuthKey`] says.
pub struct AuthKeyV {
    pub root: Seq<char>,
    pub provider: Seq<char>,
    pub environment: Seq<char>,
    pub settings: Seq<char>,
    pub mode: RunMode,
}

impl View for AuthKey {
    type V = AuthKeyV;

    open spec fn view(&self) -> AuthKeyV {
        AuthKeyV {
            root: self.root@,
            provider: self.provider@,
            environment: self.environment@,
            settings: self.settings@,
            mode: self.mode,
        }
    }
}

/// A token and when it expires, in nanoseconds on the clock of the session.
#[derive(Debug)]
pub struct CachedAuth {
    pub value: String,
    pub expires_at: u128,
}

/// Tokens and observed request durations, kept in memory.
#[derive(Debug)]
pub struct AuthSession {
    pub tokens: Vec<(AuthKey, CachedAuth)>,
    /// For each root and request, its longest run in milliseconds.
    pub durations: Vec<((String, String), u64)>,
}

/// The token kept for `key`, and when it expires.
pub open spec fn kept_token(tokens: Seq<(AuthKey, CachedAuth)>, key: AuthKeyV) -> Option<(Seq<char>, u128)>
    decreases tokens.len(),
{
    if tokens.len() == 0 {
        None
    } else if tokens[0].0@ == key {
        Some((tokens[0].1.value@, tokens[0].1.expires_at))
    } else {
        kept_token(tokens.skip(1), key)
    }
}

/// The longest run of a request in milliseconds; zero where there was none.
pub open spec fn longest_run(durations: Seq<((String, String), u64)>, root: Seq<char>, request: Seq<char>) -> u64
    decreases durations.len(),
{
    if durations.len() == 0 {
        0
    } else if durations[0].0.0@ == root && durations[0].0.1@ == request {
        durations[0].1
    } else {
        longest_run(durations.skip(1), root, request)
    }
}

/// Without a token for one key, every other key keeps its token.
proof fn lemma_token_removed(tokens: Seq<(AuthKey, CachedAuth)>, i: int, other: AuthKeyV)
    requires
        0 <= i < tokens.len(),
        tokens[i].0@ != other,
    ensures
        kept_token(tokens.remove(i), other) == kept_token(tokens, other),
    decreases tokens.len(),
{
    if i == 0 {
        assert(tokens.remove(0) =~= tokens.skip(1));
    } else {
        assert(tokens.remove(i).skip(1) =~= tokens.skip(1).remove(i - 1));
        assert(tokens.remove(i)[0] == tokens[0]);
        lemma_token_removed(tokens.skip(1), i - 1, other);
    }
}

/// Without the runs of one request, every other request keeps its runs.
proof fn lemma_duration_removed(
    durations: Seq<((String, String), u64)>,
    i: int,
    root: Seq<char>,
    request: Seq<char>,
)
    requires
        0 <= i < durations.len(),
        durations[i].0.0@ != root || durations[i].0.1@ != request,
    ensures
        longest_run(durations.remove(i), root, request) == longest_run(durations, root, request),
    decreases durations.len(),
{
    if i == 0 {
        assert(durations.remove(0) =~= durations.skip(1));
    } else {
        assert(durations.remove(i).skip(1) =~= durations.skip(1).remove(i - 1));
        assert(durations.remove(i)[0] == durations[0]);
        lemma_duration_removed(durations.skip(1), i - 1, root, request);
    }
}

/// How long a token must still be good, in nanoseconds, to serve a request:
/// the refresh window and the longest run of the request.
pub open spec fn required_nanos(refresh_before_seconds: u64, estimated_ms: u64) -> int {
    refresh_before_seconds * 1_000_000_000 + estimated_ms * 1_000_000
}

/// The token that is kept, if it is good for long enough.
pub open spec fn usable_token(
    kept: Option<(Seq<char>, u128)>,
    now: u64,
    refresh_before_seconds: u64,
    estimated_ms: u64,
) -> Option<Seq<char>> {
    match kept {
        Some((value, expires_at)) => if expires_at - now > required_nanos(refresh_before_seconds, estimated_ms) {
            Some(value)
        } else {
            None
        },
        None => None,
    }
}

impl AuthSession {
    /// The token kept for `key`, and when it expires.
    pub open spec fn token(&self, key: AuthKeyV) -> Option<(Seq<char>, u128)> {
        kept_token(self.tokens@, key)
    }

    /// The longest run of a request in milliseconds.
    pub open spec fn longest(&self, root: Seq<char>, request: Seq<char>) -> u64 {
        longest_run(self.durations@, root, request)
    }

    /// A session without tokens and runs.
    pub fn new() -> (r: AuthSession)
        ensures
            forall|key: AuthKeyV| r.token(key) is None,
            forall|root: Seq<char>, request: Seq<char>| r.longest(root, request) == 0,
    {
        AuthSession { tokens: Vec::new(), durations: Vec::new() }
    }

    /// The longest run of a request in milliseconds.
    pub fn estimate(&self, root: &str, request: &str) -> (r: u64)
        ensures
            r == self.longest(root@, request@),
    {
        let ghost all = self.durations@;
        let mut i: usize = 0;
        assert(all.skip(0) =~= all);
        while i < self.durations.len()
            invariant
                i <= self.durations.len(),
                all == self.durations@,
                longest_run(all, root@, request@) == longest_run(all.skip(i as int), root@, request@),
            decreases self.durations.len() - i,
        {
            if same(self.durations[i].0.0.as_str(), root) && same(self.durations[i].0.1.as_str(), request) {
                return self.durations[i].1;
            }
            assert(all.skip(i as int).skip(1) =~= all.skip(i + 1));
            i += 1;
        }
        0
    }

    /// A kept token that outlives the refresh window and the longest run of
    /// the request, if there is one.
    pub fn usable(&self, key: &AuthKey, now: u64, refresh_before_seconds: u64, estimated_ms: u64) -> (r: Option<String>)
        ensures
            opt_view(r) == usable_token(self.token(key@), now, refresh_before_seconds, estimated_ms),
    {
        let required: u128 = refresh_before_seconds as u128 * 1_000_000_000 + estimated_ms as u128 * 1_000_000;
        let ghost all = self.tokens@;
        let mut i: usize = 0;
        assert(all.skip(0) =~= all);
        while i < self.tokens.len()
            invariant
                i <= self.tokens.len(),
                all == self.tokens@,
                required == required_nanos(refresh_before_seconds, estimated_ms),
                self.token(key@) == kept_token(all.skip(i as int), key@),
            decreases self.tokens.len() - i,
        {
            if same_key(&self.tokens[i].0, key) {
                let cached = &self.tokens[i].1;
                if cached.expires_at > now as u128 && cached.expires_at - now as u128 > required {
                    return Some(cached.value.clone());
                }
                return None;
            }
            assert(all.skip(i as int).skip(1) =~= all.skip(i + 1));
            i += 1;
        }
        None
    }

    /// Keep a token that was fetched at `now` and is good for a time.
    pub fn remember(&mut self, key: AuthKey, token: String, now: u64, lifetime_seconds: u64)
        ensures
            final(self).token(key@) == Some((token@, (now + lifetime_seconds * 1_000_000_000) as u128)),
            forall|other: AuthKeyV| other != key@ ==> final(self).token(other) == old(self).token(other),
            final(self).durations == old(self).durations,
    {
        let expires_at: u128 = now as u128 + lifetime_seconds as u128 * 1_000_000_000;
        let cached = CachedAuth { value: token, expires_at };
        let ghost old_tokens = self.tokens@;
        let ghost k = key@;
        let mut i: usize = 0;
        while i < self.tokens.len()
            invariant
                i <= self.tokens.len(),
                k == key@,
                self.durations == old(self).durations,
                forall|other: AuthKeyV| other != k ==> kept_token(self.tokens@, other) == kept_token(old_tokens, other),
            decreases self.tokens.len() - i,
        {
            if same_key(&self.tokens[i].0, &key) {
                let ghost before = self.tokens@;
                let _ = self.tokens.remove(i);
                proof {
                    assert forall|other: AuthKeyV| other != k implies kept_token(self.tokens@, other) == kept_token(
                        old_tokens,
                        other,
                    ) by {
                        lemma_token_removed(before, i as int, other);
                    }
                }
            } else {
                i += 1;
            }
        }
        let ghost rest = self.tokens@;
        self.tokens.insert(0, (key, cached));
        proof {
            assert(self.tokens@.skip(1) =~= rest);
        }
    }

    /// Take note of a run: the longest one stays.
    pub fn record_duration(&mut self, root: &str, request: &str, duration_ms: u64)
        ensures
            final(self).longest(root@, request@) == if old(self).longest(root@, request@) > duration_ms {
                old(self).longest(root@, request@)
            } else {
                duration_ms
            },
            forall|a: Seq<char>, b: Seq<char>|
                a != root@ || b != request@ ==> final(self).longest(a, b) == old(self).longest(a, b),
            final(self).tokens == old(self).tokens,
    {
        let known: u64 = self.estimate(root, request);
        let longest: u64 = if known > duration_ms {
            known
        } else {
            duration_ms
        };
        let ghost start = self.durations@;
        let mut i: usize = 0;
        while i < self.durations.len()
            invariant
                i <= self.durations.len(),
                self.tokens == old(self).tokens,
                forall|a: Seq<char>, b: Seq<char>|
                    a != root@ || b != request@ ==> longest_run(self.durations@, a, b) == longest_run(start, a, b),
            decreases self.durations.len() - i,
        {
            if same(self.durations[i].0.0.as_str(), root) && same(self.durations[i].0.1.as_str(), request) {
                let ghost before = self.durations@;
                let _ = self.durations.remove(i);
                proof {
                    assert forall|a: Seq<char>, b: Seq<char>| a != root@ || b != request@ implies longest_run(
                        self.durations@,
                        a,
                        b,
                    ) == longest_run(start, a, b) by {
                        lemma_duration_removed(before, i as int, a, b);
                    }
                }
            } else {
                i += 1;
            }
        }
        let ghost rest = self.durations@;
        self.durations.insert(0, ((root.to_owned(), request.to_owned()), longest));
        proof {
            assert(self.durations@.skip(1) =~= rest);
        }
    }
}

fn same_key(a: &AuthKey, b: &AuthKey) -> (r: bool)
    ensures
        r == (a@ == b@),
{
    same(a.root.as_str(), b.root.as_str()) && same(a.provider.as_str(), b.provider.as_str()) && same(
        a.environment.as_str(),
        b.environment.as_str(),
    ) && same(a.settings.as_str(), b.settings.as_str()) && a.mode == b.mode
}

// ---------------------------------------------------------------------
// One request
// ---------------------------------------------------------------------

/// What is done about the token of a request.
#[derive(Debug)]
pub enum AuthStep {
    /// The request is sent as it is.
    Plain,
    /// The request is sent with a token that was kept.
    Kept(ProjectAuthHeader),
    /// The auth request has to be run first.
    Fetch,
}

/// What an [`AuthStep`] says.
pub enum AuthStepV {
    Plain,
    Kept(Seq<char>),
    Fetch,
}

impl View for AuthStep {
    type V = AuthStepV;

    open spec fn view(&self) -> AuthStepV {
        match self {
            AuthStep::Plain => AuthStepV::Plain,
            AuthStep::Kept(header) => AuthStepV::Kept(header.token@),
            AuthStep::Fetch => AuthStepV::Fetch,
        }
    }
}

/// What becomes of the token for a request: nothing where the request is none of
/// those that get it, or has auth of its own; else the kept token, where it is
/// good for long enough, or a new one.
pub open spec fn step_for(served: bool, own_auth: bool, usable: Option<Seq<char>>) -> AuthStepV {
    if !served || own_auth {
        AuthStepV::Plain
    } else {
        match usable {
            Some(token) => AuthStepV::Kept(token),
            None => AuthStepV::Fetch,
        }
    }
}

impl AuthSession {
    /// Decide about the token of the request at `target`. `validity` tells
    /// whether the settings are sound, and `key` is what a token would be
    /// fetched for.
    pub fn decide(
        &self,
        config: Option<&ProjectAuthConfig>,
        validity: Result<(), String>,
        target: &str,
        doc: &RequestDocument,
        key: &AuthKey,
        now: u64,
    ) -> (r: Result<AuthStep, Diagnostic>)
        ensures
            match config {
                None => r matches Ok(step) && step@ == AuthStepV::Plain,
                Some(config) => match validity {
                    Err(message) => r matches Err(d) && d@ == diag(Code::InvalidAssetInput, message@),
                    Ok(_) => r matches Ok(step) && step@ == if !serves(config.request@, config.apply_to@, target@)
                        || explicit_auth(doc@) {
                        AuthStepV::Plain
                    } else {
                        match usable_token(
                            self.token(key@),
                            now,
                            config.refresh_before_seconds,
                            self.longest(key@.root, target@),
                        ) {
                            Some(token) => AuthStepV::Kept(token),
                            None => AuthStepV::Fetch,
                        }
                    },
                },
            },
            r matches Ok(AuthStep::Kept(header)) ==> !header.refreshed,
            config matches Some(config) ==> (r matches Ok(step) ==> step@ == step_for(
                serves(config.request@, config.apply_to@, target@),
                explicit_auth(doc@),
                usable_token(
                    self.token(key@),
                    now,
                    config.refresh_before_seconds,
                    self.longest(key@.root, target@),
                ),
            )),
    {
        match needs_token(config, validity, target, doc) {
            Err(d) => Err(d),
            Ok(false) => Ok(AuthStep::Plain),
            Ok(true) => match config {
                None => Ok(AuthStep::Plain),
                Some(config) => {
                    let estimated: u64 = self.estimate(key.root.as_str(), target);
                    match self.usable(key, now, config.refresh_before_seconds, estimated) {
                        Some(token) => Ok(AuthStep::Kept(ProjectAuthHeader { token, refreshed: false })),
                        None => Ok(AuthStep::Fetch),
                    }
                },
            },
        }
    }

    /// Take over the outcome of the auth request: its token is kept, and goes
    /// with the request. A run without a token changes nothing.
    pub fn accept(
        &mut self,
        config: &ProjectAuthConfig,
        key: AuthKey,
        status: RunStatus,
        complaint: Option<&str>,
        response: Option<&ResponseView>,
        now: u64,
    ) -> (r: Result<ProjectAuthHeader, Diagnostic>)
        ensures
            match fetched_token(config.request@, config.token_path@, status, ref_view(complaint), ref_view(response)) {
                Err(d) => r matches Err(e) && e@ == d && *final(self) == *old(self),
                Ok(token) => {
                    &&& r matches Ok(header) && header.token@ == token && header.refreshed
                    &&& final(self).token(key@) == Some(
                        (token, (now + config.lifetime_seconds * 1_000_000_000) as u128),
                    )
                    &&& forall|other: AuthKeyV| other != key@ ==> final(self).token(other) == old(self).token(other)
                    &&& final(self).durations == old(self).durations
                },
            },
    {
        match token_from_run(config, status, complaint, response) {
            Err(d) => Err(d),
            Ok(token) => {
                self.remember(key, token.clone(), now, config.lifetime_seconds);
                Ok(ProjectAuthHeader { token, refreshed: true })
            },
        }
    }
}

// ---------------------------------------------------------------------
// Laws
// ---------------------------------------------------------------------

/// A token that was just kept serves the next request exactly if it lives
/// longer than the refresh window and the longest run of that request.
pub proof fn lemma_fresh_token_serves(
    token: Seq<char>,
    now: u64,
    lifetime_seconds: u64,
    refresh_before_seconds: u64,
    estimated_ms: u64,
)
    ensures
        usable_token(
            Some((token, (now + lifetime_seconds * 1_000_000_000) as u128)),
            now,
            refresh_before_seconds,
            estimated_ms,
        ) == if lifetime_seconds * 1_000_000_000 > required_nanos(refresh_before_seconds, estimated_ms) {
            Some(token)
        } else {
            None
        },
{
}

/// As time goes on a kept token is given up, and never taken up again.
pub proof fn lemma_given_up_for_good(
    kept: Option<(Seq<char>, u128)>,
    now: u64,
    later: u64,
    refresh_before_seconds: u64,
    estimated_ms: u64,
)
    requires
        now <= later,
        usable_token(kept, now, refresh_before_seconds, estimated_ms) is None,
    ensures
        usable_token(kept, later, refresh_before_seconds, estimated_ms) is None,
{
}

} // verus!
