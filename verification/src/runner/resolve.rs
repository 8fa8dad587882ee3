//! A stored request and its variables become a request that can be sent:
//! interpolation, parameters, headers, auth and body. The token of an OAuth 2
//! grant and the content of a body file come from outside.

use vstd::prelude::*;
use vstd::utf8::encode_utf8;

use crate::exec::{
    no_pairs, push_pair, text_pairs, ExecBodyV, ExecRequestV, PartData, PartDataV, PartV, ResolvedBody, ResolvedPart,
    ResolvedRequest,
};
use crate::json::{json_parse, parse, print, printed, Json, JsonV};
use crate::model::auth::{ApiKeyPlacement, AuthConfig, AuthV};
use crate::model::body::{
    row_counts, BodyDef, BodyDefV, ContentV, KeyValue, MultipartPart, MultipartV, PartContent, RawLanguage, RowV,
};
use crate::model::request::{Param, ParamKind, ParamV, RequestDef, RequestDefV};
use crate::model::workspace::{SettingsV, WorkspaceSettings};
use crate::paths::{absolute, is_absolute, parts_of, path_parts};
use crate::reqv1::outgoing::{has_header, names_header};
use crate::reqv1::pipeline::{base64_text, encode_base64};
use crate::text::{cat2, cat3, chars_of, find_from, first_at, is_digit, is_letter, lemma_first_at, same, text_between};
use crate::vars::{expanded, interpolate, unresolved_text, InterpolateError, LayerV, VarScopes};
use crate::view::{copy_list, copy_opt, group_views, opt_or, opt_view, views, Copied};
use crate::words::{bytes_of, join, joined, percent_bytes, percent_encode, split, split_on, trim, trimmed};

verus! {

broadcast use vstd::string::group_string_axioms;

// ---------------------------------------------------------------------
// Errors
// ---------------------------------------------------------------------

/// Why a request could not be made ready.
#[derive(Debug)]
pub enum ResolveError {
    Interpolate(InterpolateError),
    Auth(String),
    /// The URL is none, or the token could not be fetched.
    Exec(String),
    Body(String),
}

/// What a [`ResolveError`] says.
pub enum ResolveErrorV {
    /// The name that no scope knows.
    Interpolate(Seq<char>),
    Auth(Seq<char>),
    Exec(Seq<char>),
    Body(Seq<char>),
}

impl View for ResolveError {
    type V = ResolveErrorV;

    open spec fn view(&self) -> ResolveErrorV {
        match self {
            ResolveError::Interpolate(e) => ResolveErrorV::Interpolate(e@),
            ResolveError::Auth(s) => ResolveErrorV::Auth(s@),
            ResolveError::Exec(s) => ResolveErrorV::Exec(s@),
            ResolveError::Body(s) => ResolveErrorV::Body(s@),
        }
    }
}

/// The error in words.
pub open spec fn error_text(e: ResolveErrorV) -> Seq<char> {
    match e {
        ResolveErrorV::Interpolate(name) => unresolved_text(name),
        ResolveErrorV::Auth(s) => "auth: "@ + s,
        ResolveErrorV::Exec(s) => s,
        ResolveErrorV::Body(s) => "invalid body: "@ + s,
    }
}

impl ResolveError {
    /// The error in words.
    pub fn message(&self) -> (r: String)
        ensures
            r@ == error_text(self@),
    {
        match self {
            ResolveError::Interpolate(e) => e.message(),
            ResolveError::Auth(s) => cat2("auth: ", s.as_str()),
            ResolveError::Exec(s) => s.clone(),
            ResolveError::Body(s) => cat2("invalid body: ", s.as_str()),
        }
    }
}

/// A text with its variables filled in, or the error.
pub open spec fn text_ready(s: Seq<char>, layers: Seq<LayerV>) -> Result<Seq<char>, ResolveErrorV> {
    match expanded(s, layers) {
        Ok(t) => Ok(t),
        Err(name) => Err(ResolveErrorV::Interpolate(name)),
    }
}

/// A text or an error, by their views.
pub open spec fn ready_view(r: Result<String, ResolveError>) -> Result<Seq<char>, ResolveErrorV> {
    match r {
        Ok(s) => Ok(s@),
        Err(e) => Err(e@),
    }
}

/// Pairs or an error, by their views.
pub open spec fn pairs_result(r: Result<Vec<(String, String)>, ResolveError>) -> Result<
    Seq<(Seq<char>, Seq<char>)>,
    ResolveErrorV,
> {
    match r {
        Ok(pairs) => Ok(text_pairs(pairs@)),
        Err(e) => Err(e@),
    }
}

fn fill(s: &str, scopes: &VarScopes) -> (r: Result<String, ResolveError>)
    ensures
        ready_view(r) == text_ready(s@, scopes@),
{
    match interpolate(s, scopes) {
        Ok(t) => Ok(t),
        Err(e) => Err(ResolveError::Interpolate(e)),
    }
}

// ---------------------------------------------------------------------
// Rows
// ---------------------------------------------------------------------

/// The first `n` rows: those that count, with their values filled in.
pub open spec fn rows_ready(rows: Seq<RowV>, layers: Seq<LayerV>, n: int) -> Result<
    Seq<(Seq<char>, Seq<char>)>,
    ResolveErrorV,
>
    decreases n,
{
    if n <= 0 || n > rows.len() {
        Ok(seq![])
    } else {
        match rows_ready(rows, layers, n - 1) {
            Err(e) => Err(e),
            Ok(before) => if !row_counts(rows[n - 1]) {
                Ok(before)
            } else {
                match text_ready(rows[n - 1].value, layers) {
                    Err(e) => Err(e),
                    Ok(value) => Ok(before.push((rows[n - 1].key, value))),
                }
            },
        }
    }
}

proof fn lemma_rows_cut(rows: Seq<RowV>, layers: Seq<LayerV>, n: int, m: int)
    requires
        0 <= n <= m <= rows.len(),
        rows_ready(rows, layers, n) is Err,
    ensures
        rows_ready(rows, layers, m) == rows_ready(rows, layers, n),
    decreases m,
{
    if n < m {
        lemma_rows_cut(rows, layers, n, m - 1);
    }
}

/// Fill in the values of the rows that count.
pub fn resolve_rows(rows: &Vec<KeyValue>, scopes: &VarScopes) -> (r: Result<Vec<(String, String)>, ResolveError>)
    ensures
        pairs_result(r) == rows_ready(views(rows@), scopes@, rows@.len() as int),
{
    let ghost all = views(rows@);
    let mut out = no_pairs();
    let mut i: usize = 0;
    while i < rows.len()
        invariant
            i <= rows.len(),
            all == views(rows@),
            rows_ready(all, scopes@, i as int) == Ok::<Seq<(Seq<char>, Seq<char>)>, ResolveErrorV>(text_pairs(out@)),
        decreases rows.len() - i,
    {
        assert(all[i as int] == rows@[i as int]@);
        if rows[i].is_active() {
            match fill(rows[i].value.as_str(), scopes) {
                Ok(value) => push_pair(&mut out, rows[i].key.clone(), value),
                Err(e) => {
                    proof {
                        lemma_rows_cut(all, scopes@, i + 1, all.len() as int);
                    }
                    return Err(e);
                },
            }
        }
        i += 1;
    }
    Ok(out)
}

// ---------------------------------------------------------------------
// Auth
// ---------------------------------------------------------------------

/// The auth that applies: the request's own, or that of the nearest ancestor
/// that does not leave it to its parent.
pub open spec fn auth_in_force(own: AuthV, chain: Seq<AuthV>) -> Option<AuthV>
    decreases chain.len(),
{
    if !(own is Inherit) {
        Some(own)
    } else if chain.len() == 0 {
        None
    } else {
        auth_in_force(chain[0], chain.skip(1))
    }
}

/// The auth that applies; the nearest ancestor comes first in the chain.
pub fn effective_auth<'a>(own: &'a AuthConfig, chain: &Vec<&'a AuthConfig>) -> (r: Option<&'a AuthConfig>)
    ensures
        match r {
            Some(a) => auth_in_force(own@, views(chain@)) == Some(a@),
            None => auth_in_force(own@, views(chain@)) is None,
        },
{
    if !own.is_inherit() {
        return Some(own);
    }
    let ghost all = views(chain@);
    let mut i: usize = 0;
    assert(all.skip(0) =~= all);
    while i < chain.len()
        invariant
            i <= chain.len(),
            all == views(chain@),
            auth_in_force(own@, all) == auth_in_force(AuthV::Inherit, all.skip(i as int)),
        decreases chain.len() - i,
    {
        assert(all.skip(i as int)[0] == chain@[i as int]@);
        assert(all.skip(i as int).skip(1) =~= all.skip(i + 1));
        if !chain[i].is_inherit() {
            assert(auth_in_force(chain@[i as int]@, all.skip(i + 1)) == Some(chain@[i as int]@));
            return Some(chain[i]);
        }
        i += 1;
    }
    None
}

/// A token of an OAuth 2 grant.
#[derive(Debug)]
pub struct Token {
    pub token_type: String,
    pub access_token: String,
}

/// What comes from outside: a token, and the content of a body file.
#[derive(Debug)]
pub struct Outside {
    pub token: Option<Result<Token, String>>,
    pub file: Option<Result<Vec<u8>, String>>,
}

/// What [`Outside`] holds.
pub struct OutsideV {
    pub token: Option<Result<(Seq<char>, Seq<char>), Seq<char>>>,
    pub file: Option<Result<Seq<u8>, Seq<char>>>,
}

impl View for Outside {
    type V = OutsideV;

    open spec fn view(&self) -> OutsideV {
        OutsideV {
            token: match self.token {
                None => None,
                Some(Ok(t)) => Some(Ok((t.token_type@, t.access_token@))),
                Some(Err(e)) => Some(Err(e@)),
            },
            file: match self.file {
                None => None,
                Some(Ok(bytes)) => Some(Ok(bytes@)),
                Some(Err(e)) => Some(Err(e@)),
            },
        }
    }
}

/// Headers and query parameters that auth adds.
pub struct AdditionsV {
    pub headers: Seq<(Seq<char>, Seq<char>)>,
    pub query: Seq<(Seq<char>, Seq<char>)>,
}

/// Nothing to add.
pub open spec fn no_additions() -> AdditionsV {
    AdditionsV { headers: seq![], query: seq![] }
}

/// One `Authorization` header to add.
pub open spec fn authorization(value: Seq<char>) -> AdditionsV {
    AdditionsV { headers: seq![("Authorization"@, value)], query: seq![] }
}

/// What a token adds.
pub open spec fn token_additions(token: Option<Result<(Seq<char>, Seq<char>), Seq<char>>>) -> Result<
    AdditionsV,
    ResolveErrorV,
> {
    match token {
        Some(Ok((kind, value))) => Ok(authorization(kind + " "@ + value)),
        Some(Err(e)) => Err(ResolveErrorV::Exec(e)),
        None => Err(ResolveErrorV::Auth("no OAuth2 token was fetched"@)),
    }
}

/// What auth adds to a request.
pub open spec fn auth_additions(auth: Option<AuthV>, layers: Seq<LayerV>, outside: OutsideV) -> Result<
    AdditionsV,
    ResolveErrorV,
> {
    match auth {
        None => Ok(no_additions()),
        Some(AuthV::Basic { username, password }) => match text_ready(username, layers) {
            Err(e) => Err(e),
            Ok(user) => match text_ready(password, layers) {
                Err(e) => Err(e),
                Ok(pass) => Ok(authorization("Basic "@ + base64_text(encode_utf8(user + ":"@ + pass)))),
            },
        },
        Some(AuthV::Bearer { token, prefix }) => match text_ready(token, layers) {
            Err(e) => Err(e),
            Ok(token) => match prefix {
                None => Ok(authorization("Bearer"@ + " "@ + token)),
                Some(prefix) => match text_ready(prefix, layers) {
                    Err(e) => Err(e),
                    Ok(prefix) => Ok(authorization(prefix + " "@ + token)),
                },
            },
        },
        Some(AuthV::ApiKey { key, value, placement }) => match text_ready(key, layers) {
            Err(e) => Err(e),
            Ok(key) => match text_ready(value, layers) {
                Err(e) => Err(e),
                Ok(value) => match placement {
                    ApiKeyPlacement::Header => Ok(AdditionsV { headers: seq![(key, value)], query: seq![] }),
                    ApiKeyPlacement::Query => Ok(AdditionsV { headers: seq![], query: seq![(key, value)] }),
                },
            },
        },
        Some(AuthV::OAuth2ClientCredentials { token_url, client_id, client_secret, .. }) => match token_wanted(
            token_url,
            client_id,
            client_secret,
            layers,
        ) {
            Err(e) => Err(e),
            Ok(_) => token_additions(outside.token),
        },
        Some(AuthV::OAuth2AuthCode { .. }) => Err(
            ResolveErrorV::Auth("interactive OAuth2 authorization-code flow requires the GUI"@),
        ),
        Some(_) => Ok(no_additions()),
    }
}

/// The token endpoint, the client and its secret, filled in.
pub open spec fn token_wanted(
    token_url: Seq<char>,
    client_id: Seq<char>,
    client_secret: Seq<char>,
    layers: Seq<LayerV>,
) -> Result<(Seq<char>, Seq<char>, Seq<char>), ResolveErrorV> {
    match text_ready(token_url, layers) {
        Err(e) => Err(e),
        Ok(url) => match text_ready(client_id, layers) {
            Err(e) => Err(e),
            Ok(id) => match text_ready(client_secret, layers) {
                Err(e) => Err(e),
                Ok(secret) => Ok((url, id, secret)),
            },
        },
    }
}

/// What to ask a token endpoint for.
#[derive(Debug)]
pub struct TokenRequest {
    pub token_url: String,
    pub client_id: String,
    pub client_secret: String,
    pub scopes: Vec<String>,
    pub credentials_in_body: bool,
}

fn want_token(token_url: &str, client_id: &str, client_secret: &str, scopes: &VarScopes) -> (r: Result<
    (String, String, String),
    ResolveError,
>)
    ensures
        token_wanted(token_url@, client_id@, client_secret@, scopes@) == match r {
            Ok((a, b, c)) => Ok::<(Seq<char>, Seq<char>, Seq<char>), ResolveErrorV>((a@, b@, c@)),
            Err(e) => Err::<(Seq<char>, Seq<char>, Seq<char>), ResolveErrorV>(e@),
        },
{
    let url = match fill(token_url, scopes) {
        Ok(s) => s,
        Err(e) => {
            return Err(e);
        },
    };
    let id = match fill(client_id, scopes) {
        Ok(s) => s,
        Err(e) => {
            return Err(e);
        },
    };
    match fill(client_secret, scopes) {
        Ok(secret) => Ok((url, id, secret)),
        Err(e) => Err(e),
    }
}

/// The token that a request needs, if its auth is a client-credentials grant.
pub fn token_request(auth: Option<&AuthConfig>, scopes: &VarScopes) -> (r: Result<Option<TokenRequest>, ResolveError>)
    ensures
        match auth {
            Some(AuthConfig::OAuth2ClientCredentials {
                token_url,
                client_id,
                client_secret,
                scopes: asked,
                credentials_in_body,
            }) => match token_wanted(token_url@, client_id@, client_secret@, scopes@) {
                Err(e) => r matches Err(x) && x@ == e,
                Ok((url, id, secret)) => r matches Ok(Some(t)) && t.token_url@ == url && t.client_id@ == id
                    && t.client_secret@ == secret && views(t.scopes@) == views(asked@) && t.credentials_in_body
                    == credentials_in_body,
            },
            _ => r matches Ok(None),
        },
{
    match auth {
        Some(AuthConfig::OAuth2ClientCredentials {
            token_url,
            client_id,
            client_secret,
            scopes: asked,
            credentials_in_body,
        }) => match want_token(token_url.as_str(), client_id.as_str(), client_secret.as_str(), scopes) {
            Err(e) => Err(e),
            Ok((token_url, client_id, client_secret)) => Ok(
                Some(
                    TokenRequest {
                        token_url,
                        client_id,
                        client_secret,
                        scopes: copy_list(asked),
                        credentials_in_body: *credentials_in_body,
                    },
                ),
            ),
        },
        _ => Ok(None),
    }
}

/// Headers and query parameters that auth adds.
pub struct Additions {
    pub headers: Vec<(String, String)>,
    pub query: Vec<(String, String)>,
}

impl View for Additions {
    type V = AdditionsV;

    open spec fn view(&self) -> AdditionsV {
        AdditionsV { headers: text_pairs(self.headers@), query: text_pairs(self.query@) }
    }
}

fn one_pair(key: String, value: String) -> (r: Vec<(String, String)>)
    ensures
        text_pairs(r@) == seq![(key@, value@)],
{
    let ghost pair = (key@, value@);
    let mut r = no_pairs();
    push_pair(&mut r, key, value);
    assert(text_pairs(r@) =~= seq![pair]);
    r
}

fn authorize(value: String) -> (r: Additions)
    ensures
        r@ == authorization(value@),
{
    Additions { headers: one_pair("Authorization".to_owned(), value), query: no_pairs() }
}

/// What auth adds to a request. A token comes from outside.
pub fn resolve_auth_additions(auth: Option<&AuthConfig>, scopes: &VarScopes, outside: &Outside) -> (r: Result<
    Additions,
    ResolveError,
>)
    ensures
        auth_additions(crate::view::ref_view(auth), scopes@, outside@) == match r {
            Ok(a) => Ok::<AdditionsV, ResolveErrorV>(a@),
            Err(e) => Err::<AdditionsV, ResolveErrorV>(e@),
        },
{
    let auth = match auth {
        None => {
            return Ok(Additions { headers: no_pairs(), query: no_pairs() });
        },
        Some(auth) => auth,
    };
    match auth {
        AuthConfig::Basic { username, password } => match fill(username.as_str(), scopes) {
            Err(e) => Err(e),
            Ok(user) => match fill(password.as_str(), scopes) {
                Err(e) => Err(e),
                Ok(pass) => {
                    let pair = cat3(user.as_str(), ":", pass.as_str());
                    Ok(authorize(cat2("Basic ", encode_base64(&bytes_of(pair.as_str())).as_str())))
                },
            },
        },
        AuthConfig::Bearer { token, prefix } => match fill(token.as_str(), scopes) {
            Err(e) => Err(e),
            Ok(token) => match prefix {
                None => Ok(authorize(cat3("Bearer", " ", token.as_str()))),
                Some(prefix) => match fill(prefix.as_str(), scopes) {
                    Err(e) => Err(e),
                    Ok(prefix) => Ok(authorize(cat3(prefix.as_str(), " ", token.as_str()))),
                },
            },
        },
        AuthConfig::ApiKey { key, value, placement } => match fill(key.as_str(), scopes) {
            Err(e) => Err(e),
            Ok(key) => match fill(value.as_str(), scopes) {
                Err(e) => Err(e),
                Ok(value) => match placement {
                    ApiKeyPlacement::Header => Ok(Additions { headers: one_pair(key, value), query: no_pairs() }),
                    ApiKeyPlacement::Query => Ok(Additions { headers: no_pairs(), query: one_pair(key, value) }),
                },
            },
        },
        AuthConfig::OAuth2ClientCredentials { token_url, client_id, client_secret, .. } => match want_token(
            token_url.as_str(),
            client_id.as_str(),
            client_secret.as_str(),
            scopes,
        ) {
            Err(e) => Err(e),
            Ok(_) => match &outside.token {
                Some(Ok(t)) => Ok(authorize(cat3(t.token_type.as_str(), " ", t.access_token.as_str()))),
                Some(Err(e)) => Err(ResolveError::Exec(e.clone())),
                None => Err(ResolveError::Auth("no OAuth2 token was fetched".to_owned())),
            },
        },
        AuthConfig::OAuth2AuthCode { .. } => Err(
            ResolveError::Auth("interactive OAuth2 authorization-code flow requires the GUI".to_owned()),
        ),
        _ => Ok(Additions { headers: no_pairs(), query: no_pairs() }),
    }
}

/// `headers` with those of `extra` added that it does not name.
pub open spec fn with_missing(headers: Seq<(Seq<char>, Seq<char>)>, extra: Seq<(Seq<char>, Seq<char>)>) -> Seq<
    (Seq<char>, Seq<char>),
>
    decreases extra.len(),
{
    if extra.len() == 0 {
        headers
    } else {
        let before = with_missing(headers, extra.drop_last());
        if has_header(before, extra.last().0) {
            before
        } else {
            before.push(extra.last())
        }
    }
}

fn add_missing(headers: &mut Vec<(String, String)>, extra: &Vec<(String, String)>)
    ensures
        text_pairs(final(headers)@) == with_missing(text_pairs(old(headers)@), text_pairs(extra@)),
{
    let ghost start = text_pairs(headers@);
    let ghost all = text_pairs(extra@);
    let mut i: usize = 0;
    assert(all.take(0) =~= Seq::empty());
    while i < extra.len()
        invariant
            i <= extra.len(),
            all == text_pairs(extra@),
            text_pairs(headers@) == with_missing(start, all.take(i as int)),
        decreases extra.len() - i,
    {
        assert(all.take(i + 1).drop_last() =~= all.take(i as int));
        assert(all.take(i + 1).last() == all[i as int]);
        if !names_header(headers, extra[i].0.as_str()) {
            push_pair(headers, extra[i].0.clone(), extra[i].1.clone());
        }
        i += 1;
    }
    assert(all.take(i as int) =~= all);
}

/// The headers that every request has unless it sets them itself.
pub open spec fn default_headers(user_agent: Option<Seq<char>>) -> Seq<(Seq<char>, Seq<char>)> {
    seq![("User-Agent"@, opt_or(user_agent, "Forge/0.1"@)), ("Accept"@, "*/*"@)]
}

// ---------------------------------------------------------------------
// URL
// ---------------------------------------------------------------------

/// The first of the parameters for the path segment `name`.
pub open spec fn path_param(params: Seq<ParamV>, name: Seq<char>) -> Option<ParamV>
    decreases params.len(),
{
    if params.len() == 0 {
        None
    } else if params[0].kind == ParamKind::Path && row_counts(params[0].kv) && params[0].kv.key == name {
        Some(params[0])
    } else {
        path_param(params.skip(1), name)
    }
}

/// A path segment: `:name` becomes the value of its parameter, percent-encoded.
pub open spec fn segment_ready(segment: Seq<char>, params: Seq<ParamV>, layers: Seq<LayerV>) -> Result<
    Seq<char>,
    ResolveErrorV,
> {
    if segment.len() > 0 && segment[0] == ':' && path_param(params, segment.skip(1)) is Some {
        match text_ready(path_param(params, segment.skip(1))->Some_0.kv.value, layers) {
            Ok(value) => Ok(percent_bytes(encode_utf8(value))),
            Err(e) => Err(e),
        }
    } else {
        Ok(segment)
    }
}

/// The first `n` path segments.
pub open spec fn segments_ready(segments: Seq<Seq<char>>, params: Seq<ParamV>, layers: Seq<LayerV>, n: int) -> Result<
    Seq<Seq<char>>,
    ResolveErrorV,
>
    decreases n,
{
    if n <= 0 || n > segments.len() {
        Ok(seq![])
    } else {
        match segments_ready(segments, params, layers, n - 1) {
            Err(e) => Err(e),
            Ok(before) => match segment_ready(segments[n - 1], params, layers) {
                Err(e) => Err(e),
                Ok(s) => Ok(before.push(s)),
            },
        }
    }
}

proof fn lemma_segments_cut(segments: Seq<Seq<char>>, params: Seq<ParamV>, layers: Seq<LayerV>, n: int, m: int)
    requires
        0 <= n <= m <= segments.len(),
        segments_ready(segments, params, layers, n) is Err,
    ensures
        segments_ready(segments, params, layers, m) == segments_ready(segments, params, layers, n),
    decreases m,
{
    if n < m {
        lemma_segments_cut(segments, params, layers, n, m - 1);
    }
}

/// The URL up to its query, and the query with its question mark.
pub open spec fn url_halves(url: Seq<char>) -> (Seq<char>, Seq<char>) {
    match first_at(url, "?"@, 0) {
        Some(i) => (url.take(i), url.skip(i)),
        None => (url, seq![]),
    }
}

/// The URL with the path parameters put in; the query stays as it is.
pub open spec fn path_ready(url: Seq<char>, params: Seq<ParamV>, layers: Seq<LayerV>) -> Result<
    Seq<char>,
    ResolveErrorV,
> {
    let (path, query) = url_halves(url);
    let segments = split_on(path, '/');
    match segments_ready(segments, params, layers, segments.len() as int) {
        Err(e) => Err(e),
        Ok(parts) => Ok(joined(parts, "/"@) + query),
    }
}

fn find_param(params: &Vec<Param>, name: &str) -> (r: Option<usize>)
    ensures
        match r {
            Some(i) => i < params@.len() && path_param(views(params@), name@) == Some(params@[i as int]@),
            None => path_param(views(params@), name@) is None,
        },
{
    let ghost all = views(params@);
    let mut i: usize = 0;
    assert(all.skip(0) =~= all);
    while i < params.len()
        invariant
            i <= params.len(),
            all == views(params@),
            path_param(all, name@) == path_param(all.skip(i as int), name@),
        decreases params.len() - i,
    {
        assert(all.skip(i as int)[0] == params@[i as int]@);
        assert(all.skip(i as int).skip(1) =~= all.skip(i + 1));
        if params[i].kind == ParamKind::Path && params[i].kv.is_active() && same(params[i].kv.key.as_str(), name) {
            return Some(i);
        }
        i += 1;
    }
    None
}

fn resolve_segment(segment: &str, params: &Vec<Param>, scopes: &VarScopes) -> (r: Result<String, ResolveError>)
    ensures
        ready_view(r) == segment_ready(segment@, views(params@), scopes@),
{
    let chars = chars_of(segment);
    if chars.len() > 0 && chars[0] == ':' {
        let name = text_between(&chars, 1, chars.len());
        assert(name@ =~= segment@.skip(1));
        if let Some(i) = find_param(params, name.as_str()) {
            return match fill(params[i].kv.value.as_str(), scopes) {
                Ok(value) => Ok(percent_encode(value.as_str())),
                Err(e) => Err(e),
            };
        }
    }
    Ok(segment.to_owned())
}

/// Put the path parameters into a URL. The query stays as it is.
pub fn substitute_path_params(url: &str, params: &Vec<Param>, scopes: &VarScopes) -> (r: Result<String, ResolveError>)
    ensures
        ready_view(r) == path_ready(url@, views(params@), scopes@),
{
    broadcast use group_views;

    let chars = chars_of(url);
    proof {
        lemma_first_at(url@, "?"@, 0);
    }
    let cut: usize = match find_from(&chars, &chars_of("?"), 0) {
        Some(i) => i,
        None => chars.len(),
    };
    let path = text_between(&chars, 0, cut);
    let query = text_between(&chars, cut, chars.len());
    assert(path@ =~= url_halves(url@).0);
    assert(query@ =~= url_halves(url@).1);
    let segments = split(path.as_str(), '/');
    let ghost all = views(segments@);
    let mut out: Vec<String> = Vec::new();
    let mut i: usize = 0;
    while i < segments.len()
        invariant
            i <= segments.len(),
            all == views(segments@),
            all == split_on(path@, '/'),
            path@ == url_halves(url@).0,
            segments_ready(all, views(params@), scopes@, i as int) == Ok::<Seq<Seq<char>>, ResolveErrorV>(
                views(out@),
            ),
        decreases segments.len() - i,
    {
        assert(all[i as int] == segments@[i as int]@);
        match resolve_segment(segments[i].as_str(), params, scopes) {
            Ok(s) => {
                let ghost before = views(out@);
                let ghost view = s@;
                out.push(s);
                assert(views(out@) == before.push(view));
            },
            Err(e) => {
                proof {
                    lemma_segments_cut(all, views(params@), scopes@, i + 1, all.len() as int);
                }
                return Err(e);
            },
        }
        i += 1;
    }
    Ok(cat2(join(&out, "/").as_str(), query.as_str()))
}

/// A character of a scheme after the first.
pub open spec fn scheme_char(c: char) -> bool {
    is_letter(c) || is_digit(c) || c == '+' || c == '.' || c == '-'
}

/// The URL begins with a scheme and `://`. What stands in a query does not
/// count.
pub open spec fn starts_with_scheme(url: Seq<char>) -> bool {
    match first_at(url, "://"@, 0) {
        Some(n) => n > 0 && is_letter(url[0]) && forall|i: int| 1 <= i < n ==> scheme_char(#[trigger] url[i]),
        None => false,
    }
}

/// Whether the URL begins with a scheme and `://`.
pub fn has_scheme(url: &str) -> (r: bool)
    ensures
        r == starts_with_scheme(url@),
{
    let chars = chars_of(url);
    proof {
        lemma_first_at(url@, "://"@, 0);
    }
    let n: usize = match find_from(&chars, &chars_of("://"), 0) {
        None => {
            return false;
        },
        Some(n) => n,
    };
    if n == 0 {
        return false;
    }
    let c = chars[0];
    if !(('a' <= c && c <= 'z') || ('A' <= c && c <= 'Z')) {
        return false;
    }
    let mut i: usize = 1;
    while i < n
        invariant
            1 <= i <= n,
            n <= chars.len(),
            chars@ == url@,
            first_at(url@, "://"@, 0) == Some(n as int),
            forall|k: int| 1 <= k < i ==> scheme_char(#[trigger] url@[k]),
        decreases n - i,
    {
        let c = chars[i];
        let fits = ('a' <= c && c <= 'z') || ('A' <= c && c <= 'Z') || ('0' <= c && c <= '9') || c == '+' || c == '.'
            || c == '-';
        if !fits {
            assert(!scheme_char(url@[i as int]));
            return false;
        }
        i += 1;
    }
    true
}

/// The URL with a scheme: `https` where it has none.
pub open spec fn with_scheme(url: Seq<char>) -> Seq<char> {
    if starts_with_scheme(url) {
        url
    } else {
        "https://"@ + url
    }
}

/// Put `https://` before a URL without a scheme.
pub fn ensure_scheme(url: &str) -> (r: String)
    ensures
        r@ == with_scheme(url@),
{
    if has_scheme(url) {
        url.to_owned()
    } else {
        cat2("https://", url)
    }
}

/// A URL of the `url` crate.
#[verifier::external_type_specification]
#[verifier::external_body]
pub struct ExUrl(url::Url);

/// The text of a URL.
pub uninterp spec fn url_text(u: url::Url) -> Seq<char>;

/// The names and values in the query of a URL, decoded.
pub uninterp spec fn url_pairs(u: url::Url) -> Seq<(Seq<char>, Seq<char>)>;

/// What `url::Url::parse` makes of a text: the text of the URL and the pairs
/// of its query, or why it is none.
pub uninterp spec fn url_parsed(text: Seq<char>) -> Result<(Seq<char>, Seq<(Seq<char>, Seq<char>)>), Seq<char>>;

/// The text of a URL with a pair appended to its query.
pub uninterp spec fn url_appended(text: Seq<char>, name: Seq<char>, value: Seq<char>) -> Seq<char>;

/// `url::Url::parse` reads a URL, or says why it cannot. The result depends on
/// the text alone.
#[verifier::external_body]
pub(crate) fn parse_address(text: &str) -> (r: Result<url::Url, String>)
    ensures
        url_parsed(text@) == match r {
            Ok(u) => Ok::<(Seq<char>, Seq<(Seq<char>, Seq<char>)>), Seq<char>>((url_text(u), url_pairs(u))),
            Err(e) => Err::<(Seq<char>, Seq<(Seq<char>, Seq<char>)>), Seq<char>>(e@),
        },
{
    url::Url::parse(text).map_err(|e| e.to_string())
}

/// `query_pairs` of a URL lists the names and values of its query.
#[verifier::external_body]
fn query_of(u: &url::Url) -> (r: Vec<(String, String)>)
    ensures
        text_pairs(r@) == url_pairs(*u),
{
    u.query_pairs().into_owned().collect()
}

/// `query_pairs_mut().append_pair` appends a name and a value to the query of
/// a URL, encoded so that they read back. The new text depends on the text
/// before and on the pair alone.
#[verifier::external_body]
fn append_to_query(u: &mut url::Url, name: &str, value: &str)
    ensures
        url_pairs(*final(u)) == url_pairs(*old(u)).push((name@, value@)),
        url_text(*final(u)) == url_appended(url_text(*old(u)), name@, value@),
{
    u.query_pairs_mut().append_pair(name, value);
}

/// `to_string` of a URL gives its text.
#[verifier::external_body]
pub(crate) fn address_text(u: &url::Url) -> (r: String)
    ensures
        r@ == url_text(*u),
{
    u.to_string()
}

/// The path in a URL, given its text.
pub uninterp spec fn url_path(text: Seq<char>) -> Seq<char>;

/// `path` of a URL gives its path, without query and fragment, as it stands in
/// the text of the URL.
#[verifier::external_body]
pub(crate) fn path_in(u: &url::Url) -> (r: String)
    ensures
        r@ == url_path(url_text(*u)),
{
    u.path().to_string()
}

/// The text of a URL with pairs appended to its query.
pub open spec fn url_extended(text: Seq<char>, pairs: Seq<(Seq<char>, Seq<char>)>) -> Seq<char>
    decreases pairs.len(),
{
    if pairs.len() == 0 {
        text
    } else {
        url_appended(url_extended(text, pairs.drop_last()), pairs.last().0, pairs.last().1)
    }
}

/// A pair called `name` is among the pairs.
pub open spec fn names_pair(pairs: Seq<(Seq<char>, Seq<char>)>, name: Seq<char>) -> bool {
    exists|i: int| 0 <= i < pairs.len() && (#[trigger] pairs[i]).0 == name
}

/// The query parameters to append: those of the request, and those of auth
/// that neither the request nor the URL names.
pub open spec fn query_ready(
    own: Seq<(Seq<char>, Seq<char>)>,
    auth: Seq<(Seq<char>, Seq<char>)>,
    present: Seq<(Seq<char>, Seq<char>)>,
) -> Seq<(Seq<char>, Seq<char>)>
    decreases auth.len(),
{
    if auth.len() == 0 {
        own
    } else {
        let before = query_ready(own, auth.drop_last(), present);
        if names_pair(before, auth.last().0) || names_pair(present, auth.last().0) {
            before
        } else {
            before.push(auth.last())
        }
    }
}

fn has_pair(pairs: &Vec<(String, String)>, name: &str) -> (r: bool)
    ensures
        r == names_pair(text_pairs(pairs@), name@),
{
    let ghost all = text_pairs(pairs@);
    let mut i: usize = 0;
    while i < pairs.len()
        invariant
            i <= pairs.len(),
            all == text_pairs(pairs@),
            forall|k: int| 0 <= k < i ==> (#[trigger] all[k]).0 != name@,
        decreases pairs.len() - i,
    {
        if same(pairs[i].0.as_str(), name) {
            assert(all[i as int].0 == name@);
            return true;
        }
        i += 1;
    }
    false
}

fn gather_query(own: Vec<(String, String)>, auth: &Vec<(String, String)>, present: &Vec<(String, String)>) -> (r: Vec<
    (String, String),
>)
    ensures
        text_pairs(r@) == query_ready(text_pairs(own@), text_pairs(auth@), text_pairs(present@)),
{
    let ghost start = text_pairs(own@);
    let ghost all = text_pairs(auth@);
    let mut out = own;
    let mut i: usize = 0;
    assert(all.take(0) =~= Seq::empty());
    while i < auth.len()
        invariant
            i <= auth.len(),
            all == text_pairs(auth@),
            text_pairs(out@) == query_ready(start, all.take(i as int), text_pairs(present@)),
        decreases auth.len() - i,
    {
        assert(all.take(i + 1).drop_last() =~= all.take(i as int));
        assert(all.take(i + 1).last() == all[i as int]);
        if !has_pair(&out, auth[i].0.as_str()) && !has_pair(present, auth[i].0.as_str()) {
            push_pair(&mut out, auth[i].0.clone(), auth[i].1.clone());
        }
        i += 1;
    }
    assert(all.take(i as int) =~= all);
    out
}

fn extend_address(u: url::Url, pairs: &Vec<(String, String)>) -> (r: String)
    ensures
        r@ == url_extended(url_text(u), text_pairs(pairs@)),
{
    let ghost text = url_text(u);
    let ghost all = text_pairs(pairs@);
    let mut u = u;
    let mut i: usize = 0;
    assert(all.take(0) =~= Seq::empty());
    while i < pairs.len()
        invariant
            i <= pairs.len(),
            all == text_pairs(pairs@),
            url_text(u) == url_extended(text, all.take(i as int)),
        decreases pairs.len() - i,
    {
        assert(all.take(i + 1).drop_last() =~= all.take(i as int));
        assert(all.take(i + 1).last() == all[i as int]);
        append_to_query(&mut u, pairs[i].0.as_str(), pairs[i].1.as_str());
        i += 1;
    }
    assert(all.take(i as int) =~= all);
    address_text(&u)
}

/// The rows of the query parameters.
pub open spec fn query_rows(params: Seq<ParamV>) -> Seq<RowV>
    decreases params.len(),
{
    if params.len() == 0 {
        seq![]
    } else {
        let before = query_rows(params.drop_last());
        if params.last().kind == ParamKind::Query {
            before.push(params.last().kv)
        } else {
            before
        }
    }
}

fn rows_of_query(params: &Vec<Param>) -> (r: Vec<KeyValue>)
    ensures
        views(r@) == query_rows(views(params@)),
{
    broadcast use group_views;

    let ghost all = views(params@);
    let mut out: Vec<KeyValue> = Vec::new();
    let mut i: usize = 0;
    assert(all.take(0) =~= Seq::empty());
    while i < params.len()
        invariant
            i <= params.len(),
            all == views(params@),
            views(out@) == query_rows(all.take(i as int)),
        decreases params.len() - i,
    {
        assert(all.take(i + 1).drop_last() =~= all.take(i as int));
        assert(all.take(i + 1).last() == params@[i as int]@);
        if params[i].kind == ParamKind::Query {
            out.push(params[i].kv.copied());
        }
        i += 1;
    }
    assert(all.take(i as int) =~= all);
    out
}

// ---------------------------------------------------------------------
// Body
// ---------------------------------------------------------------------

/// The content type of a raw body.
pub open spec fn raw_type(language: RawLanguage) -> Seq<char> {
    match language {
        RawLanguage::Text => "text/plain"@,
        RawLanguage::Json => "application/json"@,
        RawLanguage::Xml => "application/xml"@,
        RawLanguage::Html => "text/html"@,
        RawLanguage::Yaml => "application/yaml"@,
    }
}

/// The content type of a raw body.
pub fn raw_content_type(language: RawLanguage) -> (r: &'static str)
    ensures
        r@ == raw_type(language),
{
    match language {
        RawLanguage::Text => "text/plain",
        RawLanguage::Json => "application/json",
        RawLanguage::Xml => "application/xml",
        RawLanguage::Html => "text/html",
        RawLanguage::Yaml => "application/yaml",
    }
}

/// A path below a root; an absolute path stands alone.
pub open spec fn joined_path(root: Seq<char>, path: Seq<char>) -> Seq<char> {
    if is_absolute(path) || root.len() == 0 {
        path
    } else if root.last() == '/' {
        root + path
    } else {
        root + "/"@ + path
    }
}

/// The path of a body file: absolute as it is, else below the workspace root.
pub fn resolve_body_path(root: &str, path: &str) -> (r: String)
    ensures
        r@ == joined_path(root@, path@),
{
    let chars = chars_of(root);
    if absolute(path) || chars.len() == 0 {
        path.to_owned()
    } else if chars[chars.len() - 1] == '/' {
        cat2(root, path)
    } else {
        cat3(root, "/", path)
    }
}

/// The last component of a path, where it is a name.
pub open spec fn file_name(path: Seq<char>) -> Option<Seq<char>> {
    let parts = path_parts(path);
    if parts.len() == 0 || parts.last() == ".."@ || parts.last() == "."@ || parts.last() == "/"@ {
        None
    } else {
        Some(parts.last())
    }
}

/// The last component of a path, where it is a name.
pub fn file_name_of(path: &str) -> (r: Option<String>)
    ensures
        opt_view(r) == file_name(path@),
{
    let parts = parts_of(path);
    assert(views(parts@).len() == parts@.len());
    if parts.len() == 0 {
        return None;
    }
    let last = parts[parts.len() - 1].as_str();
    assert(views(parts@).last() == last@);
    if same(last, "..") || same(last, ".") || same(last, "/") {
        None
    } else {
        Some(last.to_owned())
    }
}

/// One part of a multipart body.
pub open spec fn part_ready(part: MultipartV, root: Seq<char>, layers: Seq<LayerV>) -> Result<PartV, ResolveErrorV> {
    match part.content {
        ContentV::Text { value } => match text_ready(value, layers) {
            Err(e) => Err(e),
            Ok(value) => Ok(
                PartV {
                    name: part.name,
                    content_type: part.content_type,
                    file_name: None,
                    data: PartDataV::Text(value),
                },
            ),
        },
        ContentV::File { path } => Ok(
            PartV {
                name: part.name,
                content_type: part.content_type,
                file_name: file_name(path),
                data: PartDataV::File(joined_path(root, path)),
            },
        ),
    }
}

/// The enabled ones of the first `n` parts.
pub open spec fn parts_ready(parts: Seq<MultipartV>, root: Seq<char>, layers: Seq<LayerV>, n: int) -> Result<
    Seq<PartV>,
    ResolveErrorV,
>
    decreases n,
{
    if n <= 0 || n > parts.len() {
        Ok(seq![])
    } else {
        match parts_ready(parts, root, layers, n - 1) {
            Err(e) => Err(e),
            Ok(before) => if !parts[n - 1].enabled {
                Ok(before)
            } else {
                match part_ready(parts[n - 1], root, layers) {
                    Err(e) => Err(e),
                    Ok(p) => Ok(before.push(p)),
                }
            },
        }
    }
}

proof fn lemma_parts_cut(parts: Seq<MultipartV>, root: Seq<char>, layers: Seq<LayerV>, n: int, m: int)
    requires
        0 <= n <= m <= parts.len(),
        parts_ready(parts, root, layers, n) is Err,
    ensures
        parts_ready(parts, root, layers, m) == parts_ready(parts, root, layers, n),
    decreases m,
{
    if n < m {
        lemma_parts_cut(parts, root, layers, n, m - 1);
    }
}

/// A body of text with a content type.
pub open spec fn text_body(text: Seq<char>, content_type: Seq<char>) -> ExecBodyV {
    ExecBodyV::Bytes { content_type: Some(content_type), data: encode_utf8(text) }
}

/// A text as a body.
pub open spec fn text_body_ready(text: Seq<char>, content_type: Seq<char>, layers: Seq<LayerV>) -> Result<
    ExecBodyV,
    ResolveErrorV,
> {
    match text_ready(text, layers) {
        Err(e) => Err(e),
        Ok(text) => Ok(text_body(text, content_type)),
    }
}

/// The variables of a GraphQL query: an empty object where there is no text.
pub open spec fn graphql_variables(text: Seq<char>) -> Result<JsonV, ResolveErrorV> {
    if trimmed(text).len() == 0 {
        Ok(JsonV::Object(seq![]))
    } else {
        match json_parse(text) {
            Ok(v) => Ok(v),
            Err(e) => Err(ResolveErrorV::Body("invalid GraphQL variables JSON: "@ + e)),
        }
    }
}

/// The JSON body of a GraphQL query.
pub open spec fn graphql_payload(query: Seq<char>, variables: JsonV, operation: Option<Seq<char>>) -> JsonV {
    JsonV::Object(
        seq![
            (
                "operationName"@,
                match operation {
                    Some(s) => JsonV::String(s),
                    None => JsonV::Null,
                },
            ),
            ("query"@, JsonV::String(query)),
            ("variables"@, variables),
        ],
    )
}

/// The body of a GraphQL query.
pub open spec fn graphql_ready(
    query: Seq<char>,
    variables: Seq<char>,
    operation: Option<Seq<char>>,
    layers: Seq<LayerV>,
) -> Result<ExecBodyV, ResolveErrorV> {
    match text_ready(query, layers) {
        Err(e) => Err(e),
        Ok(query) => match text_ready(variables, layers) {
            Err(e) => Err(e),
            Ok(text) => match graphql_variables(text) {
                Err(e) => Err(e),
                Ok(variables) => match operation {
                    None => Ok(text_body(printed(graphql_payload(query, variables, None)), "application/json"@)),
                    Some(name) => match text_ready(name, layers) {
                        Err(e) => Err(e),
                        Ok(name) => Ok(
                            text_body(printed(graphql_payload(query, variables, Some(name))), "application/json"@),
                        ),
                    },
                },
            },
        },
    }
}

/// The content of a body file.
pub open spec fn file_ready(path: Seq<char>, file: Option<Result<Seq<u8>, Seq<char>>>) -> Result<
    ExecBodyV,
    ResolveErrorV,
> {
    match file {
        Some(Ok(data)) => Ok(ExecBodyV::Bytes { content_type: Some("application/octet-stream"@), data }),
        Some(Err(e)) => Err(ResolveErrorV::Body("failed to read body file "@ + path + ": "@ + e)),
        None => Err(ResolveErrorV::Body("failed to read body file "@ + path + ": "@ + "not loaded"@)),
    }
}

/// The body as it is sent.
pub open spec fn body_ready(body: BodyDefV, root: Seq<char>, layers: Seq<LayerV>, outside: OutsideV) -> Result<
    ExecBodyV,
    ResolveErrorV,
> {
    match body {
        BodyDefV::Empty => Ok(ExecBodyV::Empty),
        BodyDefV::Raw { text, language } => text_body_ready(text, raw_type(language), layers),
        BodyDefV::Json { text } => text_body_ready(text, "application/json"@, layers),
        BodyDefV::Xml { text } => text_body_ready(text, "application/xml"@, layers),
        BodyDefV::FormUrlencoded { fields } => match rows_ready(fields, layers, fields.len() as int) {
            Err(e) => Err(e),
            Ok(pairs) => Ok(ExecBodyV::Form(pairs)),
        },
        BodyDefV::Multipart { parts } => match parts_ready(parts, root, layers, parts.len() as int) {
            Err(e) => Err(e),
            Ok(parts) => Ok(ExecBodyV::Multipart(parts)),
        },
        BodyDefV::GraphQl { query, variables, operation_name } => graphql_ready(
            query,
            variables,
            operation_name,
            layers,
        ),
        BodyDefV::Binary { path } => file_ready(joined_path(root, path), outside.file),
    }
}

/// A body or an error, by their views.
pub open spec fn body_result(r: Result<ResolvedBody, ResolveError>) -> Result<ExecBodyV, ResolveErrorV> {
    match r {
        Ok(b) => Ok(b@),
        Err(e) => Err(e@),
    }
}

fn resolve_text(text: &str, content_type: &str, scopes: &VarScopes) -> (r: Result<ResolvedBody, ResolveError>)
    ensures
        body_result(r) == text_body_ready(text@, content_type@, scopes@),
{
    match fill(text, scopes) {
        Err(e) => Err(e),
        Ok(text) => Ok(
            ResolvedBody::Bytes { content_type: Some(content_type.to_owned()), data: bytes_of(text.as_str()) },
        ),
    }
}

fn resolve_part(part: &MultipartPart, root: &str, scopes: &VarScopes) -> (r: Result<ResolvedPart, ResolveError>)
    ensures
        part_ready(part@, root@, scopes@) == match r {
            Ok(p) => Ok::<PartV, ResolveErrorV>(p@),
            Err(e) => Err::<PartV, ResolveErrorV>(e@),
        },
{
    match &part.content {
        PartContent::Text { value } => match fill(value.as_str(), scopes) {
            Err(e) => Err(e),
            Ok(value) => Ok(
                ResolvedPart {
                    name: part.name.clone(),
                    content_type: copy_opt(&part.content_type),
                    file_name: None,
                    data: PartData::Text(value),
                },
            ),
        },
        PartContent::File { path } => Ok(
            ResolvedPart {
                name: part.name.clone(),
                content_type: copy_opt(&part.content_type),
                file_name: file_name_of(path.as_str()),
                data: PartData::File(resolve_body_path(root, path.as_str())),
            },
        ),
    }
}

fn resolve_parts(parts: &Vec<MultipartPart>, root: &str, scopes: &VarScopes) -> (r: Result<
    Vec<ResolvedPart>,
    ResolveError,
>)
    ensures
        parts_ready(views(parts@), root@, scopes@, parts@.len() as int) == match r {
            Ok(list) => Ok::<Seq<PartV>, ResolveErrorV>(views(list@)),
            Err(e) => Err::<Seq<PartV>, ResolveErrorV>(e@),
        },
{
    broadcast use group_views;

    let ghost all = views(parts@);
    let mut out: Vec<ResolvedPart> = Vec::new();
    let mut i: usize = 0;
    while i < parts.len()
        invariant
            i <= parts.len(),
            all == views(parts@),
            parts_ready(all, root@, scopes@, i as int) == Ok::<Seq<PartV>, ResolveErrorV>(views(out@)),
        decreases parts.len() - i,
    {
        assert(all[i as int] == parts@[i as int]@);
        if parts[i].enabled {
            match resolve_part(&parts[i], root, scopes) {
                Ok(p) => {
                    let ghost before = views(out@);
                    let ghost view = p@;
                    out.push(p);
                    assert(views(out@) == before.push(view));
                },
                Err(e) => {
                    proof {
                        lemma_parts_cut(all, root@, scopes@, i + 1, all.len() as int);
                    }
                    return Err(e);
                },
            }
        }
        i += 1;
    }
    Ok(out)
}

fn payload(query: String, variables: Json, operation: Option<String>) -> (r: Json)
    ensures
        r@ == graphql_payload(query@, variables@, opt_view(operation)),
{
    broadcast use crate::json::lemma_json_view;

    let ghost view = graphql_payload(query@, variables@, opt_view(operation));
    let operation = match operation {
        Some(s) => Json::String(s),
        None => Json::Null,
    };
    let mut pairs: Vec<(String, Json)> = Vec::new();
    pairs.push(("operationName".to_owned(), operation));
    pairs.push(("query".to_owned(), Json::String(query)));
    pairs.push(("variables".to_owned(), variables));
    let r = Json::Object(pairs);
    assert(r@->Object_0 =~= view->Object_0);
    r
}

fn resolve_graphql(query: &str, variables: &str, operation: &Option<String>, scopes: &VarScopes) -> (r: Result<
    ResolvedBody,
    ResolveError,
>)
    ensures
        body_result(r) == graphql_ready(query@, variables@, opt_view(*operation), scopes@),
{
    broadcast use crate::json::lemma_json_view;

    let query = match fill(query, scopes) {
        Ok(s) => s,
        Err(e) => {
            return Err(e);
        },
    };
    let text = match fill(variables, scopes) {
        Ok(s) => s,
        Err(e) => {
            return Err(e);
        },
    };
    let variables = if trim(text.as_str()).as_str().unicode_len() == 0 {
        let none = Json::Object(Vec::new());
        assert(none@->Object_0 =~= seq![]);
        none
    } else {
        match parse(text.as_str()) {
            Ok(v) => v,
            Err(e) => {
                return Err(ResolveError::Body(cat2("invalid GraphQL variables JSON: ", e.as_str())));
            },
        }
    };
    let name = match operation {
        None => None,
        Some(name) => match fill(name.as_str(), scopes) {
            Ok(s) => Some(s),
            Err(e) => {
                return Err(e);
            },
        },
    };
    let text = print(&payload(query, variables, name));
    Ok(
        ResolvedBody::Bytes {
            content_type: Some("application/json".to_owned()),
            data: bytes_of(text.as_str()),
        },
    )
}

fn copy_bytes(bytes: &Vec<u8>) -> (r: Vec<u8>)
    ensures
        r@ == bytes@,
{
    let mut out: Vec<u8> = Vec::new();
    let mut i: usize = 0;
    while i < bytes.len()
        invariant
            i <= bytes.len(),
            out@ == bytes@.take(i as int),
        decreases bytes.len() - i,
    {
        out.push(bytes[i]);
        assert(bytes@.take(i + 1) =~= bytes@.take(i as int).push(bytes@[i as int]));
        i += 1;
    }
    assert(bytes@.take(i as int) =~= bytes@);
    out
}

/// Make a body ready. The content of a body file comes from outside.
pub fn resolve_body(body: &BodyDef, root: &str, scopes: &VarScopes, outside: &Outside) -> (r: Result<
    ResolvedBody,
    ResolveError,
>)
    ensures
        body_result(r) == body_ready(body@, root@, scopes@, outside@),
{
    match body {
        BodyDef::Empty => Ok(ResolvedBody::Empty),
        BodyDef::Raw { text, language } => resolve_text(text.as_str(), raw_content_type(*language), scopes),
        BodyDef::Json { text } => resolve_text(text.as_str(), "application/json", scopes),
        BodyDef::Xml { text } => resolve_text(text.as_str(), "application/xml", scopes),
        BodyDef::FormUrlencoded { fields } => match resolve_rows(fields, scopes) {
            Err(e) => Err(e),
            Ok(pairs) => Ok(ResolvedBody::Form(pairs)),
        },
        BodyDef::Multipart { parts } => match resolve_parts(parts, root, scopes) {
            Err(e) => Err(e),
            Ok(parts) => Ok(ResolvedBody::Multipart(parts)),
        },
        BodyDef::GraphQl { query, variables, operation_name } => resolve_graphql(
            query.as_str(),
            variables.as_str(),
            operation_name,
            scopes,
        ),
        BodyDef::Binary { path } => {
            let full = resolve_body_path(root, path.as_str());
            match &outside.file {
                Some(Ok(data)) => Ok(
                    ResolvedBody::Bytes {
                        content_type: Some("application/octet-stream".to_owned()),
                        data: copy_bytes(data),
                    },
                ),
                Some(Err(e)) => Err(
                    ResolveError::Body(
                        crate::text::cat4("failed to read body file ", full.as_str(), ": ", e.as_str()),
                    ),
                ),
                None => Err(
                    ResolveError::Body(
                        crate::text::cat4("failed to read body file ", full.as_str(), ": ", "not loaded"),
                    ),
                ),
            }
        },
    }
}

// ---------------------------------------------------------------------
// Requests
// ---------------------------------------------------------------------

/// The headers of a request, once auth is known: its own, those of auth that
/// it does not set, and the defaults that are still missing.
pub open spec fn headers_ready(
    own: Seq<(Seq<char>, Seq<char>)>,
    auth: Seq<(Seq<char>, Seq<char>)>,
    user_agent: Option<Seq<char>>,
) -> Seq<(Seq<char>, Seq<char>)> {
    with_missing(with_missing(own, auth), default_headers(user_agent))
}

/// The URL of a request, once auth is known.
pub open spec fn address_ready(
    def: RequestDefV,
    auth: Seq<(Seq<char>, Seq<char>)>,
    layers: Seq<LayerV>,
) -> Result<Seq<char>, ResolveErrorV> {
    match text_ready(def.url, layers) {
        Err(e) => Err(e),
        Ok(url) => match path_ready(url, def.params, layers) {
            Err(e) => Err(e),
            Ok(url) => match url_parsed(with_scheme(url)) {
                Err(e) => Err(ResolveErrorV::Exec("invalid URL: "@ + e + ": "@ + with_scheme(url))),
                Ok((text, present)) => {
                    let rows = query_rows(def.params);
                    match rows_ready(rows, layers, rows.len() as int) {
                        Err(e) => Err(e),
                        Ok(own) => Ok(url_extended(text, query_ready(own, auth, present))),
                    }
                },
            },
        },
    }
}

/// The request that is sent for a stored one.
pub open spec fn request_ready(
    settings: SettingsV,
    root: Seq<char>,
    def: RequestDefV,
    chain: Seq<AuthV>,
    layers: Seq<LayerV>,
    outside: OutsideV,
) -> Result<ExecRequestV, ResolveErrorV> {
    match rows_ready(def.headers, layers, def.headers.len() as int) {
        Err(e) => Err(e),
        Ok(own) => match auth_additions(auth_in_force(def.auth, chain), layers, outside) {
            Err(e) => Err(e),
            Ok(extra) => match address_ready(def, extra.query, layers) {
                Err(e) => Err(e),
                Ok(url) => match body_ready(def.body, root, layers, outside) {
                    Err(e) => Err(e),
                    Ok(body) => Ok(
                        ExecRequestV {
                            method: def.method,
                            url,
                            headers: headers_ready(own, extra.headers, settings.user_agent),
                            body,
                            timeout_ms: opt_or(def.settings.timeout_ms, settings.timeout_ms),
                            follow_redirects: opt_or(def.settings.follow_redirects, settings.follow_redirects),
                            max_redirects: opt_or(def.settings.max_redirects, settings.max_redirects),
                            verify_tls: opt_or(def.settings.verify_tls, settings.verify_tls),
                            proxy: match settings.proxy {
                                Some(p) => Some(p.url),
                                None => None,
                            },
                        },
                    ),
                },
            },
        },
    }
}

fn resolve_address(def: &RequestDef, auth: &Vec<(String, String)>, scopes: &VarScopes) -> (r: Result<
    String,
    ResolveError,
>)
    ensures
        ready_view(r) == address_ready(def@, text_pairs(auth@), scopes@),
{
    let url = match fill(def.url.as_str(), scopes) {
        Ok(s) => s,
        Err(e) => {
            return Err(e);
        },
    };
    let url = match substitute_path_params(url.as_str(), &def.params, scopes) {
        Ok(s) => s,
        Err(e) => {
            return Err(e);
        },
    };
    let full = ensure_scheme(url.as_str());
    let address = match parse_address(full.as_str()) {
        Ok(u) => u,
        Err(e) => {
            return Err(
                ResolveError::Exec(crate::text::cat4("invalid URL: ", e.as_str(), ": ", full.as_str())),
            );
        },
    };
    let rows = rows_of_query(&def.params);
    assert(views(rows@).len() == rows@.len());
    let own = match resolve_rows(&rows, scopes) {
        Ok(pairs) => pairs,
        Err(e) => {
            return Err(e);
        },
    };
    let present = query_of(&address);
    let additions = gather_query(own, auth, &present);
    Ok(extend_address(address, &additions))
}

/// Make a stored request ready to be sent. `chain` holds the auth of the
/// ancestors, the nearest first. What the request sets itself is never
/// replaced by what auth adds.
pub fn resolve_request(
    settings: &WorkspaceSettings,
    root: &str,
    def: &RequestDef,
    chain: &Vec<&AuthConfig>,
    scopes: &VarScopes,
    outside: &Outside,
) -> (r: Result<ResolvedRequest, ResolveError>)
    ensures
        request_ready(settings@, root@, def@, views(chain@), scopes@, outside@) == match r {
            Ok(request) => Ok::<ExecRequestV, ResolveErrorV>(request@),
            Err(e) => Err::<ExecRequestV, ResolveErrorV>(e@),
        },
{
    assert(views(def.headers@).len() == def.headers@.len());
    let mut headers = match resolve_rows(&def.headers, scopes) {
        Ok(pairs) => pairs,
        Err(e) => {
            return Err(e);
        },
    };
    let extra = match resolve_auth_additions(effective_auth(&def.auth, chain), scopes, outside) {
        Ok(a) => a,
        Err(e) => {
            return Err(e);
        },
    };
    add_missing(&mut headers, &extra.headers);
    let user_agent = match &settings.user_agent {
        Some(s) => s.clone(),
        None => "Forge/0.1".to_owned(),
    };
    let mut defaults = no_pairs();
    push_pair(&mut defaults, "User-Agent".to_owned(), user_agent);
    push_pair(&mut defaults, "Accept".to_owned(), "*/*".to_owned());
    assert(text_pairs(defaults@) =~= default_headers(settings@.user_agent));
    add_missing(&mut headers, &defaults);
    let url = match resolve_address(def, &extra.query, scopes) {
        Ok(s) => s,
        Err(e) => {
            return Err(e);
        },
    };
    let body = match resolve_body(&def.body, root, scopes, outside) {
        Ok(b) => b,
        Err(e) => {
            return Err(e);
        },
    };
    let own = &def.settings;
    let timeout_ms: u64 = match own.timeout_ms {
        Some(v) => v,
        None => settings.timeout_ms,
    };
    let follow_redirects = match own.follow_redirects {
        Some(v) => v,
        None => settings.follow_redirects,
    };
    let max_redirects: u32 = match own.max_redirects {
        Some(v) => v,
        None => settings.max_redirects,
    };
    let verify_tls = match own.verify_tls {
        Some(v) => v,
        None => settings.verify_tls,
    };
    let proxy = match &settings.proxy {
        Some(p) => Some(p.url.clone()),
        None => None,
    };
    Ok(
        ResolvedRequest {
            method: def.method,
            url,
            headers,
            body,
            timeout_ms,
            follow_redirects,
            max_redirects,
            verify_tls,
            proxy,
        },
    )
}

// ---------------------------------------------------------------------
// Laws
// ---------------------------------------------------------------------

/// Every header that a request sets itself is sent as it sets it, in its
/// place: auth and defaults come after and replace nothing.
pub proof fn lemma_own_headers_win(headers: Seq<(Seq<char>, Seq<char>)>, extra: Seq<(Seq<char>, Seq<char>)>)
    ensures
        with_missing(headers, extra).len() >= headers.len(),
        with_missing(headers, extra).take(headers.len() as int) == headers,
        forall|i: int|
            headers.len() <= i < with_missing(headers, extra).len() ==> !has_header(
                headers,
                (#[trigger] with_missing(headers, extra)[i]).0,
            ),
    decreases extra.len(),
{
    let n = headers.len() as int;
    if extra.len() == 0 {
        assert(headers.take(n) =~= headers);
    } else {
        let before = with_missing(headers, extra.drop_last());
        lemma_own_headers_win(headers, extra.drop_last());
        let after = with_missing(headers, extra);
        assert(after.take(n) =~= before.take(n));
        assert forall|i: int| n <= i < after.len() implies !has_header(headers, (#[trigger] after[i]).0) by {
            if i < before.len() {
                assert(after[i] == before[i]);
            } else if has_header(headers, extra.last().0) {
                let k = choose|k: int|
                    0 <= k < headers.len() && crate::text::same_ignoring_case((#[trigger] headers[k]).0, extra.last().0);
                assert(before[k] == before.take(n)[k]);
                assert(has_header(before, extra.last().0));
            }
        }
    }
}

/// Every query parameter that a request sets itself is appended, and auth adds
/// none that the request or its URL names already.
pub proof fn lemma_own_query_wins(
    own: Seq<(Seq<char>, Seq<char>)>,
    auth: Seq<(Seq<char>, Seq<char>)>,
    present: Seq<(Seq<char>, Seq<char>)>,
)
    ensures
        query_ready(own, auth, present).len() >= own.len(),
        query_ready(own, auth, present).take(own.len() as int) == own,
        forall|i: int|
            own.len() <= i < query_ready(own, auth, present).len() ==> !names_pair(
                own,
                (#[trigger] query_ready(own, auth, present)[i]).0,
            ) && !names_pair(present, query_ready(own, auth, present)[i].0),
    decreases auth.len(),
{
    let n = own.len() as int;
    if auth.len() == 0 {
        assert(own.take(n) =~= own);
    } else {
        let before = query_ready(own, auth.drop_last(), present);
        lemma_own_query_wins(own, auth.drop_last(), present);
        let after = query_ready(own, auth, present);
        assert(after.take(n) =~= before.take(n));
        assert forall|i: int| n <= i < after.len() implies !names_pair(own, (#[trigger] after[i]).0) && !names_pair(
            present,
            after[i].0,
        ) by {
            if i < before.len() {
                assert(after[i] == before[i]);
            } else if names_pair(own, auth.last().0) {
                let k = choose|k: int| 0 <= k < own.len() && (#[trigger] own[k]).0 == auth.last().0;
                assert(before[k] == before.take(n)[k]);
                assert(names_pair(before, auth.last().0));
            }
        }
    }
}

} // verus!
