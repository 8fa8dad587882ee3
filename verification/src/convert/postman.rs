//! Import of Postman collections (format 2.x) and environments.
//!
//! Folders, requests, headers, parameters, bodies and most kinds of auth come
//! over; scripts become JavaScript scripts and suite hooks. What does not come
//! over is listed, so that the import tells what it left out.

use vstd::prelude::*;

use crate::json::{
    at, flag_at, items_at, items_in, json_parse, lemma_member_smaller, member, parse, print, printed, text_at, text_in,
    text_member, Json, JsonV,
};
use crate::map::{lookup, pairs_view, put, TextMap};
use crate::model::auth::{ApiKeyPlacement, AuthConfig, AuthV};
use crate::model::body::{BodyDef, BodyDefV, ContentV, KeyValue, MultipartPart, MultipartV, PartContent, RawLanguage, RowV};
use crate::model::environment::{EnvVar, EnvVarV, Environment, EnvironmentV};
use crate::model::request::{
    bare_request, no_hooks, HooksDefV, Param, ParamKind, ParamV, RequestDef, RequestDefV, ScriptLang, Scripts, ScriptsV,
    SuiteHooks,
};
use crate::model::{method_named, Method};
use crate::text::{
    cat2, cat3, cat4, chars_of, ends_with, find_from, first_at, has_prefix, has_suffix, same, starts_with, text_between,
    text_of,
};
use crate::view::{group_views, opt_or, opt_view, views};
use crate::words::{join, joined, split, split_on, trim, trimmed};

verus! {

broadcast use vstd::string::group_string_axioms;

// ---------------------------------------------------------------------
// Small helpers
// ---------------------------------------------------------------------

/// The text of a value that should be a text: nothing for null, JSON for
/// anything else.
pub open spec fn value_text(v: JsonV) -> Seq<char> {
    match v {
        JsonV::String(s) => s,
        JsonV::Null => seq![],
        _ => printed(v),
    }
}

/// The text of a description: a text, or the `content` of an object.
pub open spec fn description_of(v: JsonV) -> Seq<char> {
    match v {
        JsonV::String(s) => s,
        JsonV::Object(_) => text_at(v, "content"@),
        _ => seq![],
    }
}

/// The texts that are not empty; anything else counts as empty.
pub open spec fn full_texts(items: Seq<JsonV>) -> Seq<Seq<char>>
    decreases items.len(),
{
    if items.len() == 0 {
        seq![]
    } else {
        let before = full_texts(items.drop_last());
        let s = opt_or(text_in(Some(items.last())), seq![]);
        if s.len() > 0 {
            before.push(s)
        } else {
            before
        }
    }
}

/// A text, or the texts of an array joined.
pub open spec fn joined_texts(v: JsonV, sep: Seq<char>) -> Seq<char> {
    match v {
        JsonV::String(s) => s,
        JsonV::Array(items) => joined(full_texts(items), sep),
        _ => seq![],
    }
}

fn empty_text() -> (r: String)
    ensures
        r@ == Seq::<char>::empty(),
{
    let r = String::new();
    assert(r@ =~= Seq::<char>::empty());
    r
}

fn member_or_null<'a>(v: &'a Json, key: &str, null: &'a Json) -> (r: &'a Json)
    requires
        null@ is Null,
    ensures
        r@ == at(v@, key@),
{
    match v.get(key) {
        Some(x) => x,
        None => null,
    }
}

/// The text of a value that should be a text.
pub fn value_as_string(v: &Json) -> (r: String)
    ensures
        r@ == value_text(v@),
{
    match v {
        Json::String(s) => s.clone(),
        Json::Null => empty_text(),
        _ => print(v),
    }
}

fn value_at(v: &Json, key: &str) -> (r: String)
    ensures
        r@ == value_text(at(v@, key@)),
{
    match v.get(key) {
        Some(x) => value_as_string(x),
        None => empty_text(),
    }
}

/// The text of a description.
pub fn description_text(v: &Json) -> (r: String)
    ensures
        r@ == description_of(v@),
{
    broadcast use crate::json::lemma_json_view;

    match v {
        Json::String(s) => s.clone(),
        Json::Object(_) => v.text("content"),
        _ => empty_text(),
    }
}

fn description_at(v: &Json, key: &str) -> (r: String)
    ensures
        r@ == description_of(at(v@, key@)),
{
    match v.get(key) {
        Some(x) => description_text(x),
        None => empty_text(),
    }
}

/// A text, or the texts of an array joined.
pub fn join_string_array(v: &Json, sep: &str) -> (r: String)
    ensures
        r@ == joined_texts(v@, sep@),
{
    broadcast use crate::json::lemma_json_view;
    broadcast use group_views;

    match v {
        Json::String(s) => s.clone(),
        Json::Array(items) => {
            let ghost all = views(items@);
            let mut parts: Vec<String> = Vec::new();
            let mut i: usize = 0;
            assert(all.take(0) =~= Seq::<JsonV>::empty());
            while i < items.len()
                invariant
                    i <= items.len(),
                    all == views(items@),
                    views(parts@) == full_texts(all.take(i as int)),
                decreases items.len() - i,
            {
                assert(all.take(i + 1).drop_last() =~= all.take(i as int));
                assert(all.take(i + 1).last() == items@[i as int]@);
                if let Some(s) = items[i].as_str() {
                    if s.unicode_len() > 0 {
                        parts.push(s.to_owned());
                    }
                }
                i += 1;
            }
            assert(all.take(i as int) =~= all);
            join(&parts, sep)
        },
        _ => empty_text(),
    }
}

fn join_at(v: &Json, key: &str, sep: &str) -> (r: String)
    ensures
        r@ == joined_texts(at(v@, key@), sep@),
{
    match v.get(key) {
        Some(x) => join_string_array(x, sep),
        None => empty_text(),
    }
}

// ---------------------------------------------------------------------
// Auth
// ---------------------------------------------------------------------

/// The parameters of rows with `key` and `value`.
pub open spec fn row_params(rows: Seq<JsonV>) -> Seq<(Seq<char>, Seq<char>)>
    decreases rows.len(),
{
    if rows.len() == 0 {
        seq![]
    } else {
        let before = row_params(rows.drop_last());
        match text_member(rows.last(), "key"@) {
            Some(key) => put(before, key, value_text(at(rows.last(), "value"@))),
            None => before,
        }
    }
}

/// The parameters of the members of an object.
pub open spec fn member_params(pairs: Seq<(Seq<char>, JsonV)>) -> Seq<(Seq<char>, Seq<char>)>
    decreases pairs.len(),
{
    if pairs.len() == 0 {
        seq![]
    } else {
        put(member_params(pairs.drop_last()), pairs.last().0, value_text(pairs.last().1))
    }
}

/// The parameters of an auth node: rows in one format, members in another.
pub open spec fn params_of(node: JsonV) -> Seq<(Seq<char>, Seq<char>)> {
    match node {
        JsonV::Array(rows) => row_params(rows),
        JsonV::Object(pairs) => member_params(pairs),
        _ => seq![],
    }
}

/// The parameters of an auth node.
pub fn auth_params(node: &Json) -> (r: TextMap<String>)
    ensures
        r@ == params_of(node@),
{
    broadcast use crate::json::lemma_json_view;

    let mut out: TextMap<String> = TextMap::new();
    match node {
        Json::Array(rows) => {
            let ghost all = views(rows@);
            let mut i: usize = 0;
            assert(all.take(0) =~= Seq::<JsonV>::empty());
            while i < rows.len()
                invariant
                    i <= rows.len(),
                    all == views(rows@),
                    out@ == row_params(all.take(i as int)),
                decreases rows.len() - i,
            {
                assert(all.take(i + 1).drop_last() =~= all.take(i as int));
                assert(all.take(i + 1).last() == rows@[i as int]@);
                if let Some(key) = rows[i].get_str("key") {
                    let _ = out.insert(key.to_owned(), value_at(&rows[i], "value"));
                }
                i += 1;
            }
            assert(all.take(i as int) =~= all);
        },
        Json::Object(pairs) => {
            let ghost all = pairs_view(pairs@);
            let mut i: usize = 0;
            assert(all.take(0) =~= Seq::<(Seq<char>, JsonV)>::empty());
            while i < pairs.len()
                invariant
                    i <= pairs.len(),
                    all == pairs_view(pairs@),
                    out@ == member_params(all.take(i as int)),
                decreases pairs.len() - i,
            {
                assert(all.take(i + 1).drop_last() =~= all.take(i as int));
                assert(all.take(i + 1).last() == all[i as int]);
                let _ = out.insert(pairs[i].0.clone(), value_as_string(&pairs[i].1));
                i += 1;
            }
            assert(all.take(i as int) =~= all);
        },
        _ => {},
    }
    out
}

/// The parameter `key`, empty where there is none.
pub open spec fn param(params: Seq<(Seq<char>, Seq<char>)>, key: Seq<char>) -> Seq<char> {
    opt_or(lookup(params, key), seq![])
}

/// A text, or nothing where it is empty.
pub open spec fn unless_empty(s: Seq<char>) -> Option<Seq<char>> {
    if s.len() == 0 {
        None
    } else {
        Some(s)
    }
}

/// Commas read as spaces.
pub open spec fn spaced(s: Seq<char>) -> Seq<char> {
    Seq::new(
        s.len(),
        |i: int|
            if s[i] == ',' {
                ' '
            } else {
                s[i]
            },
    )
}

/// The texts of a list that are not empty.
pub open spec fn non_empty(parts: Seq<Seq<char>>) -> Seq<Seq<char>>
    decreases parts.len(),
{
    if parts.len() == 0 {
        seq![]
    } else {
        let before = non_empty(parts.drop_last());
        if parts.last().len() > 0 {
            before.push(parts.last())
        } else {
            before
        }
    }
}

/// The scopes in a text: what spaces and commas separate.
pub open spec fn scope_list(s: Seq<char>) -> Seq<Seq<char>> {
    non_empty(split_on(spaced(s), ' '))
}

/// The auth that a node describes, and what has to be left out.
pub open spec fn auth_of(auth: JsonV, path: Seq<char>) -> (AuthV, Seq<Seq<char>>) {
    match text_member(auth, "type"@) {
        None => (AuthV::Inherit, seq![]),
        Some(kind) => {
            let p = params_of(at(auth, kind));
            if kind == "noauth"@ {
                (AuthV::NoAuth, seq![])
            } else if kind == "basic"@ {
                (AuthV::Basic { username: param(p, "username"@), password: param(p, "password"@) }, seq![])
            } else if kind == "bearer"@ {
                (AuthV::Bearer { token: param(p, "token"@), prefix: None }, seq![])
            } else if kind == "digest"@ {
                (AuthV::Digest { username: param(p, "username"@), password: param(p, "password"@) }, seq![])
            } else if kind == "ntlm"@ {
                (
                    AuthV::Ntlm {
                        username: param(p, "username"@),
                        password: param(p, "password"@),
                        domain: param(p, "domain"@),
                    },
                    seq![],
                )
            } else if kind == "awsv4"@ {
                (
                    AuthV::AwsSigV4 {
                        access_key: param(p, "accessKey"@),
                        secret_key: param(p, "secretKey"@),
                        session_token: unless_empty(param(p, "sessionToken"@)),
                        region: param(p, "region"@),
                        service: param(p, "service"@),
                    },
                    seq![],
                )
            } else if kind == "apikey"@ {
                (
                    AuthV::ApiKey {
                        key: param(p, "key"@),
                        value: param(p, "value"@),
                        placement: if param(p, "in"@) == "query"@ {
                            ApiKeyPlacement::Query
                        } else {
                            ApiKeyPlacement::Header
                        },
                    },
                    seq![],
                )
            } else if kind == "oauth2"@ {
                oauth2_of(p, path)
            } else {
                (AuthV::NoAuth, seq![path + ": auth type '"@ + kind + "' not supported, auth dropped"@])
            }
        },
    }
}

/// The OAuth 2 auth that parameters describe.
pub open spec fn oauth2_of(p: Seq<(Seq<char>, Seq<char>)>, path: Seq<char>) -> (AuthV, Seq<Seq<char>>) {
    let scopes = scope_list(param(p, "scope"@));
    let grant = param(p, "grant_type"@);
    if grant == "client_credentials"@ {
        (
            AuthV::OAuth2ClientCredentials {
                token_url: param(p, "accessTokenUrl"@),
                client_id: param(p, "clientId"@),
                client_secret: param(p, "clientSecret"@),
                scopes,
                credentials_in_body: param(p, "client_authentication"@) == "body"@,
            },
            seq![],
        )
    } else if has_prefix(grant, "authorization_code"@) {
        (
            AuthV::OAuth2AuthCode {
                auth_url: param(p, "authUrl"@),
                token_url: param(p, "accessTokenUrl"@),
                client_id: param(p, "clientId"@),
                client_secret: unless_empty(param(p, "clientSecret"@)),
                scopes,
                redirect_port: None,
                pkce: has_suffix(grant, "with_pkce"@),
            },
            seq![],
        )
    } else {
        (AuthV::NoAuth, seq![path + ": OAuth2 grant type '"@ + grant + "' not supported, auth dropped"@])
    }
}

fn get_param(params: &TextMap<String>, key: &str) -> (r: String)
    ensures
        r@ == param(params@, key@),
{
    match params.get(key) {
        Some(s) => s.clone(),
        None => empty_text(),
    }
}

fn full(s: String) -> (r: Option<String>)
    ensures
        opt_view(r) == unless_empty(s@),
{
    if s.as_str().unicode_len() == 0 {
        None
    } else {
        Some(s)
    }
}

/// The scopes in a text.
pub fn scopes_in(s: &str) -> (r: Vec<String>)
    ensures
        views(r@) == scope_list(s@),
{
    broadcast use group_views;

    let chars = chars_of(s);
    let mut spaces: Vec<char> = Vec::new();
    let mut i: usize = 0;
    while i < chars.len()
        invariant
            i <= chars.len(),
            chars@ == s@,
            spaces@ == spaced(s@).take(i as int),
        decreases chars.len() - i,
    {
        let c = if chars[i] == ',' {
            ' '
        } else {
            chars[i]
        };
        spaces.push(c);
        assert(spaces@ =~= spaced(s@).take(i + 1));
        i += 1;
    }
    assert(spaces@ =~= spaced(s@));
    let parts = split(text_of(&spaces).as_str(), ' ');
    let ghost all = views(parts@);
    let mut out: Vec<String> = Vec::new();
    let mut k: usize = 0;
    assert(all.take(0) =~= Seq::<Seq<char>>::empty());
    while k < parts.len()
        invariant
            k <= parts.len(),
            all == views(parts@),
            views(out@) == non_empty(all.take(k as int)),
        decreases parts.len() - k,
    {
        assert(all.take(k + 1).drop_last() =~= all.take(k as int));
        assert(all.take(k + 1).last() == parts@[k as int]@);
        if parts[k].as_str().unicode_len() > 0 {
            out.push(parts[k].clone());
        }
        k += 1;
    }
    assert(all.take(k as int) =~= all);
    out
}

fn skip(skipped: &mut Vec<String>, note: String)
    ensures
        views(final(skipped)@) == views(old(skipped)@) + seq![note@],
{
    broadcast use group_views;

    let ghost before = views(skipped@);
    let ghost view = note@;
    skipped.push(note);
    assert(before.push(view) =~= before + seq![view]);
}

fn parse_oauth2(params: &TextMap<String>, path: &str, skipped: &mut Vec<String>) -> (r: AuthConfig)
    ensures
        r@ == oauth2_of(params@, path@).0,
        views(final(skipped)@) == views(old(skipped)@) + oauth2_of(params@, path@).1,
{
    let ghost before = views(skipped@);
    assert(before + Seq::<Seq<char>>::empty() =~= before);
    let scopes = scopes_in(get_param(params, "scope").as_str());
    let grant = get_param(params, "grant_type");
    if same(grant.as_str(), "client_credentials") {
        AuthConfig::OAuth2ClientCredentials {
            token_url: get_param(params, "accessTokenUrl"),
            client_id: get_param(params, "clientId"),
            client_secret: get_param(params, "clientSecret"),
            scopes,
            credentials_in_body: same(get_param(params, "client_authentication").as_str(), "body"),
        }
    } else if starts_with(grant.as_str(), "authorization_code") {
        AuthConfig::OAuth2AuthCode {
            auth_url: get_param(params, "authUrl"),
            token_url: get_param(params, "accessTokenUrl"),
            client_id: get_param(params, "clientId"),
            client_secret: full(get_param(params, "clientSecret")),
            scopes,
            redirect_port: None,
            pkce: ends_with(grant.as_str(), "with_pkce"),
        }
    } else {
        skip(
            skipped,
            cat4(path, ": OAuth2 grant type '", grant.as_str(), "' not supported, auth dropped"),
        );
        AuthConfig::NoAuth
    }
}

/// Read the auth of a request, folder or collection. What cannot be mapped is
/// noted.
pub fn parse_auth(auth: &Json, path: &str, skipped: &mut Vec<String>) -> (r: AuthConfig)
    ensures
        r@ == auth_of(auth@, path@).0,
        views(final(skipped)@) == views(old(skipped)@) + auth_of(auth@, path@).1,
{
    let ghost before = views(skipped@);
    assert(before + Seq::<Seq<char>>::empty() =~= before);
    let kind = match auth.get_str("type") {
        None => {
            return AuthConfig::Inherit;
        },
        Some(kind) => kind,
    };
    let null = Json::Null;
    let params = auth_params(member_or_null(auth, kind, &null));
    if same(kind, "noauth") {
        AuthConfig::NoAuth
    } else if same(kind, "basic") {
        AuthConfig::Basic { username: get_param(&params, "username"), password: get_param(&params, "password") }
    } else if same(kind, "bearer") {
        AuthConfig::Bearer { token: get_param(&params, "token"), prefix: None }
    } else if same(kind, "digest") {
        AuthConfig::Digest { username: get_param(&params, "username"), password: get_param(&params, "password") }
    } else if same(kind, "ntlm") {
        AuthConfig::Ntlm {
            username: get_param(&params, "username"),
            password: get_param(&params, "password"),
            domain: get_param(&params, "domain"),
        }
    } else if same(kind, "awsv4") {
        AuthConfig::AwsSigV4 {
            access_key: get_param(&params, "accessKey"),
            secret_key: get_param(&params, "secretKey"),
            session_token: full(get_param(&params, "sessionToken")),
            region: get_param(&params, "region"),
            service: get_param(&params, "service"),
        }
    } else if same(kind, "apikey") {
        AuthConfig::ApiKey {
            key: get_param(&params, "key"),
            value: get_param(&params, "value"),
            placement: if same(get_param(&params, "in").as_str(), "query") {
                ApiKeyPlacement::Query
            } else {
                ApiKeyPlacement::Header
            },
        }
    } else if same(kind, "oauth2") {
        parse_oauth2(&params, path, skipped)
    } else {
        skip(skipped, cat4(path, ": auth type '", kind, "' not supported, auth dropped"));
        AuthConfig::NoAuth
    }
}

fn auth_at(v: &Json, path: &str, skipped: &mut Vec<String>) -> (r: AuthConfig)
    ensures
        r@ == auth_of(at(v@, "auth"@), path@).0,
        views(final(skipped)@) == views(old(skipped)@) + auth_of(at(v@, "auth"@), path@).1,
{
    let null = Json::Null;
    parse_auth(member_or_null(v, "auth", &null), path, skipped)
}

// ---------------------------------------------------------------------
// Rows, URL and body
// ---------------------------------------------------------------------

/// The table row that a node describes, given whether it is enabled.
pub open spec fn row_of(key: Seq<char>, row: JsonV, enabled: bool) -> RowV {
    RowV {
        key,
        value: value_text(at(row, "value"@)),
        description: description_of(at(row, "description"@)),
        enabled,
    }
}

/// The table rows that nodes describe; a node without a key is none.
pub open spec fn rows_of(rows: Seq<JsonV>) -> Seq<RowV>
    decreases rows.len(),
{
    if rows.len() == 0 {
        seq![]
    } else {
        let before = rows_of(rows.drop_last());
        match text_member(rows.last(), "key"@) {
            Some(key) => before.push(row_of(key, rows.last(), !flag_at(rows.last(), "disabled"@))),
            None => before,
        }
    }
}

/// The parameters that nodes describe. Path parameters are always enabled.
pub open spec fn url_params(rows: Seq<JsonV>, kind: ParamKind) -> Seq<ParamV>
    decreases rows.len(),
{
    if rows.len() == 0 {
        seq![]
    } else {
        let before = url_params(rows.drop_last(), kind);
        let row = rows.last();
        match text_member(row, "key"@) {
            Some(key) => before.push(
                ParamV { kv: row_of(key, row, kind == ParamKind::Path || !flag_at(row, "disabled"@)), kind },
            ),
            None => before,
        }
    }
}

/// The URL as it is written: a text, the `raw` text, or host and path put
/// together.
pub open spec fn raw_url(url: JsonV) -> Seq<char> {
    match url {
        JsonV::String(s) => s,
        _ => {
            let raw = text_at(url, "raw"@);
            if raw.len() > 0 {
                raw
            } else {
                let host = joined_texts(at(url, "host"@), "."@);
                let path = joined_texts(at(url, "path"@), "/"@);
                if path.len() == 0 {
                    host
                } else {
                    host + "/"@ + path
                }
            }
        },
    }
}

/// The query that is written in a URL: what stands between the first `?` and
/// the `#` after it.
pub open spec fn query_text(raw: Seq<char>) -> Seq<char> {
    match first_at(raw, "?"@, 0) {
        None => seq![],
        Some(i) => split_on(raw.skip(i + 1), '#')[0],
    }
}

/// A pair of a query as a parameter: the key before the first `=`, the value
/// after it, both as they are written.
pub open spec fn pair_param(pair: Seq<char>) -> ParamV {
    let (key, value) = match first_at(pair, "="@, 0) {
        None => (pair, seq![]),
        Some(i) => (pair.take(i), pair.skip(i + 1)),
    };
    ParamV { kv: RowV { key, value, description: seq![], enabled: true }, kind: ParamKind::Query }
}

/// The parameters that the pairs of a query make; an empty pair makes none.
pub open spec fn pair_params(pairs: Seq<Seq<char>>) -> Seq<ParamV>
    decreases pairs.len(),
{
    if pairs.len() == 0 {
        seq![]
    } else {
        let before = pair_params(pairs.drop_last());
        if pairs.last().len() == 0 {
            before
        } else {
            before.push(pair_param(pairs.last()))
        }
    }
}

/// The query parameters of a URL: those that are listed, or else those of the
/// query that is written in it.
pub open spec fn query_params(url: JsonV) -> Seq<ParamV> {
    let listed = url_params(items_at(url, "query"@), ParamKind::Query);
    if listed.len() > 0 {
        listed
    } else {
        pair_params(split_on(query_text(raw_url(url)), '&'))
    }
}

/// The URL without its query, and the query and path parameters.
pub open spec fn url_of(url: JsonV) -> (Seq<char>, Seq<ParamV>) {
    (
        split_on(raw_url(url), '?')[0],
        query_params(url) + url_params(items_at(url, "variable"@), ParamKind::Path),
    )
}

fn read_row(key: &str, row: &Json, enabled: bool) -> (r: KeyValue)
    ensures
        r@ == row_of(key@, row@, enabled),
{
    KeyValue {
        key: key.to_owned(),
        value: value_at(row, "value"),
        description: description_at(row, "description"),
        enabled,
    }
}

/// Read table rows.
pub fn kv_rows(rows: &Vec<Json>) -> (r: Vec<KeyValue>)
    ensures
        views(r@) == rows_of(views(rows@)),
{
    broadcast use group_views;

    let ghost all = views(rows@);
    let mut out: Vec<KeyValue> = Vec::new();
    let mut i: usize = 0;
    assert(all.take(0) =~= Seq::<JsonV>::empty());
    while i < rows.len()
        invariant
            i <= rows.len(),
            all == views(rows@),
            views(out@) == rows_of(all.take(i as int)),
        decreases rows.len() - i,
    {
        assert(all.take(i + 1).drop_last() =~= all.take(i as int));
        assert(all.take(i + 1).last() == rows@[i as int]@);
        if let Some(key) = rows[i].get_str("key") {
            out.push(read_row(key, &rows[i], !rows[i].flag("disabled")));
        }
        i += 1;
    }
    assert(all.take(i as int) =~= all);
    out
}

fn rows_at(v: &Json, key: &str) -> (r: Vec<KeyValue>)
    ensures
        views(r@) == rows_of(items_at(v@, key@)),
{
    broadcast use group_views;

    match v.list(key) {
        Some(rows) => kv_rows(rows),
        None => Vec::new(),
    }
}

fn read_params(rows: &Vec<Json>, kind: ParamKind, out: &mut Vec<Param>)
    ensures
        views(final(out)@) == views(old(out)@) + url_params(views(rows@), kind),
{
    broadcast use group_views;

    let ghost start = views(out@);
    let ghost all = views(rows@);
    let mut i: usize = 0;
    assert(all.take(0) =~= Seq::<JsonV>::empty());
    assert(start + Seq::<ParamV>::empty() =~= start);
    while i < rows.len()
        invariant
            i <= rows.len(),
            all == views(rows@),
            views(out@) == start + url_params(all.take(i as int), kind),
        decreases rows.len() - i,
    {
        assert(all.take(i + 1).drop_last() =~= all.take(i as int));
        assert(all.take(i + 1).last() == rows@[i as int]@);
        if let Some(key) = rows[i].get_str("key") {
            let enabled = kind == ParamKind::Path || !rows[i].flag("disabled");
            let kv = read_row(key, &rows[i], enabled);
            let ghost before = url_params(all.take(i as int), kind);
            let ghost view = ParamV { kv: kv@, kind };
            out.push(Param { kv, kind });
            assert((start + before).push(view) =~= start + before.push(view));
        }
        i += 1;
    }
    assert(all.take(i as int) =~= all);
}

fn written_query(raw: &str) -> (r: String)
    ensures
        r@ == query_text(raw@),
{
    let chars = chars_of(raw);
    let n: usize = chars.len();
    proof {
        reveal_strlit("?");
    }
    match find_from(&chars, &chars_of("?"), 0) {
        None => {
            let r = String::new();
            assert(r@ =~= seq![]);
            r
        },
        Some(i) => {
            assert(chars@.subrange(i + 1, n as int) =~= raw@.skip(i + 1));
            let pieces = split(text_between(&chars, i + 1, n).as_str(), '#');
            assert(views(pieces@)[0] == pieces@[0]@);
            pieces[0].clone()
        },
    }
}

fn read_pair(pair: &str) -> (r: Param)
    ensures
        r@ == pair_param(pair@),
{
    let chars = chars_of(pair);
    let n: usize = chars.len();
    proof {
        reveal_strlit("=");
    }
    let (key, value) = match find_from(&chars, &chars_of("="), 0) {
        None => (pair.to_owned(), String::new()),
        Some(i) => {
            assert(chars@.subrange(0, i as int) =~= pair@.take(i as int));
            assert(chars@.subrange(i + 1, n as int) =~= pair@.skip(i + 1));
            (text_between(&chars, 0, i), text_between(&chars, i + 1, n))
        },
    };
    let r = Param { kv: KeyValue { key, value, description: String::new(), enabled: true }, kind: ParamKind::Query };
    assert(r@.kv.value =~= pair_param(pair@).kv.value);
    assert(r@.kv.description =~= seq![]);
    r
}

fn read_pairs(query: &str) -> (r: Vec<Param>)
    ensures
        views(r@) == pair_params(split_on(query@, '&')),
{
    broadcast use group_views;

    let pairs = split(query, '&');
    let ghost all = views(pairs@);
    let mut out: Vec<Param> = Vec::new();
    let mut i: usize = 0;
    assert(all.take(0) =~= Seq::<Seq<char>>::empty());
    while i < pairs.len()
        invariant
            i <= pairs.len(),
            all == views(pairs@),
            views(out@) == pair_params(all.take(i as int)),
        decreases pairs.len() - i,
    {
        assert(all.take(i + 1).drop_last() =~= all.take(i as int));
        assert(all.take(i + 1).last() == pairs@[i as int]@);
        if pairs[i].as_str().unicode_len() > 0 {
            out.push(read_pair(pairs[i].as_str()));
        }
        i += 1;
    }
    assert(all.take(i as int) =~= all);
    out
}

/// Read a URL: the address without its query, and the parameters.
pub fn parse_url(url: &Json) -> (r: (String, Vec<Param>))
    ensures
        (r.0@, views(r.1@)) == url_of(url@),
{
    broadcast use group_views;

    let raw = match url {
        Json::String(s) => s.clone(),
        _ => {
            let raw = url.text("raw");
            if raw.as_str().unicode_len() > 0 {
                raw
            } else {
                let host = join_at(url, "host", ".");
                let path = join_at(url, "path", "/");
                if path.as_str().unicode_len() == 0 {
                    host
                } else {
                    cat3(host.as_str(), "/", path.as_str())
                }
            }
        },
    };
    assert(raw@ == raw_url(url@));
    let mut params: Vec<Param> = Vec::new();
    if let Some(rows) = url.list("query") {
        read_params(rows, ParamKind::Query, &mut params);
    }
    assert(views(params@) =~= url_params(items_at(url@, "query"@), ParamKind::Query));
    assert(views(params@).len() == params@.len());
    if params.len() == 0 {
        params = read_pairs(written_query(raw.as_str()).as_str());
    }
    assert(views(params@) == query_params(url@));
    let ghost queries = views(params@);
    if let Some(rows) = url.list("variable") {
        read_params(rows, ParamKind::Path, &mut params);
    }
    assert(views(params@) =~= queries + url_params(items_at(url@, "variable"@), ParamKind::Path));
    let pieces = split(raw.as_str(), '?');
    assert(views(pieces@)[0] == pieces@[0]@);
    (pieces[0].clone(), params)
}

/// The file of a part: a text, or the first of an array.
pub open spec fn part_source(src: Option<JsonV>) -> Seq<char> {
    match src {
        Some(JsonV::String(s)) => s,
        Some(JsonV::Array(items)) => if items.len() > 0 {
            opt_or(text_in(Some(items[0])), seq![])
        } else {
            seq![]
        },
        _ => seq![],
    }
}

/// The multipart part that a node describes.
pub open spec fn part_of(key: Seq<char>, row: JsonV) -> MultipartV {
    MultipartV {
        name: key,
        content: if text_member(row, "type"@) == Some("file"@) {
            ContentV::File { path: part_source(member(row, "src"@)) }
        } else {
            ContentV::Text { value: value_text(at(row, "value"@)) }
        },
        content_type: text_member(row, "contentType"@),
        enabled: !flag_at(row, "disabled"@),
    }
}

/// The multipart parts that nodes describe.
pub open spec fn parts_of(rows: Seq<JsonV>) -> Seq<MultipartV>
    decreases rows.len(),
{
    if rows.len() == 0 {
        seq![]
    } else {
        let before = parts_of(rows.drop_last());
        match text_member(rows.last(), "key"@) {
            Some(key) => before.push(part_of(key, rows.last())),
            None => before,
        }
    }
}

/// A raw body in a language.
pub open spec fn raw_body(text: Seq<char>, language: Seq<char>) -> BodyDefV {
    if language == "json"@ {
        BodyDefV::Json { text }
    } else if language == "xml"@ {
        BodyDefV::Xml { text }
    } else if language == "html"@ {
        BodyDefV::Raw { text, language: RawLanguage::Html }
    } else if language == "yaml"@ {
        BodyDefV::Raw { text, language: RawLanguage::Yaml }
    } else {
        BodyDefV::Raw { text, language: RawLanguage::Text }
    }
}

/// The body that a node describes, and what has to be left out.
pub open spec fn body_of(body: JsonV, path: Seq<char>) -> (BodyDefV, Seq<Seq<char>>) {
    if flag_at(body, "disabled"@) {
        (BodyDefV::Empty, seq![])
    } else {
        match text_member(body, "mode"@) {
            None => (BodyDefV::Empty, seq![]),
            Some(mode) => if mode == "raw"@ {
                (
                    raw_body(
                        text_at(body, "raw"@),
                        opt_or(text_member(at(at(body, "options"@), "raw"@), "language"@), "text"@),
                    ),
                    seq![],
                )
            } else if mode == "urlencoded"@ {
                (BodyDefV::FormUrlencoded { fields: rows_of(items_at(body, "urlencoded"@)) }, seq![])
            } else if mode == "formdata"@ {
                (BodyDefV::Multipart { parts: parts_of(items_at(body, "formdata"@)) }, seq![])
            } else if mode == "graphql"@ {
                (
                    BodyDefV::GraphQl {
                        query: text_at(at(body, "graphql"@), "query"@),
                        variables: text_at(at(body, "graphql"@), "variables"@),
                        operation_name: None,
                    },
                    seq![],
                )
            } else if mode == "file"@ {
                (BodyDefV::Binary { path: text_at(at(body, "file"@), "src"@) }, seq![])
            } else {
                (BodyDefV::Empty, seq![path + ": unsupported body mode '"@ + mode + "', body dropped"@])
            },
        }
    }
}

fn read_part(key: &str, row: &Json) -> (r: MultipartPart)
    ensures
        r@ == part_of(key@, row@),
{
    broadcast use crate::json::lemma_json_view;

    let is_file = match row.get_str("type") {
        Some(t) => same(t, "file"),
        None => false,
    };
    let content = if is_file {
        let path = match row.get("src") {
            Some(Json::String(s)) => s.clone(),
            Some(Json::Array(items)) => {
                if items.len() > 0 {
                    assert(views(items@)[0] == items@[0]@);
                    match items[0].as_str() {
                        Some(s) => s.to_owned(),
                        None => empty_text(),
                    }
                } else {
                    empty_text()
                }
            },
            _ => empty_text(),
        };
        PartContent::File { path }
    } else {
        PartContent::Text { value: value_at(row, "value") }
    };
    MultipartPart {
        name: key.to_owned(),
        content,
        content_type: crate::json::own(row.get_str("contentType")),
        enabled: !row.flag("disabled"),
    }
}

fn read_parts(rows: &Vec<Json>) -> (r: Vec<MultipartPart>)
    ensures
        views(r@) == parts_of(views(rows@)),
{
    broadcast use group_views;

    let ghost all = views(rows@);
    let mut out: Vec<MultipartPart> = Vec::new();
    let mut i: usize = 0;
    assert(all.take(0) =~= Seq::<JsonV>::empty());
    while i < rows.len()
        invariant
            i <= rows.len(),
            all == views(rows@),
            views(out@) == parts_of(all.take(i as int)),
        decreases rows.len() - i,
    {
        assert(all.take(i + 1).drop_last() =~= all.take(i as int));
        assert(all.take(i + 1).last() == rows@[i as int]@);
        if let Some(key) = rows[i].get_str("key") {
            out.push(read_part(key, &rows[i]));
        }
        i += 1;
    }
    assert(all.take(i as int) =~= all);
    out
}

fn read_raw(text: String, language: &str) -> (r: BodyDef)
    ensures
        r@ == raw_body(text@, language@),
{
    if same(language, "json") {
        BodyDef::Json { text }
    } else if same(language, "xml") {
        BodyDef::Xml { text }
    } else if same(language, "html") {
        BodyDef::Raw { text, language: RawLanguage::Html }
    } else if same(language, "yaml") {
        BodyDef::Raw { text, language: RawLanguage::Yaml }
    } else {
        BodyDef::Raw { text, language: RawLanguage::Text }
    }
}

/// Read a body. What cannot be mapped is noted.
pub fn parse_body(body: &Json, path: &str, skipped: &mut Vec<String>) -> (r: BodyDef)
    ensures
        r@ == body_of(body@, path@).0,
        views(final(skipped)@) == views(old(skipped)@) + body_of(body@, path@).1,
{
    broadcast use group_views;

    let ghost before = views(skipped@);
    assert(before + Seq::<Seq<char>>::empty() =~= before);
    if body.flag("disabled") {
        return BodyDef::Empty;
    }
    let mode = match body.get_str("mode") {
        None => {
            return BodyDef::Empty;
        },
        Some(mode) => mode,
    };
    let null = Json::Null;
    if same(mode, "raw") {
        let options = member_or_null(member_or_null(body, "options", &null), "raw", &null);
        let language = crate::json::text_or(options.get_str("language"), "text");
        read_raw(body.text("raw"), language)
    } else if same(mode, "urlencoded") {
        BodyDef::FormUrlencoded { fields: rows_at(body, "urlencoded") }
    } else if same(mode, "formdata") {
        let parts: Vec<MultipartPart> = match body.list("formdata") {
            Some(rows) => read_parts(rows),
            None => Vec::new(),
        };
        BodyDef::Multipart { parts }
    } else if same(mode, "graphql") {
        let node = member_or_null(body, "graphql", &null);
        BodyDef::GraphQl { query: node.text("query"), variables: node.text("variables"), operation_name: None }
    } else if same(mode, "file") {
        BodyDef::Binary { path: member_or_null(body, "file", &null).text("src") }
    } else {
        skip(skipped, cat4(path, ": unsupported body mode '", mode, "', body dropped"));
        BodyDef::Empty
    }
}

// ---------------------------------------------------------------------
// Scripts
// ---------------------------------------------------------------------

/// The lines of a script; what is no text is an empty line.
pub open spec fn script_lines(items: Seq<JsonV>) -> Seq<Seq<char>> {
    Seq::new(items.len(), |i: int| opt_or(text_in(Some(items[i])), seq![]))
}

/// The source of a script: a text, or lines.
pub open spec fn script_source(exec: Option<JsonV>) -> Option<Seq<char>> {
    match exec {
        Some(JsonV::Array(lines)) => Some(joined(script_lines(lines), "\n"@)),
        Some(JsonV::String(s)) => Some(s),
        _ => None,
    }
}

/// The source of an event that listens to `listen`, is enabled and not blank.
pub open spec fn event_source(event: JsonV, listen: Seq<char>) -> Option<Seq<char>> {
    if text_member(event, "listen"@) == Some(listen) && !flag_at(event, "disabled"@) {
        match script_source(member(at(event, "script"@), "exec"@)) {
            Some(code) => if trimmed(code).len() > 0 {
                Some(code)
            } else {
                None
            },
            None => None,
        }
    } else {
        None
    }
}

/// The source of the first such event.
pub open spec fn first_source(events: Seq<JsonV>, listen: Seq<char>) -> Option<Seq<char>>
    decreases events.len(),
{
    if events.len() == 0 {
        None
    } else {
        match event_source(events[0], listen) {
            Some(code) => Some(code),
            None => first_source(events.skip(1), listen),
        }
    }
}

/// The script of an item for `listen`.
pub open spec fn script_for(item: JsonV, listen: Seq<char>) -> Option<Seq<char>> {
    first_source(items_at(item, "event"@), listen)
}

/// The hooks of a folder or collection: events before and after each request.
pub open spec fn hooks_of(item: JsonV) -> HooksDefV {
    let before = script_for(item, "prerequest"@);
    let after = script_for(item, "test"@);
    HooksDefV {
        before_each: before,
        after_each: after,
        language: if before is Some || after is Some {
            ScriptLang::Js
        } else {
            ScriptLang::Rhai
        },
        ..no_hooks()
    }
}

fn read_source(exec: Option<&Json>) -> (r: Option<String>)
    ensures
        opt_view(r) == script_source(crate::view::ref_view(exec)),
{
    broadcast use crate::json::lemma_json_view;

    match exec {
        Some(Json::Array(items)) => {
            let mut lines: Vec<String> = Vec::new();
            let mut i: usize = 0;
            while i < items.len()
                invariant
                    i <= items.len(),
                    lines.len() == i,
                    forall|k: int|
                        0 <= k < i ==> (#[trigger] lines@[k])@ == opt_or(text_in(Some(items@[k]@)), seq![]),
                decreases items.len() - i,
            {
                let line = match items[i].as_str() {
                    Some(s) => s.to_owned(),
                    None => empty_text(),
                };
                lines.push(line);
                i += 1;
            }
            assert(views(lines@) =~= script_lines(views(items@)));
            Some(join(&lines, "\n"))
        },
        Some(Json::String(s)) => Some(s.clone()),
        _ => None,
    }
}

fn read_event(event: &Json, listen: &str) -> (r: Option<String>)
    ensures
        opt_view(r) == event_source(event@, listen@),
{
    let listens = match event.get_str("listen") {
        Some(s) => same(s, listen),
        None => false,
    };
    if !listens || event.flag("disabled") {
        return None;
    }
    let null = Json::Null;
    match read_source(member_or_null(event, "script", &null).get("exec")) {
        Some(code) => {
            if trim(code.as_str()).as_str().unicode_len() > 0 {
                Some(code)
            } else {
                None
            }
        },
        None => None,
    }
}

/// The source of the first script of an item for `listen`.
pub fn event_script(item: &Json, listen: &str) -> (r: Option<String>)
    ensures
        opt_view(r) == script_for(item@, listen@),
{
    if let Some(events) = item.list("event") {
        let ghost all = views(events@);
        let mut i: usize = 0;
        assert(all.skip(0) =~= all);
        while i < events.len()
            invariant
                i <= events.len(),
                all == views(events@),
                all == items_at(item@, "event"@),
                first_source(all, listen@) == first_source(all.skip(i as int), listen@),
            decreases events.len() - i,
        {
            assert(all.skip(i as int)[0] == events@[i as int]@);
            assert(all.skip(i as int).skip(1) =~= all.skip(i + 1));
            if let Some(code) = read_event(&events[i], listen) {
                return Some(code);
            }
            i += 1;
        }
    }
    None
}

/// The hooks of a folder or collection.
pub fn hooks_from_events(item: &Json) -> (r: SuiteHooks)
    ensures
        r@ == hooks_of(item@),
{
    let before_each = event_script(item, "prerequest");
    let after_each = event_script(item, "test");
    let language = if before_each.is_some() || after_each.is_some() {
        ScriptLang::Js
    } else {
        ScriptLang::Rhai
    };
    SuiteHooks { before_all: None, before_each, after_each, after_all: None, language }
}

// ---------------------------------------------------------------------
// Requests and folders
// ---------------------------------------------------------------------

/// The name of an item.
pub open spec fn item_name(item: JsonV) -> Seq<char> {
    opt_or(text_member(item, "name"@), "Unnamed"@)
}

/// The path of an item in its collection.
pub open spec fn item_path(path: Seq<char>, name: Seq<char>) -> Seq<char> {
    if path.len() == 0 {
        name
    } else {
        path + "/"@ + name
    }
}

/// The scripts of a request.
pub open spec fn scripts_of(item: JsonV) -> ScriptsV {
    let pre = script_for(item, "prerequest"@);
    let post = script_for(item, "test"@);
    ScriptsV {
        pre_request: pre,
        post_response: post,
        language: if pre is Some || post is Some {
            ScriptLang::Js
        } else {
            ScriptLang::Rhai
        },
    }
}

/// The note about saved example responses.
pub open spec fn response_notes(item: JsonV, path: Seq<char>) -> Seq<Seq<char>> {
    if items_at(item, "response"@).len() > 0 {
        seq![path + ": saved example responses not imported"@]
    } else {
        seq![]
    }
}

/// The request that an item describes, and what has to be left out.
pub open spec fn request_of(item: JsonV, path: Seq<char>) -> (RequestDefV, Seq<Seq<char>>) {
    let name = item_name(item);
    let req = at(item, "request"@);
    match req {
        JsonV::String(url) => (
            RequestDefV { scripts: scripts_of(item), ..bare_request(name, Method::Get, url) },
            response_notes(item, path),
        ),
        _ => {
            let written = opt_or(text_member(req, "method"@), "GET"@);
            let method = method_named(written, 8);
            let (url, params) = url_of(at(req, "url"@));
            let (auth, auth_notes) = auth_of(at(req, "auth"@), path);
            let (body, body_notes) = body_of(at(req, "body"@), path);
            let method_notes = if method is None {
                seq![path + ": unsupported method "@ + written + ", imported as GET"@]
            } else {
                seq![]
            };
            (
                RequestDefV {
                    description: description_of(at(req, "description"@)),
                    params,
                    headers: rows_of(items_at(req, "header"@)),
                    auth,
                    body,
                    scripts: scripts_of(item),
                    ..bare_request(name, opt_or(method, Method::Get), url)
                },
                method_notes + auth_notes + body_notes + response_notes(item, path),
            )
        },
    }
}

fn read_scripts(item: &Json) -> (r: Scripts)
    ensures
        r@ == scripts_of(item@),
{
    let pre_request = event_script(item, "prerequest");
    let post_response = event_script(item, "test");
    let language = if pre_request.is_some() || post_response.is_some() {
        ScriptLang::Js
    } else {
        ScriptLang::Rhai
    };
    Scripts { pre_request, post_response, language }
}

fn note_responses(item: &Json, path: &str, skipped: &mut Vec<String>)
    ensures
        views(final(skipped)@) == views(old(skipped)@) + response_notes(item@, path@),
{
    let ghost start = views(skipped@);
    assert(start + Seq::<Seq<char>>::empty() =~= start);
    if let Some(list) = item.list("response") {
        if list.len() > 0 {
            skip(skipped, cat2(path, ": saved example responses not imported"));
        }
    }
}

/// Read a request. What cannot be mapped is noted.
pub fn parse_request(item: &Json, path: &str, skipped: &mut Vec<String>) -> (r: RequestDef)
    ensures
        r@ == request_of(item@, path@).0,
        views(final(skipped)@) == views(old(skipped)@) + request_of(item@, path@).1,
{
    broadcast use group_views;

    let ghost start = views(skipped@);
    assert(start + Seq::<Seq<char>>::empty() =~= start);
    let name = crate::json::text_or(item.get_str("name"), "Unnamed");
    let null = Json::Null;
    let req = member_or_null(item, "request", &null);
    if let Json::String(url) = req {
        let mut def = RequestDef::new(name, Method::Get, url.as_str());
        def.scripts = read_scripts(item);
        note_responses(item, path, skipped);
        return def;
    }
    let written = crate::json::text_or(req.get_str("method"), "GET");
    let method = match Method::parse(written) {
        Some(m) => m,
        None => {
            skip(skipped, cat4(path, ": unsupported method ", written, ", imported as GET"));
            Method::Get
        },
    };
    let ghost notes1 = if method_named(written@, 8) is None {
        seq![path@ + ": unsupported method "@ + written@ + ", imported as GET"@]
    } else {
        seq![]
    };
    assert(views(skipped@) =~= start + notes1);
    let (url, params) = parse_url(member_or_null(req, "url", &null));
    let mut def = RequestDef::new(name, method, url.as_str());
    def.description = description_at(req, "description");
    def.params = params;
    def.headers = rows_at(req, "header");
    def.auth = auth_at(req, path, skipped);
    let ghost notes2 = auth_of(at(req@, "auth"@), path@).1;
    def.body = parse_body(member_or_null(req, "body", &null), path, skipped);
    let ghost notes3 = body_of(at(req@, "body"@), path@).1;
    def.scripts = read_scripts(item);
    note_responses(item, path, skipped);
    let ghost notes4 = response_notes(item@, path@);
    proof {
        assert(views(skipped@) =~= start + (notes1 + notes2 + notes3 + notes4));
        assert(request_of(item@, path@).1 == notes1 + notes2 + notes3 + notes4);
    }
    def
}

/// A folder or a request of an imported collection.
#[derive(Debug)]
pub enum ImportedItem {
    Folder { name: String, description: String, auth: AuthConfig, hooks: SuiteHooks, items: Vec<ImportedItem> },
    Request(Box<RequestDef>),
}

/// What an [`ImportedItem`] holds.
pub enum ItemV {
    Folder { name: Seq<char>, description: Seq<char>, auth: AuthV, hooks: HooksDefV, items: Seq<ItemV> },
    Request(RequestDefV),
}

impl ImportedItem {
    /// The item that `self` denotes.
    pub open spec fn denotes(&self) -> ItemV
        decreases self,
    {
        match self {
            ImportedItem::Request(def) => ItemV::Request(def@),
            ImportedItem::Folder { name, description, auth, hooks, items } => ItemV::Folder {
                name: name@,
                description: description@,
                auth: auth@,
                hooks: hooks@,
                items: Seq::new(
                    items@.len(),
                    |i: int|
                        if 0 <= i < items@.len() {
                            items@[i].denotes()
                        } else {
                            arbitrary()
                        },
                ),
            },
        }
    }
}

impl View for ImportedItem {
    type V = ItemV;

    open spec fn view(&self) -> ItemV {
        self.denotes()
    }
}

/// How a folder is made of its items.
pub broadcast proof fn lemma_item_view(item: ImportedItem)
    ensures
        #![trigger item@]
        match item {
            ImportedItem::Folder { name, description, auth, hooks, items } => item@ == (ItemV::Folder {
                name: name@,
                description: description@,
                auth: auth@,
                hooks: hooks@,
                items: views(items@),
            }),
            ImportedItem::Request(def) => item@ == ItemV::Request(def@),
        },
{
    if let ImportedItem::Folder { items, .. } = item {
        assert(item@->items =~= views(items@));
    }
}

/// The items that nodes describe, the first `n` of them, and what has to be
/// left out.
pub open spec fn tree_of(nodes: Seq<JsonV>, path: Seq<char>, n: int) -> (Seq<ItemV>, Seq<Seq<char>>)
    decreases nodes, n,
{
    if n <= 0 || n > nodes.len() {
        (seq![], seq![])
    } else {
        let (items, notes) = tree_of(nodes, path, n - 1);
        let node = nodes[n - 1];
        let here = item_path(path, item_name(node));
        match member(node, "item"@) {
            Some(JsonV::Array(children)) => {
                proof {
                    lemma_member_smaller(node, "item"@);
                }
                let (auth, auth_notes) = auth_of(at(node, "auth"@), here);
                let (inner, inner_notes) = tree_of(children, here, children.len() as int);
                (
                    items.push(
                        ItemV::Folder {
                            name: item_name(node),
                            description: description_of(at(node, "description"@)),
                            auth,
                            hooks: hooks_of(node),
                            items: inner,
                        },
                    ),
                    notes + (auth_notes + inner_notes),
                )
            },
            _ => match at(node, "request"@) {
                JsonV::Object(_) | JsonV::String(_) => {
                    let (def, def_notes) = request_of(node, here);
                    (items.push(ItemV::Request(def)), notes + def_notes)
                },
                _ => (items, notes + seq![here + ": unrecognized item, skipped"@]),
            },
        }
    }
}

/// Read the items of a collection or folder. What cannot be mapped is noted.
#[verifier::rlimit(60)]
pub fn parse_items(nodes: &Vec<Json>, path: &str, skipped: &mut Vec<String>) -> (r: Vec<ImportedItem>)
    ensures
        views(r@) == tree_of(views(nodes@), path@, nodes@.len() as int).0,
        views(final(skipped)@) == views(old(skipped)@) + tree_of(views(nodes@), path@, nodes@.len() as int).1,
    decreases views(nodes@),
{
    broadcast use group_views;

    let ghost start = views(skipped@);
    let ghost all = views(nodes@);
    let mut out: Vec<ImportedItem> = Vec::new();
    let mut i: usize = 0;
    assert(start + Seq::<Seq<char>>::empty() =~= start);
    while i < nodes.len()
        invariant
            i <= nodes.len(),
            all == views(nodes@),
            views(out@) == tree_of(all, path@, i as int).0,
            views(skipped@) == start + tree_of(all, path@, i as int).1,
        decreases nodes.len() - i,
    {
        let node = &nodes[i];
        let ghost before = tree_of(all, path@, i as int);
        assert(all[i as int] == node@);
        let name = crate::json::text_or(node.get_str("name"), "Unnamed").to_owned();
        let here = if path.unicode_len() == 0 {
            name.clone()
        } else {
            cat3(path, "/", name.as_str())
        };
        assert(here@ == item_path(path@, item_name(node@)));
        if let Some(children) = node.list("item") {
            proof {
                lemma_member_smaller(node@, "item"@);
                let inner = member(node@, "item"@)->Some_0;
                assert(inner == JsonV::Array(views(children@)));
                assert(decreases_to!(all => all[i as int]));
                assert(decreases_to!(inner => inner->Array_0));
            }
            let ghost notes1 = auth_of(at(node@, "auth"@), here@).1;
            let ghost notes2 = tree_of(views(children@), here@, children@.len() as int).1;
            let auth = auth_at(node, here.as_str(), skipped);
            let hooks = hooks_from_events(node);
            let description = description_at(node, "description");
            let items = parse_items(children, here.as_str(), skipped);
            let folder = ImportedItem::Folder { name, description, auth, hooks, items };
            let ghost list = views(out@);
            let ghost view = folder@;
            proof {
                lemma_item_view(folder);
            }
            out.push(folder);
            assert(views(out@) == list.push(view));
            assert(tree_of(all, path@, i + 1).0 == list.push(view));
            assert(start + before.1 + notes1 + notes2 =~= start + (before.1 + (notes1 + notes2)));
        } else {
            let is_request = match node.get("request") {
                Some(Json::Object(_)) => true,
                Some(Json::String(_)) => true,
                _ => false,
            };
            if is_request {
                let ghost notes = request_of(node@, here@).1;
                let def = parse_request(node, here.as_str(), skipped);
                let item = ImportedItem::Request(Box::new(def));
                let ghost list = views(out@);
                let ghost view = item@;
                proof {
                    lemma_item_view(item);
                }
                out.push(item);
                assert(views(out@) == list.push(view));
                assert(tree_of(all, path@, i + 1).0 == list.push(view));
                assert(start + before.1 + notes =~= start + (before.1 + notes));
            } else {
                skip(skipped, cat2(here.as_str(), ": unrecognized item, skipped"));
                let ghost notes = seq![here@ + ": unrecognized item, skipped"@];
                assert(start + before.1 + notes =~= start + (before.1 + notes));
            }
        }
        i += 1;
    }
    out
}

// ---------------------------------------------------------------------
// Collections and environments
// ---------------------------------------------------------------------

/// Why an import failed.
#[derive(Debug)]
pub enum PostmanError {
    Json(String),
    NotACollection,
    NotAnEnvironment,
}

/// What a [`PostmanError`] says.
pub enum PostmanErrorV {
    Json(Seq<char>),
    NotACollection,
    NotAnEnvironment,
}

impl View for PostmanError {
    type V = PostmanErrorV;

    open spec fn view(&self) -> PostmanErrorV {
        match self {
            PostmanError::Json(e) => PostmanErrorV::Json(e@),
            PostmanError::NotACollection => PostmanErrorV::NotACollection,
            PostmanError::NotAnEnvironment => PostmanErrorV::NotAnEnvironment,
        }
    }
}

impl PostmanError {
    /// The error in words.
    pub fn message(&self) -> (r: String)
        ensures
            r@ == match self@ {
                PostmanErrorV::Json(e) => "invalid JSON: "@ + e,
                PostmanErrorV::NotACollection => "not a Postman collection: missing info.name / item"@,
                PostmanErrorV::NotAnEnvironment => "not a Postman environment: missing name / values"@,
            },
    {
        match self {
            PostmanError::Json(e) => cat2("invalid JSON: ", e.as_str()),
            PostmanError::NotACollection => "not a Postman collection: missing info.name / item".to_owned(),
            PostmanError::NotAnEnvironment => "not a Postman environment: missing name / values".to_owned(),
        }
    }
}

/// A collection that was imported.
#[derive(Debug)]
pub struct ImportedCollection {
    pub name: String,
    pub description: String,
    pub variables: TextMap<String>,
    pub auth: AuthConfig,
    pub hooks: SuiteHooks,
    pub items: Vec<ImportedItem>,
    /// What was left out.
    pub skipped: Vec<String>,
}

/// What an [`ImportedCollection`] holds.
pub struct ImportV {
    pub name: Seq<char>,
    pub description: Seq<char>,
    pub variables: Seq<(Seq<char>, Seq<char>)>,
    pub auth: AuthV,
    pub hooks: HooksDefV,
    pub items: Seq<ItemV>,
    pub skipped: Seq<Seq<char>>,
}

impl View for ImportedCollection {
    type V = ImportV;

    open spec fn view(&self) -> ImportV {
        ImportV {
            name: self.name@,
            description: self.description@,
            variables: self.variables@,
            auth: self.auth@,
            hooks: self.hooks@,
            items: views(self.items@),
            skipped: views(self.skipped@),
        }
    }
}

/// The number of requests among the first `n` items and in their folders.
pub open spec fn requests_in(items: Seq<ItemV>, n: int) -> nat
    decreases items, n,
{
    if n <= 0 || n > items.len() {
        0
    } else {
        requests_in(items, n - 1) + match items[n - 1] {
            ItemV::Request(_) => 1,
            ItemV::Folder { items: inner, .. } => requests_in(inner, inner.len() as int),
        }
    }
}

proof fn lemma_requests_grow(items: Seq<ItemV>, n: int)
    requires
        0 <= n <= items.len(),
    ensures
        requests_in(items, n) <= requests_in(items, items.len() as int),
    decreases items.len() - n,
{
    if n < items.len() {
        lemma_requests_grow(items, n + 1);
    }
}

fn count_requests(items: &Vec<ImportedItem>) -> (r: usize)
    requires
        requests_in(views(items@), items@.len() as int) <= usize::MAX,
    ensures
        r == requests_in(views(items@), items@.len() as int),
    decreases views(items@),
{

    let ghost all = views(items@);
    let mut total: usize = 0;
    let mut i: usize = 0;
    while i < items.len()
        invariant
            i <= items.len(),
            all == views(items@),
            requests_in(all, all.len() as int) <= usize::MAX,
            total == requests_in(all, i as int),
        decreases items.len() - i,
    {
        assert(all[i as int] == items@[i as int]@);
        proof {
            lemma_requests_grow(all, i + 1);
            lemma_item_view(items@[i as int]);
        }
        match &items[i] {
            ImportedItem::Request(_) => {
                total += 1;
            },
            ImportedItem::Folder { items: inner, .. } => {
                proof {
                    assert(decreases_to!(all => all[i as int]));
                    assert(decreases_to!(all[i as int] => all[i as int]->items));
                    assert(all[i as int]->items == views(inner@));
                }
                total += count_requests(inner);
            },
        }
        i += 1;
    }
    total
}

impl ImportedCollection {
    /// The number of requests in the whole tree. There are no more of them
    /// than fit in memory.
    pub fn request_count(&self) -> (r: usize)
        requires
            requests_in(self@.items, self@.items.len() as int) <= usize::MAX,
        ensures
            r == requests_in(self@.items, self@.items.len() as int),
    {
        count_requests(&self.items)
    }
}

/// The collection that a value describes.
pub open spec fn collection_of(root: JsonV) -> Result<ImportV, PostmanErrorV> {
    let info = at(root, "info"@);
    let name = text_at(info, "name"@);
    match items_in(member(root, "item"@)) {
        None => Err(PostmanErrorV::NotACollection),
        Some(nodes) => if name.len() == 0 {
            Err(PostmanErrorV::NotACollection)
        } else {
            let (items, notes) = tree_of(nodes, seq![], nodes.len() as int);
            let (auth, auth_notes) = auth_of(at(root, "auth"@), "collection"@);
            Ok(
                ImportV {
                    name,
                    description: description_of(at(info, "description"@)),
                    variables: row_params(items_at(root, "variable"@)),
                    auth,
                    hooks: hooks_of(root),
                    items,
                    skipped: notes + auth_notes,
                },
            )
        },
    }
}

/// An import by the views of its two sides.
pub open spec fn import_view(r: Result<ImportedCollection, PostmanError>) -> Result<ImportV, PostmanErrorV> {
    match r {
        Ok(c) => Ok(c@),
        Err(e) => Err(e@),
    }
}

/// Read a collection from its JSON value.
pub fn import_collection(root: &Json) -> (r: Result<ImportedCollection, PostmanError>)
    ensures
        import_view(r) == collection_of(root@),
{
    broadcast use group_views;

    let null = Json::Null;
    let info = member_or_null(root, "info", &null);
    let name = info.text("name");
    let nodes = match root.list("item") {
        None => {
            return Err(PostmanError::NotACollection);
        },
        Some(nodes) => nodes,
    };
    if name.as_str().unicode_len() == 0 {
        return Err(PostmanError::NotACollection);
    }
    let mut skipped: Vec<String> = Vec::new();
    let hooks = hooks_from_events(root);
    proof {
        reveal_strlit("");
        assert(""@ =~= Seq::<char>::empty());
    }
    let items = parse_items(nodes, "", &mut skipped);
    let ghost notes = tree_of(views(nodes@), seq![], nodes@.len() as int).1;
    let mut variables: TextMap<String> = TextMap::new();
    if let Some(v) = root.get("variable") {
        if v.as_array().is_some() {
            variables = auth_params(v);
        }
    }
    let auth = auth_at(root, "collection", &mut skipped);
    let ghost auth_notes = auth_of(at(root@, "auth"@), "collection"@).1;
    assert(views(skipped@) =~= notes + auth_notes);
    Ok(
        ImportedCollection {
            name,
            description: description_at(info, "description"),
            variables,
            auth,
            hooks,
            items,
            skipped,
        },
    )
}

/// Parse a Postman collection.
pub fn parse_postman(text: &str) -> (r: Result<ImportedCollection, PostmanError>)
    ensures
        import_view(r) == match json_parse(text@) {
            Err(e) => Err(PostmanErrorV::Json(e)),
            Ok(root) => collection_of(root),
        },
{
    match parse(text) {
        Err(e) => Err(PostmanError::Json(e)),
        Ok(root) => import_collection(&root),
    }
}

/// The variables of an environment and the values of its secrets. Disabled
/// variables come too.
pub open spec fn env_rows(rows: Seq<JsonV>) -> (Seq<(Seq<char>, EnvVarV)>, Seq<(Seq<char>, Seq<char>)>)
    decreases rows.len(),
{
    if rows.len() == 0 {
        (seq![], seq![])
    } else {
        let (vars, secrets) = env_rows(rows.drop_last());
        let row = rows.last();
        let value = value_text(at(row, "value"@));
        match text_member(row, "key"@) {
            None => (vars, secrets),
            Some(key) => if text_member(row, "type"@) == Some("secret"@) {
                (
                    put(vars, key, EnvVarV { value: None, secret: true }),
                    if value.len() > 0 {
                        put(secrets, key, value)
                    } else {
                        secrets
                    },
                )
            } else {
                (put(vars, key, EnvVarV { value: Some(value), secret: false }), secrets)
            },
        }
    }
}

/// The environment that a value describes, and the values of its secrets.
pub open spec fn environment_of(root: JsonV) -> Result<
    (EnvironmentV, Seq<(Seq<char>, Seq<char>)>),
    PostmanErrorV,
> {
    let name = text_at(root, "name"@);
    match items_in(member(root, "values"@)) {
        None => Err(PostmanErrorV::NotAnEnvironment),
        Some(rows) => if name.len() == 0 {
            Err(PostmanErrorV::NotAnEnvironment)
        } else {
            let (variables, secrets) = env_rows(rows);
            Ok((EnvironmentV { name, variables }, secrets))
        },
    }
}

/// An environment by the views of its parts.
pub open spec fn environment_view(r: Result<(Environment, TextMap<String>), PostmanError>) -> Result<
    (EnvironmentV, Seq<(Seq<char>, Seq<char>)>),
    PostmanErrorV,
> {
    match r {
        Ok((env, secrets)) => Ok((env@, secrets@)),
        Err(e) => Err(e@),
    }
}

/// Read an environment from its JSON value.
pub fn import_environment(root: &Json) -> (r: Result<(Environment, TextMap<String>), PostmanError>)
    ensures
        environment_view(r) == environment_of(root@),
{
    let name = root.text("name");
    let rows = match root.list("values") {
        None => {
            return Err(PostmanError::NotAnEnvironment);
        },
        Some(rows) => rows,
    };
    if name.as_str().unicode_len() == 0 {
        return Err(PostmanError::NotAnEnvironment);
    }
    let ghost all = views(rows@);
    let mut env = Environment::new(name.as_str());
    let mut secrets: TextMap<String> = TextMap::new();
    let mut i: usize = 0;
    assert(all.take(0) =~= Seq::<JsonV>::empty());
    while i < rows.len()
        invariant
            i <= rows.len(),
            all == views(rows@),
            env@ == (EnvironmentV { name: name@, variables: env_rows(all.take(i as int)).0 }),
            secrets@ == env_rows(all.take(i as int)).1,
        decreases rows.len() - i,
    {
        assert(all.take(i + 1).drop_last() =~= all.take(i as int));
        assert(all.take(i + 1).last() == rows@[i as int]@);
        let row = &rows[i];
        if let Some(key) = row.get_str("key") {
            let value = value_at(row, "value");
            let is_secret = match row.get_str("type") {
                Some(t) => same(t, "secret"),
                None => false,
            };
            if is_secret {
                let _ = env.variables.insert(key.to_owned(), EnvVar::secret());
                if value.as_str().unicode_len() > 0 {
                    let _ = secrets.insert(key.to_owned(), value);
                }
            } else {
                let _ = env.variables.insert(key.to_owned(), EnvVar::plain(value));
            }
        }
        i += 1;
    }
    assert(all.take(i as int) =~= all);
    Ok((env, secrets))
}

/// Parse a Postman environment. Secrets are declared without a value; their
/// values come apart.
pub fn parse_postman_environment(text: &str) -> (r: Result<(Environment, TextMap<String>), PostmanError>)
    ensures
        environment_view(r) == match json_parse(text@) {
            Err(e) => Err(PostmanErrorV::Json(e)),
            Ok(root) => environment_of(root),
        },
{
    match parse(text) {
        Err(e) => Err(PostmanError::Json(e)),
        Ok(root) => import_environment(&root),
    }
}

// ---------------------------------------------------------------------
// Laws
// ---------------------------------------------------------------------

/// No imported environment holds the value of a secret.
pub proof fn lemma_secrets_stay_out(rows: Seq<JsonV>, i: int)
    requires
        0 <= i < env_rows(rows).0.len(),
    ensures
        env_rows(rows).0[i].1.secret ==> env_rows(rows).0[i].1.value is None,
    decreases rows.len(),
{
    if rows.len() > 0 {
        let (vars, _) = env_rows(rows.drop_last());
        let row = rows.last();
        if let Some(key) = text_member(row, "key"@) {
            let var = if text_member(row, "type"@) == Some("secret"@) {
                EnvVarV { value: None, secret: true }
            } else {
                EnvVarV { value: Some(value_text(at(row, "value"@))), secret: false }
            };
            crate::map::lemma_put_members(vars, key, var, i);
            let pair = put(vars, key, var)[i];
            if pair != (key, var) {
                let j = choose|j: int| 0 <= j < vars.len() && vars[j] == pair;
                lemma_secrets_stay_out(rows.drop_last(), j);
            }
        } else {
            lemma_secrets_stay_out(rows.drop_last(), i);
        }
    }
}

/// A node that becomes a folder or a request.
pub open spec fn recognized(node: JsonV) -> bool {
    member(node, "item"@) matches Some(JsonV::Array(_)) || at(node, "request"@) is Object || at(node, "request"@) is String
}

/// The note on a node that becomes neither.
pub open spec fn skip_note(node: JsonV, path: Seq<char>) -> Seq<char> {
    item_path(path, item_name(node)) + ": unrecognized item, skipped"@
}

/// Nothing is dropped in silence: a node becomes a folder or a request, or is
/// noted, and what becomes one keeps its place in the order.
pub proof fn lemma_nothing_is_dropped_silently(nodes: Seq<JsonV>, path: Seq<char>, n: int)
    requires
        0 <= n <= nodes.len(),
    ensures
        tree_of(nodes, path, n).0.len() == nodes.take(n).filter(|node: JsonV| recognized(node)).len(),
        forall|i: int|
            0 <= i < n && !recognized(#[trigger] nodes[i]) ==> tree_of(nodes, path, n).1.contains(
                skip_note(nodes[i], path),
            ),
    decreases n,
{
    reveal(Seq::filter);
    if n > 0 {
        lemma_nothing_is_dropped_silently(nodes, path, n - 1);
        assert(nodes.take(n).drop_last() =~= nodes.take(n - 1));
        let before = tree_of(nodes, path, n - 1).1;
        let after = tree_of(nodes, path, n).1;
        let added = after.skip(before.len() as int);
        assert(after =~= before + added);
        assert forall|i: int| 0 <= i < n && !recognized(#[trigger] nodes[i]) implies after.contains(
            skip_note(nodes[i], path),
        ) by {
            let note = skip_note(nodes[i], path);
            if i < n - 1 {
                let k = choose|k: int| 0 <= k < before.len() && before[k] == note;
                assert(after[k] == note);
            } else {
                assert(after == before + seq![note]);
                assert(after[before.len() as int] == note);
            }
        }
    }
}

/// A node that becomes a request.
pub open spec fn is_request(node: JsonV) -> bool {
    !(member(node, "item"@) matches Some(JsonV::Array(_))) && (at(node, "request"@) is Object || at(node, "request"@) is String)
}

/// Saved example responses of a request are noted, in whichever form the
/// request is written.
pub proof fn lemma_saved_examples_are_noted(nodes: Seq<JsonV>, path: Seq<char>, n: int, i: int)
    requires
        0 <= i < n <= nodes.len(),
        is_request(nodes[i]),
        items_at(nodes[i], "response"@).len() > 0,
    ensures
        tree_of(nodes, path, n).1.contains(
            item_path(path, item_name(nodes[i])) + ": saved example responses not imported"@,
        ),
    decreases n,
{
    let note = item_path(path, item_name(nodes[i])) + ": saved example responses not imported"@;
    let before = tree_of(nodes, path, n - 1).1;
    let after = tree_of(nodes, path, n).1;
    let added = after.skip(before.len() as int);
    assert(after =~= before + added);
    if i < n - 1 {
        lemma_saved_examples_are_noted(nodes, path, n - 1, i);
        let k = choose|k: int| 0 <= k < before.len() && before[k] == note;
        assert(after[k] == note);
    } else {
        let notes = request_of(nodes[i], item_path(path, item_name(nodes[i]))).1;
        assert(notes.last() == note);
        assert(after == before + notes);
        assert(after[after.len() - 1] == note);
    }
}

} // verus!
