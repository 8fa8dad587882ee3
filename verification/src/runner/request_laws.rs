//! What holds of a request that is made ready to send, over what is stored.

use vstd::prelude::*;
use vstd::utf8::encode_utf8;

use crate::exec::{ExecBodyV, PartDataV, PartV};
use crate::json::{json_parse, member, printed, JsonV};
use crate::map::lookup;
use crate::model::auth::{ApiKeyPlacement, AuthV};
use crate::model::body::{BodyDefV, ContentV, MultipartV, RawLanguage, RowV};
use crate::model::request::{ParamKind, ParamV, RequestDefV};
use crate::model::workspace::SettingsV;
use crate::reqv1::pipeline::base64_text;
use crate::selection::{lemma_picks_more, lemma_picks_none, picks};
use crate::text::{first_at, is_digit, is_letter, lemma_first_at, occurs_at, same_ignoring_case};
use crate::vars::{expanded, LayerV};
use crate::words::{joined, lemma_split_joined, percent_bytes, trimmed};

use super::resolve::{
    address_ready, auth_additions, auth_in_force, body_ready, file_name, graphql_payload, headers_ready, joined_path,
    names_pair, parts_ready, path_param, path_ready, query_ready, query_rows, request_ready, rows_ready, segment_ready,
    segments_ready, url_extended, url_parsed, url_appended, with_missing, with_scheme, AdditionsV, OutsideV, ResolveErrorV,
};

verus! {

broadcast use vstd::string::group_string_axioms;

// ---------------------------------------------------------------------
// Rows
// ---------------------------------------------------------------------

/// The pairs have one entry for each row that is enabled and has a key, in the
/// order of the rows: the key, and the value with its variables filled in.
pub open spec fn pairs_come_of(rows: Seq<RowV>, layers: Seq<LayerV>, out: Seq<(Seq<char>, Seq<char>)>) -> bool {
    picks(
        rows,
        |row: RowV| row.enabled && row.key.len() > 0,
        |row: RowV, pair: (Seq<char>, Seq<char>)| pair.0 == row.key && expanded(row.value, layers) == Ok::<
            Seq<char>,
            Seq<char>,
        >(pair.1),
        out,
    )
}

proof fn lemma_rows_prefix(rows: Seq<RowV>, layers: Seq<LayerV>, n: int)
    requires
        0 <= n <= rows.len(),
    ensures
        match rows_ready(rows, layers, n) {
            Ok(out) => pairs_come_of(rows.take(n), layers, out),
            Err(e) => exists|i: int|
                0 <= i < n && (#[trigger] rows[i]).enabled && rows[i].key.len() > 0 && (expanded(rows[i].value, layers)
                    matches Err(name) && e == ResolveErrorV::Interpolate(name)),
        },
    decreases n,
{
    let keep = |row: RowV| row.enabled && row.key.len() > 0;
    let fits = |row: RowV, pair: (Seq<char>, Seq<char>)|
        pair.0 == row.key && expanded(row.value, layers) == Ok::<Seq<char>, Seq<char>>(pair.1);
    if n == 0 {
        lemma_picks_none(rows.take(0), keep, fits, seq![]);
    } else {
        lemma_rows_prefix(rows, layers, n - 1);
        assert(rows.take(n).drop_last() =~= rows.take(n - 1));
        assert(rows.take(n).last() == rows[n - 1]);
        if let Ok(before) = rows_ready(rows, layers, n - 1) {
            if let Ok(out) = rows_ready(rows, layers, n) {
                if keep(rows[n - 1]) {
                    assert(out.drop_last() =~= before);
                }
                lemma_picks_more(rows.take(n), keep, fits, before, out);
            } else {
                assert(rows[n - 1].enabled);
            }
        }
    }
}

/// Of the rows exactly those count that are enabled and have a key, and each
/// has its own value filled in. The error is that of a row that counts.
pub proof fn lemma_rows_are_those_enabled(rows: Seq<RowV>, layers: Seq<LayerV>)
    ensures
        match rows_ready(rows, layers, rows.len() as int) {
            Ok(out) => pairs_come_of(rows, layers, out),
            Err(e) => exists|i: int|
                0 <= i < rows.len() && (#[trigger] rows[i]).enabled && rows[i].key.len() > 0 && (expanded(
                    rows[i].value,
                    layers,
                ) matches Err(name) && e == ResolveErrorV::Interpolate(name)),
        },
{
    lemma_rows_prefix(rows, layers, rows.len() as int);
    assert(rows.take(rows.len() as int) =~= rows);
}

// ---------------------------------------------------------------------
// Auth
// ---------------------------------------------------------------------

/// The auth of a request is its own, unless it is left to the parent; then it is
/// that of the nearest ancestor that does not leave it to its own parent. Where
/// all of them do, there is none.
pub proof fn lemma_nearest_auth_is_in_force(own: AuthV, chain: Seq<AuthV>)
    ensures
        !(own is Inherit) ==> auth_in_force(own, chain) == Some(own),
        forall|i: int|
            own is Inherit && 0 <= i < chain.len() && !((#[trigger] chain[i]) is Inherit) && (forall|j: int|
                0 <= j < i ==> (#[trigger] chain[j]) is Inherit) ==> auth_in_force(own, chain) == Some(chain[i]),
        own is Inherit && (forall|j: int| 0 <= j < chain.len() ==> (#[trigger] chain[j]) is Inherit) ==> auth_in_force(
            own,
            chain,
        ) is None,
    decreases chain.len(),
{
    if own is Inherit && chain.len() > 0 {
        let rest = chain.skip(1);
        lemma_nearest_auth_is_in_force(chain[0], rest);
        assert forall|i: int|
            0 <= i < chain.len() && !((#[trigger] chain[i]) is Inherit) && (forall|j: int|
                0 <= j < i ==> (#[trigger] chain[j]) is Inherit) implies auth_in_force(own, chain) == Some(chain[i]) by {
            if i > 0 {
                assert(chain[0] is Inherit);
                assert(rest[i - 1] == chain[i]);
                assert forall|j: int| 0 <= j < i - 1 implies (#[trigger] rest[j]) is Inherit by {
                    assert(rest[j] == chain[j + 1]);
                }
            }
        }
        if forall|j: int| 0 <= j < chain.len() ==> (#[trigger] chain[j]) is Inherit {
            assert(chain[0] is Inherit);
            assert forall|j: int| 0 <= j < rest.len() implies (#[trigger] rest[j]) is Inherit by {
                assert(rest[j] == chain[j + 1]);
            }
        }
    }
}

/// A header called `Authorization` and nothing else.
pub open spec fn authorizes(a: AdditionsV, value: Seq<char>) -> bool {
    a.query.len() == 0 && a.headers.len() == 1 && a.headers[0].0 == "Authorization"@ && a.headers[0].1 == value
}

/// What each kind of auth adds: a name and its password in base64, a token
/// behind its prefix, a key where it belongs, or the token that was fetched. No
/// auth, and auth that is switched off, add nothing.
pub proof fn lemma_auth_adds_what_its_kind_says(auth: AuthV, layers: Seq<LayerV>, outside: OutsideV)
    ensures
        auth_additions(None, layers, outside) matches Ok(a) && a.headers.len() == 0 && a.query.len() == 0,
        (auth is Inherit || auth is NoAuth || auth is Digest || auth is Ntlm || auth is AwsSigV4) ==> (auth_additions(Some(auth), layers, outside) matches Ok(a) && a.headers.len()
            == 0 && a.query.len() == 0),
        auth matches AuthV::Basic { username, password } ==> match (expanded(username, layers), expanded(password, layers)) {
            (Ok(u), Ok(p)) => auth_additions(Some(auth), layers, outside) matches Ok(a) && authorizes(
                a,
                "Basic "@ + base64_text(encode_utf8(u + ":"@ + p)),
            ),
            (Err(name), _) => auth_additions(Some(auth), layers, outside) == Err::<AdditionsV, ResolveErrorV>(
                ResolveErrorV::Interpolate(name),
            ),
            (_, Err(name)) => auth_additions(Some(auth), layers, outside) == Err::<AdditionsV, ResolveErrorV>(
                ResolveErrorV::Interpolate(name),
            ),
        },
        auth matches AuthV::Bearer { token, prefix } ==> match (
            expanded(token, layers),
            match prefix {
                Some(p) => expanded(p, layers),
                None => Ok("Bearer"@),
            },
        ) {
            (Ok(t), Ok(p)) => auth_additions(Some(auth), layers, outside) matches Ok(a) && authorizes(a, p + " "@ + t),
            (Err(name), _) => auth_additions(Some(auth), layers, outside) == Err::<AdditionsV, ResolveErrorV>(
                ResolveErrorV::Interpolate(name),
            ),
            (_, Err(name)) => auth_additions(Some(auth), layers, outside) == Err::<AdditionsV, ResolveErrorV>(
                ResolveErrorV::Interpolate(name),
            ),
        },
        auth matches AuthV::ApiKey { key, value, placement } ==> match (expanded(key, layers), expanded(value, layers)) {
            (Ok(k), Ok(v)) => auth_additions(Some(auth), layers, outside) matches Ok(a) && if placement
                == ApiKeyPlacement::Header {
                a.headers == seq![(k, v)] && a.query.len() == 0
            } else {
                a.query == seq![(k, v)] && a.headers.len() == 0
            },
            (Err(name), _) => auth_additions(Some(auth), layers, outside) == Err::<AdditionsV, ResolveErrorV>(
                ResolveErrorV::Interpolate(name),
            ),
            (_, Err(name)) => auth_additions(Some(auth), layers, outside) == Err::<AdditionsV, ResolveErrorV>(
                ResolveErrorV::Interpolate(name),
            ),
        },
        auth matches AuthV::OAuth2ClientCredentials { token_url, client_id, client_secret, .. } ==> (expanded(
            token_url,
            layers,
        ) is Ok && expanded(client_id, layers) is Ok && expanded(client_secret, layers) is Ok ==> match outside.token {
            Some(Ok((kind, token))) => auth_additions(Some(auth), layers, outside) matches Ok(a) && authorizes(
                a,
                kind + " "@ + token,
            ),
            Some(Err(e)) => auth_additions(Some(auth), layers, outside) == Err::<AdditionsV, ResolveErrorV>(
                ResolveErrorV::Exec(e),
            ),
            None => auth_additions(Some(auth), layers, outside) is Err,
        }),
        auth matches AuthV::OAuth2ClientCredentials { token_url, client_id, client_secret, .. } ==> (expanded(
            token_url,
            layers,
        ) is Err || expanded(client_id, layers) is Err || expanded(client_secret, layers) is Err ==> (auth_additions(
            Some(auth),
            layers,
            outside,
        ) matches Err(e) && e is Interpolate)),
        auth is OAuth2AuthCode ==> (auth_additions(Some(auth), layers, outside) matches Err(e) && e is Auth),
{
}

// ---------------------------------------------------------------------
// The URL
// ---------------------------------------------------------------------

/// The parameter of a path segment is the first of those for the path that is
/// enabled and has that name.
pub proof fn lemma_first_path_parameter_counts(params: Seq<ParamV>, name: Seq<char>)
    requires
        name.len() > 0,
    ensures
        match path_param(params, name) {
            Some(p) => exists|i: int|
                0 <= i < params.len() && #[trigger] params[i] == p && p.kind == ParamKind::Path && p.kv.enabled && p.kv.key
                    == name && forall|j: int|
                    0 <= j < i ==> !((#[trigger] params[j]).kind == ParamKind::Path && params[j].kv.enabled
                        && params[j].kv.key == name),
            None => forall|j: int|
                0 <= j < params.len() ==> !((#[trigger] params[j]).kind == ParamKind::Path && params[j].kv.enabled
                    && params[j].kv.key == name),
        },
    decreases params.len(),
{
    if params.len() > 0 {
        let rest = params.skip(1);
        let first = params[0];
        if first.kind == ParamKind::Path && first.kv.enabled && first.kv.key == name {
            assert(params[0] == first);
        } else {
            lemma_first_path_parameter_counts(rest, name);
            if let Some(p) = path_param(rest, name) {
                let i = choose|i: int|
                    0 <= i < rest.len() && #[trigger] rest[i] == p && p.kind == ParamKind::Path && p.kv.enabled
                        && p.kv.key == name && forall|j: int|
                        0 <= j < i ==> !((#[trigger] rest[j]).kind == ParamKind::Path && rest[j].kv.enabled
                            && rest[j].kv.key == name);
                assert(params[i + 1] == p);
                assert forall|j: int| 0 <= j < i + 1 implies !((#[trigger] params[j]).kind == ParamKind::Path
                    && params[j].kv.enabled && params[j].kv.key == name) by {
                    if j > 0 {
                        assert(rest[j - 1] == params[j]);
                    }
                }
            } else {
                assert forall|j: int| 0 <= j < params.len() implies !((#[trigger] params[j]).kind == ParamKind::Path
                    && params[j].kv.enabled && params[j].kv.key == name) by {
                    if j > 0 {
                        assert(rest[j - 1] == params[j]);
                    }
                }
            }
        }
    }
}

/// A path segment `:name` becomes the value of its parameter, percent-encoded;
/// every other segment stays as it is.
pub proof fn lemma_segment_becomes_its_value(name: Seq<char>, segment: Seq<char>, params: Seq<ParamV>, layers: Seq<LayerV>)
    ensures
        path_param(params, name) matches Some(p) ==> match expanded(p.kv.value, layers) {
            Ok(v) => segment_ready(":"@ + name, params, layers) == Ok::<Seq<char>, ResolveErrorV>(
                percent_bytes(encode_utf8(v)),
            ),
            Err(n) => segment_ready(":"@ + name, params, layers) == Err::<Seq<char>, ResolveErrorV>(
                ResolveErrorV::Interpolate(n),
            ),
        },
        path_param(params, name) is None ==> segment_ready(":"@ + name, params, layers) == Ok::<Seq<char>, ResolveErrorV>(
            ":"@ + name,
        ),
        (segment.len() == 0 || segment[0] != ':') ==> segment_ready(segment, params, layers) == Ok::<
            Seq<char>,
            ResolveErrorV,
        >(segment),
{
    reveal_strlit(":");
    assert((":"@ + name).skip(1) =~= name);
}

proof fn lemma_segments(segments: Seq<Seq<char>>, params: Seq<ParamV>, layers: Seq<LayerV>, n: int)
    requires
        0 <= n <= segments.len(),
    ensures
        match segments_ready(segments, params, layers, n) {
            Ok(out) => out.len() == n && forall|i: int|
                0 <= i < n ==> segment_ready(#[trigger] segments[i], params, layers) == Ok::<Seq<char>, ResolveErrorV>(
                    out[i],
                ),
            Err(e) => exists|i: int|
                0 <= i < n && segment_ready(#[trigger] segments[i], params, layers) == Err::<Seq<char>, ResolveErrorV>(e),
        },
    decreases n,
{
    if n > 0 {
        lemma_segments(segments, params, layers, n - 1);
        if segments_ready(segments, params, layers, n - 1) is Ok {
            if let Err(e) = segment_ready(segments[n - 1], params, layers) {
                assert(segment_ready(segments[n - 1], params, layers) == Err::<Seq<char>, ResolveErrorV>(e));
            }
        }
    }
}

/// Path parameters are put in segment by segment, between the same slashes, and
/// the query stays as it is.
pub proof fn lemma_path_is_filled_in_by_segments(
    segments: Seq<Seq<char>>,
    query: Seq<char>,
    params: Seq<ParamV>,
    layers: Seq<LayerV>,
)
    requires
        segments.len() > 0,
        forall|i: int|
            0 <= i < segments.len() ==> !(#[trigger] segments[i]).contains('/') && !segments[i].contains('?'),
        query.len() > 0 ==> query[0] == '?',
    ensures
        match path_ready(joined(segments, "/"@) + query, params, layers) {
            Ok(out) => exists|parts: Seq<Seq<char>>|
                parts.len() == segments.len() && out == #[trigger] joined(parts, "/"@) + query && forall|i: int|
                    0 <= i < segments.len() ==> segment_ready(#[trigger] segments[i], params, layers) == Ok::<
                        Seq<char>,
                        ResolveErrorV,
                    >(parts[i]),
            Err(e) => exists|i: int|
                0 <= i < segments.len() && segment_ready(#[trigger] segments[i], params, layers) == Err::<
                    Seq<char>,
                    ResolveErrorV,
                >(e),
        },
{
    let path = joined(segments, "/"@);
    let url = path + query;
    lemma_joined_free(segments);
    reveal_strlit("/");
    assert("/"@ =~= seq!['/']);
    lemma_split_joined(segments, '/');
    lemma_segments(segments, params, layers, segments.len() as int);
    reveal_strlit("?");
    lemma_first_at(url, "?"@, 0);
    if query.len() > 0 {
        assert(url.subrange(path.len() as int, path.len() as int + 1) =~= "?"@);
        assert(occurs_at(url, "?"@, path.len() as int));
    }
    if let Some(k) = first_at(url, "?"@, 0) {
        assert(url.subrange(k, k + 1)[0] == '?');
        if k < path.len() {
            assert(path.contains(path[k]));
        } else if query.len() == 0 {
            assert(k + 1 <= url.len());
        }
        assert(k == path.len());
        assert(url.take(k) =~= path);
        assert(url.skip(k) =~= query);
    } else {
        assert(query.len() == 0);
        assert(url =~= path);
        assert(query =~= Seq::empty());
    }
    if let Ok(parts) = segments_ready(segments, params, layers, segments.len() as int) {
        assert(path_ready(url, params, layers) == Ok::<Seq<char>, ResolveErrorV>(joined(parts, "/"@) + query));
    }
}

proof fn lemma_joined_free(parts: Seq<Seq<char>>)
    requires
        forall|i: int| 0 <= i < parts.len() ==> !(#[trigger] parts[i]).contains('?'),
    ensures
        !joined(parts, "/"@).contains('?'),
    decreases parts.len(),
{
    reveal_strlit("/");
    if parts.len() == 1 {
        assert(!parts[0].contains('?'));
    } else if parts.len() > 1 {
        lemma_joined_free(parts.drop_last());
        let a = joined(parts.drop_last(), "/"@);
        let b = parts.last();
        assert(!parts[parts.len() - 1].contains('?'));
        assert forall|i: int| 0 <= i < (a + "/"@ + b).len() implies (a + "/"@ + b)[i] != '?' by {
            if i < a.len() {
                assert(a.contains(a[i]));
            } else if i > a.len() {
                assert(b.contains(b[i - a.len() - 1]));
            }
        }
    }
}

/// A URL with a scheme keeps it; one without a scheme is one of `https`.
pub proof fn lemma_scheme_is_kept_or_https(scheme: Seq<char>, rest: Seq<char>, url: Seq<char>)
    ensures
        scheme.len() > 0 && is_letter(scheme[0]) && (forall|i: int|
            0 <= i < scheme.len() ==> is_letter(#[trigger] scheme[i]) || is_digit(scheme[i]) || scheme[i] == '+'
                || scheme[i] == '.' || scheme[i] == '-') ==> with_scheme(scheme + "://"@ + rest) == scheme + "://"@
            + rest,
        (forall|k: int| !#[trigger] occurs_at(url, "://"@, k)) ==> with_scheme(url) == "https://"@ + url,
        (url.len() == 0 || !is_letter(url[0])) ==> with_scheme(url) == "https://"@ + url,
        (scheme.contains('/') || scheme.contains('?') || scheme.contains(':') || scheme.contains('#')) && (forall|k: int|
            0 <= k < scheme.len() ==> !#[trigger] occurs_at(scheme + "://"@ + rest, "://"@, k)) ==> with_scheme(
            scheme + "://"@ + rest,
        ) == "https://"@ + (scheme + "://"@ + rest),
{
    reveal_strlit("://");
    let whole = scheme + "://"@ + rest;
    let n = scheme.len() as int;
    assert(whole.subrange(n, n + 3) =~= "://"@);
    assert(occurs_at(whole, "://"@, n));
    lemma_first_at(whole, "://"@, 0);
    lemma_first_at(url, "://"@, 0);
    if scheme.len() > 0 && is_letter(scheme[0]) && (forall|i: int|
        0 <= i < scheme.len() ==> is_letter(#[trigger] scheme[i]) || is_digit(scheme[i]) || scheme[i] == '+' || scheme[i]
            == '.' || scheme[i] == '-') {
        let k = first_at(whole, "://"@, 0)->Some_0;
        assert(whole.subrange(k, k + 3)[0] == ':');
        if k < n {
            assert(whole[k] == scheme[k]);
        }
        assert forall|i: int| 1 <= i < n implies super::resolve::scheme_char(#[trigger] whole[i]) by {
            assert(whole[i] == scheme[i]);
        }
    }
    if (scheme.contains('/') || scheme.contains('?') || scheme.contains(':') || scheme.contains('#')) && (forall|k: int|
        0 <= k < scheme.len() ==> !#[trigger] occurs_at(whole, "://"@, k)) {
        let i = choose|i: int|
            0 <= i < scheme.len() && ((#[trigger] scheme[i]) == '/' || scheme[i] == '?' || scheme[i] == ':' || scheme[i]
                == '#');
        assert(whole[i] == scheme[i]);
        assert(first_at(whole, "://"@, 0) == Some(n));
        assert(!super::resolve::scheme_char(whole[i]));
        assert(!is_letter(whole[i]));
    }
}

/// The query parameters are those of that kind, in their order.
pub proof fn lemma_query_rows_are_those_of_the_query(params: Seq<ParamV>)
    ensures
        picks(params, |p: ParamV| p.kind == ParamKind::Query, |p: ParamV, row: RowV| row == p.kv, query_rows(params)),
    decreases params.len(),
{
    let keep = |p: ParamV| p.kind == ParamKind::Query;
    let fits = |p: ParamV, row: RowV| row == p.kv;
    if params.len() == 0 {
        lemma_picks_none(params, keep, fits, query_rows(params));
    } else {
        lemma_query_rows_are_those_of_the_query(params.drop_last());
        if keep(params.last()) {
            assert(query_rows(params).drop_last() =~= query_rows(params.drop_last()));
        }
        lemma_picks_more(params, keep, fits, query_rows(params.drop_last()), query_rows(params));
    }
}

/// Pairs are appended to a URL one by one, in their order.
pub proof fn lemma_pairs_are_appended_in_order(
    url: Seq<char>,
    pairs: Seq<(Seq<char>, Seq<char>)>,
    name: Seq<char>,
    value: Seq<char>,
)
    ensures
        url_extended(url, seq![]) == url,
        url_extended(url, pairs.push((name, value))) == url_appended(url_extended(url, pairs), name, value),
{
    assert(pairs.push((name, value)).drop_last() =~= pairs);
}

/// A parameter that auth adds, and that neither the request nor its URL names,
/// is among those appended.
pub proof fn lemma_auth_parameter_is_appended(
    own: Seq<(Seq<char>, Seq<char>)>,
    present: Seq<(Seq<char>, Seq<char>)>,
    name: Seq<char>,
    value: Seq<char>,
)
    ensures
        query_ready(own, seq![], present) == own,
        names_pair(own, name) || names_pair(present, name) ==> query_ready(own, seq![(name, value)], present) == own,
        !names_pair(own, name) && !names_pair(present, name) ==> query_ready(own, seq![(name, value)], present)
            == own.push((name, value)),
{
    assert(seq![(name, value)].drop_last() =~= Seq::empty());
    assert(query_ready(own, seq![(name, value)].drop_last(), present) == own);
}

// ---------------------------------------------------------------------
// Headers
// ---------------------------------------------------------------------

/// A header is among those of a request under any spelling of its name.
pub open spec fn sets(headers: Seq<(Seq<char>, Seq<char>)>, name: Seq<char>) -> bool {
    exists|i: int| 0 <= i < headers.len() && same_ignoring_case((#[trigger] headers[i]).0, name)
}

/// A request that sets neither, and gets neither from auth, says who sends it
/// and that it takes anything; what it sets itself stands.
pub proof fn lemma_defaults_fill_what_is_missing(
    own: Seq<(Seq<char>, Seq<char>)>,
    auth: Seq<(Seq<char>, Seq<char>)>,
    user_agent: Option<Seq<char>>,
)
    ensures
        ({
            let set = with_missing(own, auth);
            let agent = (
                "User-Agent"@,
                match user_agent {
                    Some(s) => s,
                    None => "Forge/0.1"@,
                },
            );
            let accept = ("Accept"@, "*/*"@);
            let all = headers_ready(own, auth, user_agent);
            &&& sets(set, "User-Agent"@) && sets(set, "Accept"@) ==> all == set
            &&& sets(set, "User-Agent"@) && !sets(set, "Accept"@) ==> all == set.push(accept)
            &&& !sets(set, "User-Agent"@) && sets(set, "Accept"@) ==> all == set.push(agent)
            &&& !sets(set, "User-Agent"@) && !sets(set, "Accept"@) ==> all == set.push(agent).push(accept)
        }),
{
    reveal_strlit("User-Agent");
    reveal_strlit("Accept");
    let set = with_missing(own, auth);
    let extra = super::resolve::default_headers(user_agent);
    assert(extra.drop_last() =~= seq![extra[0]]);
    assert(extra.drop_last().drop_last() =~= Seq::empty());
    assert(with_missing(set, extra.drop_last().drop_last()) == set);
    let one = with_missing(set, extra.drop_last());
    assert(crate::reqv1::outgoing::has_header(set, "User-Agent"@) == sets(set, "User-Agent"@));
    assert(crate::reqv1::outgoing::has_header(set, "Accept"@) == sets(set, "Accept"@));
    if sets(set, "Accept"@) {
        let i = choose|i: int| 0 <= i < set.len() && same_ignoring_case((#[trigger] set[i]).0, "Accept"@);
        assert(one[i] == set[i]);
        assert(crate::reqv1::outgoing::has_header(one, "Accept"@));
    } else {
        assert("User-Agent"@.len() != "Accept"@.len());
        assert(!same_ignoring_case("User-Agent"@, "Accept"@));
        assert forall|i: int| 0 <= i < one.len() implies !same_ignoring_case((#[trigger] one[i]).0, "Accept"@) by {
            if i < set.len() {
                assert(one[i] == set[i]);
            }
        }
        assert(!crate::reqv1::outgoing::has_header(one, "Accept"@));
    }
}

/// What auth adds under a name that the request does not set is sent.
pub proof fn lemma_auth_header_is_added(own: Seq<(Seq<char>, Seq<char>)>, name: Seq<char>, value: Seq<char>)
    ensures
        with_missing(own, seq![]) == own,
        with_missing(own, seq![(name, value)]) == if sets(own, name) {
            own
        } else {
            own.push((name, value))
        },
{
    assert(seq![(name, value)].drop_last() =~= Seq::empty());
    assert(with_missing(own, seq![(name, value)].drop_last()) == own);
    assert(crate::reqv1::outgoing::has_header(own, name) == sets(own, name));
}

// ---------------------------------------------------------------------
// Bodies
// ---------------------------------------------------------------------

/// A body of text under a content type.
pub open spec fn is_text(body: ExecBodyV, content_type: Seq<char>, text: Seq<char>) -> bool {
    body matches ExecBodyV::Bytes { content_type: t, data } && t == Some(content_type) && data == encode_utf8(text)
}

/// One part comes of what is stored of it.
pub open spec fn part_comes_of(part: MultipartV, root: Seq<char>, layers: Seq<LayerV>, out: PartV) -> bool {
    &&& out.name == part.name
    &&& out.content_type == part.content_type
    &&& match part.content {
        ContentV::Text { value } => out.file_name is None && (out.data matches PartDataV::Text(t) && expanded(
            value,
            layers,
        ) == Ok::<Seq<char>, Seq<char>>(t)),
        ContentV::File { path } => out.file_name == file_name(path) && out.data == PartDataV::File(
            joined_path(root, path),
        ),
    }
}

proof fn lemma_parts_prefix(parts: Seq<MultipartV>, root: Seq<char>, layers: Seq<LayerV>, n: int)
    requires
        0 <= n <= parts.len(),
    ensures
        parts_ready(parts, root, layers, n) matches Ok(out) ==> picks(
            parts.take(n),
            |p: MultipartV| p.enabled,
            |p: MultipartV, o: PartV| part_comes_of(p, root, layers, o),
            out,
        ),
        parts_ready(parts, root, layers, n) matches Err(e) ==> exists|i: int|
            0 <= i < n && (#[trigger] parts[i]).enabled && (parts[i].content matches ContentV::Text { value } && (
            expanded(value, layers) matches Err(name) && e == ResolveErrorV::Interpolate(name))),
    decreases n,
{
    let keep = |p: MultipartV| p.enabled;
    let fits = |p: MultipartV, o: PartV| part_comes_of(p, root, layers, o);
    if n == 0 {
        lemma_picks_none(parts.take(0), keep, fits, seq![]);
    } else {
        lemma_parts_prefix(parts, root, layers, n - 1);
        assert(parts.take(n).drop_last() =~= parts.take(n - 1));
        assert(parts.take(n).last() == parts[n - 1]);
        if let Ok(before) = parts_ready(parts, root, layers, n - 1) {
            if let Ok(out) = parts_ready(parts, root, layers, n) {
                if keep(parts[n - 1]) {
                    assert(out.drop_last() =~= before);
                }
                lemma_picks_more(parts.take(n), keep, fits, before, out);
            } else {
                assert(parts[n - 1].enabled);
            }
        }
    }
}

/// A body is sent as what it is stored as: a text under its content type, rows
/// as form fields, the enabled parts, a GraphQL query in JSON, or the bytes of
/// a file.
pub proof fn lemma_body_is_sent_as_its_kind(body: BodyDefV, root: Seq<char>, layers: Seq<LayerV>, outside: OutsideV)
    ensures
        body is Empty ==> body_ready(body, root, layers, outside) == Ok::<ExecBodyV, ResolveErrorV>(ExecBodyV::Empty),
        body matches BodyDefV::Raw { text, language } ==> match expanded(text, layers) {
            Ok(t) => body_ready(body, root, layers, outside) matches Ok(b) && {
                &&& language == RawLanguage::Text ==> is_text(b, "text/plain"@, t)
                &&& language == RawLanguage::Json ==> is_text(b, "application/json"@, t)
                &&& language == RawLanguage::Xml ==> is_text(b, "application/xml"@, t)
                &&& language == RawLanguage::Html ==> is_text(b, "text/html"@, t)
                &&& language == RawLanguage::Yaml ==> is_text(b, "application/yaml"@, t)
            },
            Err(n) => body_ready(body, root, layers, outside) == Err::<ExecBodyV, ResolveErrorV>(
                ResolveErrorV::Interpolate(n),
            ),
        },
        body matches BodyDefV::Json { text } ==> match expanded(text, layers) {
            Ok(t) => body_ready(body, root, layers, outside) matches Ok(b) && is_text(b, "application/json"@, t),
            Err(n) => body_ready(body, root, layers, outside) == Err::<ExecBodyV, ResolveErrorV>(
                ResolveErrorV::Interpolate(n),
            ),
        },
        body matches BodyDefV::Xml { text } ==> match expanded(text, layers) {
            Ok(t) => body_ready(body, root, layers, outside) matches Ok(b) && is_text(b, "application/xml"@, t),
            Err(n) => body_ready(body, root, layers, outside) == Err::<ExecBodyV, ResolveErrorV>(
                ResolveErrorV::Interpolate(n),
            ),
        },
        body matches BodyDefV::FormUrlencoded { fields } ==> (body_ready(body, root, layers, outside) matches Ok(b) ==> (b
            matches ExecBodyV::Form(pairs) && pairs_come_of(fields, layers, pairs))),
        body matches BodyDefV::FormUrlencoded { fields } ==> (body_ready(body, root, layers, outside) matches Err(e)
            ==> exists|i: int|
            0 <= i < fields.len() && (#[trigger] fields[i]).enabled && fields[i].key.len() > 0 && (expanded(
                fields[i].value,
                layers,
            ) matches Err(name) && e == ResolveErrorV::Interpolate(name))),
        body matches BodyDefV::Multipart { parts } ==> (body_ready(body, root, layers, outside) matches Ok(b) ==> (b
            matches ExecBodyV::Multipart(list) && picks(
            parts,
            |p: MultipartV| p.enabled,
            |p: MultipartV, o: PartV| part_comes_of(p, root, layers, o),
            list,
        ))),
        body matches BodyDefV::Multipart { parts } ==> (body_ready(body, root, layers, outside) matches Err(e)
            ==> exists|i: int|
            0 <= i < parts.len() && (#[trigger] parts[i]).enabled && (parts[i].content matches ContentV::Text { value }
                && (expanded(value, layers) matches Err(name) && e == ResolveErrorV::Interpolate(name)))),
        body matches BodyDefV::Binary { path } ==> match outside.file {
            Some(Ok(data)) => body_ready(body, root, layers, outside) == Ok::<ExecBodyV, ResolveErrorV>(
                ExecBodyV::Bytes { content_type: Some("application/octet-stream"@), data },
            ),
            _ => body_ready(body, root, layers, outside) matches Err(e) && e is Body,
        },
{
    match body {
        BodyDefV::FormUrlencoded { fields } => lemma_rows_are_those_enabled(fields, layers),
        BodyDefV::Multipart { parts } => {
            lemma_parts_prefix(parts, root, layers, parts.len() as int);
            assert(parts.take(parts.len() as int) =~= parts);
        },
        _ => {},
    }
}

/// A GraphQL query is sent as a JSON object with the query, its variables and
/// the name of the operation, each filled in. No variables are an empty object;
/// no operation is null.
pub proof fn lemma_graphql_is_sent_as_json(
    query: Seq<char>,
    variables: Seq<char>,
    operation_name: Option<Seq<char>>,
    root: Seq<char>,
    layers: Seq<LayerV>,
    outside: OutsideV,
    q: Seq<char>,
    vars: Seq<char>,
    given: JsonV,
    operation: JsonV,
)
    requires
        expanded(query, layers) == Ok::<Seq<char>, Seq<char>>(q),
        expanded(variables, layers) == Ok::<Seq<char>, Seq<char>>(vars),
        if trimmed(vars).len() == 0 {
            given == JsonV::Object(seq![])
        } else {
            json_parse(vars) == Ok::<JsonV, Seq<char>>(given)
        },
        match operation_name {
            Some(name) => operation matches JsonV::String(s) && expanded(name, layers) == Ok::<Seq<char>, Seq<char>>(s),
            None => operation is Null,
        },
    ensures
        exists|payload: JsonV|
            {
                &&& body_ready(
                    BodyDefV::GraphQl { query, variables, operation_name },
                    root,
                    layers,
                    outside,
                ) matches Ok(b) && is_text(b, "application/json"@, #[trigger] printed(payload))
                &&& member(payload, "query"@) == Some(JsonV::String(q))
                &&& member(payload, "variables"@) == Some(given)
                &&& member(payload, "operationName"@) == Some(operation)
            },
{
    reveal_strlit("query");
    reveal_strlit("variables");
    reveal_strlit("operationName");
    let name = match operation {
        JsonV::String(s) => Some(s),
        _ => None,
    };
    let payload = graphql_payload(q, given, name);
    assert("query"@.len() == 5 && "variables"@.len() == 9 && "operationName"@.len() == 13);
    let pairs = payload->Object_0;
    lemma_third(pairs, "query"@, 1);
    lemma_third(pairs, "variables"@, 2);
    lemma_third(pairs, "operationName"@, 0);
    assert(is_text(
        body_ready(BodyDefV::GraphQl { query, variables, operation_name }, root, layers, outside)->Ok_0,
        "application/json"@,
        printed(payload),
    ));
}

proof fn lemma_third(pairs: Seq<(Seq<char>, JsonV)>, key: Seq<char>, i: int)
    requires
        0 <= i < pairs.len() <= 3,
        pairs[i].0 == key,
        forall|j: int| 0 <= j < pairs.len() && j != i ==> (#[trigger] pairs[j]).0 != key,
    ensures
        lookup(pairs, key) == Some(pairs[i].1),
{
    reveal_with_fuel(lookup, 4);
}

// ---------------------------------------------------------------------
// The request
// ---------------------------------------------------------------------

/// A request that is sent comes of what is stored: its method, the URL with its
/// parameters and those of auth, its own headers first, its body, and its own
/// settings where it has them, those of the workspace where it has not.
pub proof fn lemma_request_is_what_is_stored(
    settings: SettingsV,
    root: Seq<char>,
    def: RequestDefV,
    chain: Seq<AuthV>,
    layers: Seq<LayerV>,
    outside: OutsideV,
)
    ensures
        request_ready(settings, root, def, chain, layers, outside) matches Ok(r) ==> {
            let extra = auth_additions(auth_in_force(def.auth, chain), layers, outside);
            &&& r.method == def.method
            &&& extra matches Ok(add) && exists|own: Seq<(Seq<char>, Seq<char>)>|
                #[trigger] pairs_come_of(def.headers, layers, own) && r.headers == headers_ready(
                    own,
                    add.headers,
                    settings.user_agent,
                )
            &&& extra matches Ok(add) && url_comes_of(def, add.query, layers, r.url)
            &&& body_ready(def.body, root, layers, outside) == Ok::<ExecBodyV, ResolveErrorV>(r.body)
            &&& def.settings.timeout_ms matches Some(t) ==> r.timeout_ms == t
            &&& def.settings.timeout_ms is None ==> r.timeout_ms == settings.timeout_ms
            &&& def.settings.follow_redirects matches Some(b) ==> r.follow_redirects == b
            &&& def.settings.follow_redirects is None ==> r.follow_redirects == settings.follow_redirects
            &&& def.settings.max_redirects matches Some(n) ==> r.max_redirects == n
            &&& def.settings.max_redirects is None ==> r.max_redirects == settings.max_redirects
            &&& def.settings.verify_tls matches Some(b) ==> r.verify_tls == b
            &&& def.settings.verify_tls is None ==> r.verify_tls == settings.verify_tls
            &&& settings.proxy matches Some(p) ==> r.proxy == Some(p.url)
            &&& settings.proxy is None ==> r.proxy is None
        },
{
    lemma_rows_are_those_enabled(def.headers, layers);
    if let Ok(r) = request_ready(settings, root, def, chain, layers, outside) {
        let own = rows_ready(def.headers, layers, def.headers.len() as int)->Ok_0;
        assert(pairs_come_of(def.headers, layers, own));
        let rows = query_rows(def.params);
        lemma_rows_are_those_enabled(rows, layers);
        let sent = rows_ready(rows, layers, rows.len() as int)->Ok_0;
        assert(pairs_come_of(rows, layers, sent));
    }
}

/// The URL of a request: the stored one, filled in, with its path parameters and
/// a scheme, and its query parameters appended, then those of auth.
pub open spec fn url_comes_of(
    def: RequestDefV,
    auth: Seq<(Seq<char>, Seq<char>)>,
    layers: Seq<LayerV>,
    url: Seq<char>,
) -> bool {
    expanded(def.url, layers) matches Ok(text) && (path_ready(text, def.params, layers) matches Ok(path) && (url_parsed(
        with_scheme(path),
    ) matches Ok(parsed) && exists|own: Seq<(Seq<char>, Seq<char>)>|
        #[trigger] pairs_come_of(query_rows(def.params), layers, own) && url == url_extended(
            parsed.0,
            query_ready(own, auth, parsed.1),
        )))
}

/// A request is made ready wherever each of its parts is: it fails only with the
/// error of one of them.
pub proof fn lemma_request_fails_only_in_a_part(
    settings: SettingsV,
    root: Seq<char>,
    def: RequestDefV,
    chain: Seq<AuthV>,
    layers: Seq<LayerV>,
    outside: OutsideV,
)
    ensures
        request_ready(settings, root, def, chain, layers, outside) matches Err(e) ==> {
            ||| rows_ready(def.headers, layers, def.headers.len() as int) == Err::<
                Seq<(Seq<char>, Seq<char>)>,
                ResolveErrorV,
            >(e)
            ||| auth_additions(auth_in_force(def.auth, chain), layers, outside) == Err::<AdditionsV, ResolveErrorV>(e)
            ||| auth_additions(auth_in_force(def.auth, chain), layers, outside) matches Ok(add) && address_ready(
                def,
                add.query,
                layers,
            ) == Err::<Seq<char>, ResolveErrorV>(e)
            ||| body_ready(def.body, root, layers, outside) == Err::<ExecBodyV, ResolveErrorV>(e)
        },
{
}

} // verus!
