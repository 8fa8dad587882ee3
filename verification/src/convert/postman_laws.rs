//! What holds of an import, over the nodes that it reads.

use vstd::prelude::*;

use crate::json::{member, printed, JsonV};
use crate::map::{lemma_put_is_read_back, lemma_put_leaves_others, lookup};
use crate::model::auth::{ApiKeyPlacement, AuthV};
use crate::model::body::{BodyDefV, ContentV, MultipartV, RawLanguage, RowV};
use crate::model::environment::EnvVarV;
use crate::model::request::{HooksDefV, ParamKind, ParamV, RequestDefV, ScriptLang};
use crate::model::{method_named, Method};
use crate::selection::{lemma_picks_more, lemma_picks_none, picks};
use crate::text::{first_at, lemma_first_at, occurs_at};
use crate::words::{joined, lemma_split_joined, split_on, trimmed};

use super::postman::{
    auth_of, body_of, collection_of, env_rows, environment_of, event_source, first_source, full_texts, hooks_of,
    member_params, oauth2_of, pair_params, parts_of, raw_url, request_of, requests_in, row_params, rows_of,
    scope_list, scripts_of, tree_of, url_of, url_params, ItemV, PostmanErrorV,
};

verus! {

broadcast use vstd::string::group_string_axioms;

// ---------------------------------------------------------------------
// Members
// ---------------------------------------------------------------------

/// The text under a key.
pub open spec fn text_under(v: JsonV, key: Seq<char>) -> Option<Seq<char>> {
    match member(v, key) {
        Some(JsonV::String(s)) => Some(s),
        _ => None,
    }
}

/// The text under a key, nothing where there is no text.
pub open spec fn some_text(v: JsonV, key: Seq<char>) -> Seq<char> {
    match member(v, key) {
        Some(JsonV::String(s)) => s,
        _ => seq![],
    }
}

/// The list under a key, an empty one where there is no list.
pub open spec fn some_list(v: JsonV, key: Seq<char>) -> Seq<JsonV> {
    match member(v, key) {
        Some(JsonV::Array(items)) => items,
        _ => seq![],
    }
}

/// What stands under a key, null where nothing does.
pub open spec fn below(v: JsonV, key: Seq<char>) -> JsonV {
    match member(v, key) {
        Some(inner) => inner,
        None => JsonV::Null,
    }
}

/// The node is switched off.
pub open spec fn switched_off(v: JsonV) -> bool {
    member(v, "disabled"@) matches Some(JsonV::Bool(b)) && b
}

/// The value of a node as a text: a text as it is, nothing for null, JSON for
/// anything else.
pub open spec fn value_under(v: JsonV) -> Seq<char> {
    match member(v, "value"@) {
        None => seq![],
        Some(JsonV::Null) => seq![],
        Some(JsonV::String(s)) => s,
        Some(other) => printed(other),
    }
}

/// The description of a node: a text, or the content of an object.
pub open spec fn described(v: JsonV) -> Seq<char> {
    match member(v, "description"@) {
        Some(JsonV::String(s)) => s,
        Some(JsonV::Object(pairs)) => match lookup(pairs, "content"@) {
            Some(JsonV::String(s)) => s,
            _ => seq![],
        },
        _ => seq![],
    }
}

// ---------------------------------------------------------------------
// Tables
// ---------------------------------------------------------------------

/// A table row comes of a node: its key, its value, its description, and it is
/// enabled unless the node is switched off.
pub open spec fn row_comes_of(node: JsonV, row: RowV) -> bool {
    &&& text_under(node, "key"@) == Some(row.key)
    &&& row.value == value_under(node)
    &&& row.description == described(node)
    &&& row.enabled == !switched_off(node)
}

/// There is one row for each node with a key, in the order of the nodes. It is
/// enabled unless the node says that it is disabled.
pub proof fn lemma_rows_come_of_their_nodes(nodes: Seq<JsonV>)
    ensures
        picks(
            nodes,
            |node: JsonV| text_under(node, "key"@) is Some,
            |node: JsonV, row: RowV| row_comes_of(node, row),
            rows_of(nodes),
        ),
    decreases nodes.len(),
{
    let keep = |node: JsonV| text_under(node, "key"@) is Some;
    let fits = |node: JsonV, row: RowV| row_comes_of(node, row);
    if nodes.len() == 0 {
        lemma_picks_none(nodes, keep, fits, rows_of(nodes));
    } else {
        lemma_rows_come_of_their_nodes(nodes.drop_last());
        if keep(nodes.last()) {
            assert(rows_of(nodes).drop_last() =~= rows_of(nodes.drop_last()));
        }
        lemma_picks_more(nodes, keep, fits, rows_of(nodes.drop_last()), rows_of(nodes));
    }
}

/// A node without a word about it is enabled, and so is one that says `false`;
/// one that says `true` is not.
pub proof fn lemma_disabled_rows_are_switched_off(node: JsonV)
    requires
        text_under(node, "key"@) is Some,
    ensures
        rows_of(seq![node]).len() == 1,
        member(node, "disabled"@) is None ==> rows_of(seq![node])[0].enabled,
        member(node, "disabled"@) == Some(JsonV::Bool(false)) ==> rows_of(seq![node])[0].enabled,
        member(node, "disabled"@) == Some(JsonV::Bool(true)) ==> !rows_of(seq![node])[0].enabled,
{
    assert(seq![node].drop_last() =~= Seq::empty());
    assert(rows_of(seq![node].drop_last()).len() == 0);
}

/// There is one parameter for each node with a key, in the order of the nodes.
/// Those of a query can be switched off, those of a path cannot.
pub proof fn lemma_parameters_come_of_their_nodes(nodes: Seq<JsonV>, kind: ParamKind)
    ensures
        picks(
            nodes,
            |node: JsonV| text_under(node, "key"@) is Some,
            |node: JsonV, p: ParamV|
                {
                    &&& p.kind == kind
                    &&& text_under(node, "key"@) == Some(p.kv.key)
                    &&& p.kv.value == value_under(node)
                    &&& p.kv.description == described(node)
                    &&& p.kv.enabled == (kind == ParamKind::Path || !switched_off(node))
                },
            url_params(nodes, kind),
        ),
    decreases nodes.len(),
{
    let keep = |node: JsonV| text_under(node, "key"@) is Some;
    let fits = |node: JsonV, p: ParamV|
        {
            &&& p.kind == kind
            &&& text_under(node, "key"@) == Some(p.kv.key)
            &&& p.kv.value == value_under(node)
            &&& p.kv.description == described(node)
            &&& p.kv.enabled == (kind == ParamKind::Path || !switched_off(node))
        };
    if nodes.len() == 0 {
        lemma_picks_none(nodes, keep, fits, url_params(nodes, kind));
    } else {
        lemma_parameters_come_of_their_nodes(nodes.drop_last(), kind);
        if keep(nodes.last()) {
            assert(url_params(nodes, kind).drop_last() =~= url_params(nodes.drop_last(), kind));
        }
        lemma_picks_more(nodes, keep, fits, url_params(nodes.drop_last(), kind), url_params(nodes, kind));
    }
}

/// A part comes of a node: a file where the node says so, else a text.
pub open spec fn part_comes_of(node: JsonV, part: MultipartV) -> bool {
    &&& text_under(node, "key"@) == Some(part.name)
    &&& part.content_type == text_under(node, "contentType"@)
    &&& part.enabled == !switched_off(node)
    &&& text_under(node, "type"@) != Some("file"@) ==> part.content == ContentV::Text { value: value_under(node) }
    &&& text_under(node, "type"@) == Some("file"@) ==> (part.content matches ContentV::File { path } && match member(
        node,
        "src"@,
    ) {
        Some(JsonV::String(s)) => path == s,
        Some(JsonV::Array(items)) => if items.len() > 0 && items[0] is String {
            path == items[0]->String_0
        } else {
            path.len() == 0
        },
        _ => path.len() == 0,
    })
}

/// There is one part for each node with a key, in the order of the nodes.
pub proof fn lemma_parts_come_of_their_nodes(nodes: Seq<JsonV>)
    ensures
        picks(
            nodes,
            |node: JsonV| text_under(node, "key"@) is Some,
            |node: JsonV, part: MultipartV| part_comes_of(node, part),
            parts_of(nodes),
        ),
    decreases nodes.len(),
{
    let keep = |node: JsonV| text_under(node, "key"@) is Some;
    let fits = |node: JsonV, part: MultipartV| part_comes_of(node, part);
    if nodes.len() == 0 {
        lemma_picks_none(nodes, keep, fits, parts_of(nodes));
    } else {
        lemma_parts_come_of_their_nodes(nodes.drop_last());
        if keep(nodes.last()) {
            assert(parts_of(nodes).drop_last() =~= parts_of(nodes.drop_last()));
        }
        lemma_picks_more(nodes, keep, fits, parts_of(nodes.drop_last()), parts_of(nodes));
    }
}

// ---------------------------------------------------------------------
// Variables
// ---------------------------------------------------------------------

/// A variable has the value of the last row with its name, and none where no
/// row has it.
pub proof fn lemma_last_row_of_a_name_counts(rows: Seq<JsonV>, name: Seq<char>)
    ensures
        lookup(row_params(rows), name) is None <==> forall|i: int|
            0 <= i < rows.len() ==> text_under(#[trigger] rows[i], "key"@) != Some(name),
        forall|i: int|
            0 <= i < rows.len() && text_under(#[trigger] rows[i], "key"@) == Some(name) && (forall|j: int|
                i < j < rows.len() ==> text_under(#[trigger] rows[j], "key"@) != Some(name)) ==> lookup(
                row_params(rows),
                name,
            ) == Some(value_under(rows[i])),
    decreases rows.len(),
{
    if rows.len() > 0 {
        let less = rows.drop_last();
        let n = rows.len() - 1;
        lemma_last_row_of_a_name_counts(less, name);
        let here = text_under(rows.last(), "key"@);
        if let Some(key) = here {
            let value = value_under(rows.last());
            if key == name {
                lemma_put_is_read_back(row_params(less), key, value);
            } else {
                lemma_put_leaves_others(row_params(less), key, value, name);
            }
        }
        if here == Some(name) {
            assert(text_under(rows[n], "key"@) == Some(name));
        } else {
            assert(lookup(row_params(rows), name) == lookup(row_params(less), name));
            assert forall|i: int|
                0 <= i < rows.len() && text_under(#[trigger] rows[i], "key"@) == Some(name) && (forall|j: int|
                    i < j < rows.len() ==> text_under(#[trigger] rows[j], "key"@) != Some(name)) implies lookup(
                row_params(rows),
                name,
            ) == Some(value_under(rows[i])) by {
                assert(less[i] == rows[i]);
                assert forall|j: int| i < j < less.len() implies text_under(#[trigger] less[j], "key"@) != Some(name) by {
                    assert(less[j] == rows[j]);
                }
            }
            if lookup(row_params(rows), name) is None {
                assert forall|i: int| 0 <= i < rows.len() implies text_under(#[trigger] rows[i], "key"@) != Some(name) by {
                    if i < n {
                        assert(less[i] == rows[i]);
                    }
                }
            } else {
                let k = choose|k: int| 0 <= k < less.len() && text_under(#[trigger] less[k], "key"@) == Some(name);
                assert(text_under(rows[k], "key"@) == Some(name));
            }
        }
    }
}

/// The last member of a name counts.
pub proof fn lemma_last_member_of_a_name_counts(pairs: Seq<(Seq<char>, JsonV)>, name: Seq<char>, i: int)
    requires
        0 <= i < pairs.len(),
        pairs[i].0 == name,
        forall|j: int| i < j < pairs.len() ==> (#[trigger] pairs[j]).0 != name,
    ensures
        lookup(member_params(pairs), name) == Some(
            match pairs[i].1 {
                JsonV::String(s) => s,
                JsonV::Null => seq![],
                other => printed(other),
            },
        ),
    decreases pairs.len(),
{
    let less = pairs.drop_last();
    let text = super::postman::value_text(pairs.last().1);
    if i == pairs.len() - 1 {
        lemma_put_is_read_back(member_params(less), name, text);
    } else {
        assert(pairs[pairs.len() - 1].0 != name);
        lemma_put_leaves_others(member_params(less), pairs.last().0, text, name);
        assert(less[i] == pairs[i]);
        assert forall|j: int| i < j < less.len() implies (#[trigger] less[j]).0 != name by {
            assert(less[j] == pairs[j]);
        }
        lemma_last_member_of_a_name_counts(less, name, i);
    }
}

// ---------------------------------------------------------------------
// Auth
// ---------------------------------------------------------------------

/// The parameters of an auth node of a kind, under the name of the kind.
pub open spec fn auth_params(auth: JsonV, kind: Seq<char>) -> Seq<(Seq<char>, Seq<char>)> {
    match member(auth, kind) {
        Some(JsonV::Array(rows)) => row_params(rows),
        Some(JsonV::Object(pairs)) => member_params(pairs),
        _ => seq![],
    }
}

/// A parameter, nothing where it is not given.
pub open spec fn given(params: Seq<(Seq<char>, Seq<char>)>, name: Seq<char>) -> Seq<char> {
    match lookup(params, name) {
        Some(s) => s,
        None => seq![],
    }
}

/// The auth of a node is of the kind that it names, with the parameters under
/// that name. A node without a kind leaves the auth to its parent.
pub proof fn lemma_auth_is_of_the_kind_named(auth: JsonV, path: Seq<char>)
    ensures
        text_under(auth, "type"@) is None ==> auth_of(auth, path).0 is Inherit && auth_of(auth, path).1.len() == 0,
        text_under(auth, "type"@) == Some("noauth"@) ==> auth_of(auth, path).0 is NoAuth && auth_of(auth, path).1.len()
            == 0,
        text_under(auth, "type"@) == Some("basic"@) ==> (auth_of(auth, path).0 matches AuthV::Basic { username, password }
            && username == given(auth_params(auth, "basic"@), "username"@) && password == given(
            auth_params(auth, "basic"@),
            "password"@,
        ) && auth_of(auth, path).1.len() == 0),
        text_under(auth, "type"@) == Some("bearer"@) ==> (auth_of(auth, path).0 matches AuthV::Bearer { token, prefix }
            && token == given(auth_params(auth, "bearer"@), "token"@) && prefix is None && auth_of(auth, path).1.len()
            == 0),
        text_under(auth, "type"@) == Some("digest"@) ==> (auth_of(auth, path).0 matches AuthV::Digest {
            username,
            password,
        } && username == given(auth_params(auth, "digest"@), "username"@) && password == given(
            auth_params(auth, "digest"@),
            "password"@,
        ) && auth_of(auth, path).1.len() == 0),
        text_under(auth, "type"@) == Some("ntlm"@) ==> (auth_of(auth, path).0 matches AuthV::Ntlm {
            username,
            password,
            domain,
        } && username == given(auth_params(auth, "ntlm"@), "username"@) && password == given(
            auth_params(auth, "ntlm"@),
            "password"@,
        ) && domain == given(auth_params(auth, "ntlm"@), "domain"@) && auth_of(auth, path).1.len() == 0),
{
    reveal_strlit("noauth");
    reveal_strlit("basic");
    reveal_strlit("bearer");
    reveal_strlit("digest");
    reveal_strlit("ntlm");
    assert("basic"@.len() == 5 && "ntlm"@.len() == 4 && "noauth"@[0] == 'n' && "bearer"@[0] == 'b' && "digest"@[0]
        == 'd');
}

/// The rest of the kinds: keys for AWS, a key with its place, OAuth 2. Any other
/// kind is left out and told.
pub proof fn lemma_auth_is_of_the_other_kind_named(auth: JsonV, path: Seq<char>)
    ensures
        text_under(auth, "type"@) == Some("awsv4"@) ==> (auth_of(auth, path).0 matches AuthV::AwsSigV4 {
            access_key,
            secret_key,
            session_token,
            region,
            service,
        } && {
            let p = auth_params(auth, "awsv4"@);
            &&& access_key == given(p, "accessKey"@)
            &&& secret_key == given(p, "secretKey"@)
            &&& given(p, "sessionToken"@).len() == 0 ==> session_token is None
            &&& given(p, "sessionToken"@).len() > 0 ==> session_token == Some(given(p, "sessionToken"@))
            &&& region == given(p, "region"@)
            &&& service == given(p, "service"@)
            &&& auth_of(auth, path).1.len() == 0
        }),
        text_under(auth, "type"@) == Some("apikey"@) ==> (auth_of(auth, path).0 matches AuthV::ApiKey {
            key,
            value,
            placement,
        } && {
            let p = auth_params(auth, "apikey"@);
            &&& key == given(p, "key"@)
            &&& value == given(p, "value"@)
            &&& given(p, "in"@) == "query"@ ==> placement == ApiKeyPlacement::Query
            &&& given(p, "in"@) != "query"@ ==> placement == ApiKeyPlacement::Header
            &&& auth_of(auth, path).1.len() == 0
        }),
        text_under(auth, "type"@) == Some("oauth2"@) ==> auth_of(auth, path) == oauth2_of(
            auth_params(auth, "oauth2"@),
            path,
        ),
        text_under(auth, "type"@) matches Some(kind) ==> (kind != "noauth"@ && kind != "basic"@ && kind != "bearer"@
            && kind != "digest"@ && kind != "ntlm"@ && kind != "awsv4"@ && kind != "apikey"@ && kind != "oauth2"@ ==> (
        auth_of(auth, path).0 is NoAuth && auth_of(auth, path).1 == seq![
            path + ": auth type '"@ + kind + "' not supported, auth dropped"@,
        ])),
{
    reveal_strlit("noauth");
    reveal_strlit("basic");
    reveal_strlit("bearer");
    reveal_strlit("digest");
    reveal_strlit("ntlm");
    reveal_strlit("awsv4");
    reveal_strlit("apikey");
    reveal_strlit("oauth2");
    assert("basic"@[0] == 'b' && "awsv4"@[0] == 'a' && "ntlm"@.len() == 4 && "noauth"@[0] == 'n' && "bearer"@[0] == 'b'
        && "digest"@[0] == 'd' && "apikey"@[0] == 'a' && "oauth2"@[0] == 'o' && "apikey"@.len() == 6 && "awsv4"@.len()
        == 5);
}

/// OAuth 2 is of the grant type that is named: client credentials, or a code,
/// with a proof key where the name ends so. Any other grant is left out and told.
pub proof fn lemma_oauth2_is_of_the_grant_named(p: Seq<(Seq<char>, Seq<char>)>, path: Seq<char>)
    ensures
        given(p, "grant_type"@) == "client_credentials"@ ==> (oauth2_of(p, path).0
            matches AuthV::OAuth2ClientCredentials { token_url, client_id, client_secret, scopes, credentials_in_body } && {
            &&& token_url == given(p, "accessTokenUrl"@)
            &&& client_id == given(p, "clientId"@)
            &&& client_secret == given(p, "clientSecret"@)
            &&& scopes == scope_list(given(p, "scope"@))
            &&& credentials_in_body <==> given(p, "client_authentication"@) == "body"@
            &&& oauth2_of(p, path).1.len() == 0
        }),
        given(p, "grant_type"@) == "authorization_code"@ || given(p, "grant_type"@) == "authorization_code_with_pkce"@
            ==> (oauth2_of(p, path).0 matches AuthV::OAuth2AuthCode {
            auth_url,
            token_url,
            client_id,
            client_secret,
            scopes,
            redirect_port,
            pkce,
        } && {
            &&& auth_url == given(p, "authUrl"@)
            &&& token_url == given(p, "accessTokenUrl"@)
            &&& client_id == given(p, "clientId"@)
            &&& given(p, "clientSecret"@).len() == 0 ==> client_secret is None
            &&& given(p, "clientSecret"@).len() > 0 ==> client_secret == Some(given(p, "clientSecret"@))
            &&& scopes == scope_list(given(p, "scope"@))
            &&& redirect_port is None
            &&& pkce <==> given(p, "grant_type"@) == "authorization_code_with_pkce"@
            &&& oauth2_of(p, path).1.len() == 0
        }),
        given(p, "grant_type"@).len() == 0 || (given(p, "grant_type"@) != "client_credentials"@ && given(
            p,
            "grant_type"@,
        )[0] != 'a') ==> oauth2_of(p, path).0 is NoAuth && oauth2_of(p, path).1 == seq![
            path + ": OAuth2 grant type '"@ + given(p, "grant_type"@) + "' not supported, auth dropped"@,
        ],
{
    reveal_strlit("client_credentials");
    reveal_strlit("authorization_code");
    reveal_strlit("authorization_code_with_pkce");
    reveal_strlit("with_pkce");
    let grant = given(p, "grant_type"@);
    let plain = "authorization_code"@;
    let proof_key = "authorization_code_with_pkce"@;
    assert(plain.take(18) =~= plain);
    assert(proof_key.take(18) =~= plain);
    assert(proof_key.skip(19) =~= "with_pkce"@);
    assert(plain.skip(9)[0] == 't');
    assert("with_pkce"@[0] == 'w');
    assert(proof_key.subrange(19, 28) =~= "with_pkce"@);
    assert(proof_key.subrange(0, 18) =~= plain);
    assert(plain.subrange(0, 18) =~= plain);
    assert(plain.subrange(9, 18)[0] == 't');
    assert("client_credentials"@[0] == 'c');
    if crate::text::has_prefix(grant, plain) {
        assert(grant.take(18)[0] == plain[0]);
        assert(grant.subrange(0, 18)[0] == plain[0]);
    }
}

proof fn lemma_non_empty(parts: Seq<Seq<char>>)
    ensures
        picks(
            parts,
            |s: Seq<char>| s.len() > 0,
            |s: Seq<char>, t: Seq<char>| s == t,
            super::postman::non_empty(parts),
        ),
    decreases parts.len(),
{
    let keep = |s: Seq<char>| s.len() > 0;
    let fits = |s: Seq<char>, t: Seq<char>| s == t;
    if parts.len() == 0 {
        lemma_picks_none(parts, keep, fits, super::postman::non_empty(parts));
    } else {
        lemma_non_empty(parts.drop_last());
        if keep(parts.last()) {
            assert(super::postman::non_empty(parts).drop_last() =~= super::postman::non_empty(parts.drop_last()));
        }
        lemma_picks_more(
            parts,
            keep,
            fits,
            super::postman::non_empty(parts.drop_last()),
            super::postman::non_empty(parts),
        );
    }
}

/// Scopes that are written one after the other, with spaces or commas between
/// them, are read as they are, in order; what is empty is none.
pub proof fn lemma_scopes_are_read_in_order(parts: Seq<Seq<char>>, written: Seq<char>)
    requires
        parts.len() > 0,
        forall|i: int|
            0 <= i < parts.len() ==> !(#[trigger] parts[i]).contains(' ') && !parts[i].contains(','),
        written.len() == joined(parts, seq![' ']).len(),
        forall|i: int|
            0 <= i < written.len() ==> #[trigger] written[i] == joined(parts, seq![' '])[i] || (written[i] == ','
                && joined(parts, seq![' '])[i] == ' '),
    ensures
        picks(parts, |s: Seq<char>| s.len() > 0, |s: Seq<char>, t: Seq<char>| s == t, scope_list(written)),
{
    let plain = joined(parts, seq![' ']);
    lemma_no_comma(parts);
    assert forall|i: int| 0 <= i < written.len() implies #[trigger] super::postman::spaced(written)[i] == plain[i] by {
        assert(written[i] == plain[i] || (written[i] == ',' && plain[i] == ' '));
        if plain[i] == ',' {
            assert(plain.contains(plain[i]));
        }
    }
    assert(super::postman::spaced(written) =~= plain);
    lemma_split_joined(parts, ' ');
    lemma_non_empty(parts);
}

proof fn lemma_no_comma(parts: Seq<Seq<char>>)
    requires
        forall|i: int| 0 <= i < parts.len() ==> !(#[trigger] parts[i]).contains(','),
    ensures
        !joined(parts, seq![' ']).contains(','),
    decreases parts.len(),
{
    if parts.len() == 1 {
        assert(!parts[0].contains(','));
    } else if parts.len() > 1 {
        lemma_no_comma(parts.drop_last());
        let a = joined(parts.drop_last(), seq![' ']);
        let b = parts.last();
        assert(!parts[parts.len() - 1].contains(','));
        let all = a + seq![' '] + b;
        assert forall|i: int| 0 <= i < all.len() implies all[i] != ',' by {
            if i < a.len() {
                assert(a.contains(a[i]));
            } else if i > a.len() {
                assert(b.contains(b[i - a.len() - 1]));
            }
        }
    }
}

// ---------------------------------------------------------------------
// Bodies
// ---------------------------------------------------------------------

/// The language that a raw body is written in.
pub open spec fn body_language(body: JsonV) -> Seq<char> {
    match member(below(below(body, "options"@), "raw"@), "language"@) {
        Some(JsonV::String(s)) => s,
        _ => "text"@,
    }
}

/// A body is of the mode that it names, with what stands under that name. One
/// that is switched off, or without a mode, is none; any other mode is left out
/// and told.
pub proof fn lemma_body_is_of_the_mode_named(body: JsonV, path: Seq<char>)
    ensures
        switched_off(body) ==> body_of(body, path).0 is Empty && body_of(body, path).1.len() == 0,
        !switched_off(body) ==> {
            let mode = text_under(body, "mode"@);
            let (out, notes) = body_of(body, path);
            &&& mode is None ==> out is Empty && notes.len() == 0
            &&& mode == Some("raw"@) ==> notes.len() == 0 && {
                let text = some_text(body, "raw"@);
                let language = body_language(body);
                &&& language == "json"@ ==> out == BodyDefV::Json { text }
                &&& language == "xml"@ ==> out == BodyDefV::Xml { text }
                &&& language == "html"@ ==> out == BodyDefV::Raw { text, language: RawLanguage::Html }
                &&& language == "yaml"@ ==> out == BodyDefV::Raw { text, language: RawLanguage::Yaml }
                &&& language != "json"@ && language != "xml"@ && language != "html"@ && language != "yaml"@ ==> out
                    == BodyDefV::Raw { text, language: RawLanguage::Text }
            }
            &&& mode == Some("urlencoded"@) ==> notes.len() == 0 && (out matches BodyDefV::FormUrlencoded { fields }
                && fields == rows_of(some_list(body, "urlencoded"@)))
            &&& mode == Some("formdata"@) ==> notes.len() == 0 && (out matches BodyDefV::Multipart { parts } && parts
                == parts_of(some_list(body, "formdata"@)))
            &&& mode == Some("graphql"@) ==> notes.len() == 0 && (out matches BodyDefV::GraphQl {
                query,
                variables,
                operation_name,
            } && query == some_text(below(body, "graphql"@), "query"@) && variables == some_text(
                below(body, "graphql"@),
                "variables"@,
            ) && operation_name is None)
            &&& mode == Some("file"@) ==> notes.len() == 0 && (out matches BodyDefV::Binary { path: p } && p == some_text(
                below(body, "file"@),
                "src"@,
            ))
            &&& mode matches Some(m) ==> (m != "raw"@ && m != "urlencoded"@ && m != "formdata"@ && m != "graphql"@ && m
                != "file"@ ==> out is Empty && notes == seq![path + ": unsupported body mode '"@ + m + "', body dropped"@])
        },
{
    reveal_strlit("raw");
    reveal_strlit("urlencoded");
    reveal_strlit("formdata");
    reveal_strlit("graphql");
    reveal_strlit("file");
    reveal_strlit("json");
    reveal_strlit("xml");
    reveal_strlit("html");
    reveal_strlit("yaml");
    assert("raw"@.len() == 3 && "urlencoded"@.len() == 10 && "formdata"@.len() == 8 && "graphql"@.len() == 7
        && "file"@.len() == 4);
    assert("json"@[0] == 'j' && "xml"@[0] == 'x' && "html"@[0] == 'h' && "yaml"@[0] == 'y');
}

// ---------------------------------------------------------------------
// Scripts
// ---------------------------------------------------------------------

/// The code of an event: a text, or lines.
pub open spec fn code_of(event: JsonV) -> Option<Seq<char>> {
    match member(below(event, "script"@), "exec"@) {
        Some(JsonV::String(s)) => Some(s),
        Some(JsonV::Array(lines)) => Some(
            joined(
                Seq::new(
                    lines.len(),
                    |i: int|
                        match lines[i] {
                            JsonV::String(s) => s,
                            _ => seq![],
                        },
                ),
                "\n"@,
            ),
        ),
        _ => None,
    }
}

/// An event that runs code at that moment: it listens to it, is not switched
/// off, and its code is not blank.
pub open spec fn runs_at(event: JsonV, moment: Seq<char>) -> bool {
    text_under(event, "listen"@) == Some(moment) && !switched_off(event) && (code_of(event) matches Some(code) && trimmed(
        code,
    ).len() > 0)
}

/// A script is the code of the first event that runs code at that moment.
pub proof fn lemma_first_event_is_the_script(events: Seq<JsonV>, moment: Seq<char>)
    ensures
        first_source(events, moment) is None <==> forall|i: int|
            0 <= i < events.len() ==> !runs_at(#[trigger] events[i], moment),
        forall|i: int|
            0 <= i < events.len() && runs_at(#[trigger] events[i], moment) && (forall|j: int|
                0 <= j < i ==> !runs_at(#[trigger] events[j], moment)) ==> first_source(events, moment) == code_of(
                events[i],
            ),
    decreases events.len(),
{
    if events.len() > 0 {
        let rest = events.skip(1);
        lemma_first_event_is_the_script(rest, moment);
        lemma_event(events[0], moment);
        if runs_at(events[0], moment) {
            assert(runs_at(events[0], moment));
        } else {
            assert forall|i: int|
                0 <= i < events.len() && runs_at(#[trigger] events[i], moment) && (forall|j: int|
                    0 <= j < i ==> !runs_at(#[trigger] events[j], moment)) implies first_source(events, moment) == code_of(
                events[i],
            ) by {
                assert(rest[i - 1] == events[i]);
                assert forall|j: int| 0 <= j < i - 1 implies !runs_at(#[trigger] rest[j], moment) by {
                    assert(rest[j] == events[j + 1]);
                }
            }
            if first_source(events, moment) is None {
                assert forall|i: int| 0 <= i < events.len() implies !runs_at(#[trigger] events[i], moment) by {
                    if i > 0 {
                        assert(rest[i - 1] == events[i]);
                    }
                }
            } else {
                let k = choose|k: int| 0 <= k < rest.len() && runs_at(#[trigger] rest[k], moment);
                assert(runs_at(events[k + 1], moment));
            }
        }
    }
}

proof fn lemma_event(event: JsonV, moment: Seq<char>)
    ensures
        event_source(event, moment) == if runs_at(event, moment) {
            code_of(event)
        } else {
            None
        },
{
    if let Some(JsonV::Array(lines)) = member(below(event, "script"@), "exec"@) {
        assert(super::postman::script_lines(lines) =~= Seq::new(
            lines.len(),
            |i: int|
                match lines[i] {
                    JsonV::String(s) => s,
                    _ => seq![],
                },
        ));
    }
}

/// A request's scripts are those of its events: `prerequest` before it is sent,
/// `test` after. A folder's hooks are those of its events, before and after each
/// of its requests. Where there is one, they are JavaScript.
pub proof fn lemma_scripts_come_of_events(item: JsonV)
    ensures
        scripts_of(item).pre_request == first_source(some_list(item, "event"@), "prerequest"@),
        scripts_of(item).post_response == first_source(some_list(item, "event"@), "test"@),
        scripts_of(item).pre_request is Some || scripts_of(item).post_response is Some ==> scripts_of(item).language
            == ScriptLang::Js,
        hooks_of(item).before_each == first_source(some_list(item, "event"@), "prerequest"@),
        hooks_of(item).after_each == first_source(some_list(item, "event"@), "test"@),
        hooks_of(item).before_all is None,
        hooks_of(item).after_all is None,
        hooks_of(item).before_each is Some || hooks_of(item).after_each is Some ==> hooks_of(item).language
            == ScriptLang::Js,
{
}

// ---------------------------------------------------------------------
// URLs
// ---------------------------------------------------------------------

/// A pair of a query makes a parameter: its name and value are as they are
/// written, and it is enabled.
pub open spec fn pair_makes(pair: Seq<char>, p: ParamV) -> bool {
    &&& p.kind == ParamKind::Query
    &&& p.kv.enabled
    &&& p.kv.description.len() == 0
    &&& !p.kv.key.contains('=')
    &&& pair == p.kv.key + "="@ + p.kv.value || (pair == p.kv.key && p.kv.value.len() == 0)
}

proof fn lemma_pair(pair: Seq<char>)
    ensures
        pair_makes(pair, super::postman::pair_param(pair)),
{
    reveal_strlit("=");
    lemma_first_at(pair, "="@, 0);
    let key = super::postman::pair_param(pair).kv.key;
    assert forall|k: int| 0 <= k < key.len() implies key[k] != '=' by {
        if key[k] == '=' {
            assert(pair.subrange(k, k + 1) =~= "="@);
            assert(occurs_at(pair, "="@, k));
        }
    }
    if let Some(i) = first_at(pair, "="@, 0) {
        assert(pair.subrange(i, i + 1)[0] == '=');
        assert(pair =~= pair.take(i) + "="@ + pair.skip(i + 1));
    }
}

proof fn lemma_pairs(pairs: Seq<Seq<char>>)
    ensures
        picks(
            pairs,
            |s: Seq<char>| s.len() > 0,
            |s: Seq<char>, p: ParamV| pair_makes(s, p),
            pair_params(pairs),
        ),
    decreases pairs.len(),
{
    let keep = |s: Seq<char>| s.len() > 0;
    let fits = |s: Seq<char>, p: ParamV| pair_makes(s, p);
    if pairs.len() == 0 {
        lemma_picks_none(pairs, keep, fits, pair_params(pairs));
    } else {
        lemma_pairs(pairs.drop_last());
        lemma_pair(pairs.last());
        if keep(pairs.last()) {
            assert(pair_params(pairs).drop_last() =~= pair_params(pairs.drop_last()));
        }
        lemma_picks_more(pairs, keep, fits, pair_params(pairs.drop_last()), pair_params(pairs));
    }
}

proof fn lemma_first_piece(a: Seq<char>, sep: char, b: Seq<char>)
    requires
        !a.contains(sep),
        b.len() > 0 ==> b[0] == sep,
    ensures
        split_on(a + b, sep).len() > 0,
        split_on(a + b, sep)[0] == a,
    decreases a.len() + b.len(),
{
    let s = a + b;
    if b.len() > 0 {
        assert(s.drop_last() =~= a + b.drop_last());
        lemma_first_piece(a, sep, b.drop_last());
        if b.len() == 1 {
            assert(s.last() == sep);
        } else {
            if s.last() != sep {
                lemma_two_pieces(a, sep, b.drop_last());
            }
        }
    } else {
        assert(s =~= a);
        if a.len() > 0 {
            assert forall|i: int| 0 <= i < a.drop_last().len() implies a.drop_last()[i] != sep by {
                assert(a.contains(a[i]));
            }
            lemma_first_piece(a.drop_last(), sep, Seq::empty());
            lemma_one_piece(a.drop_last(), sep);
            assert(a.drop_last() + Seq::empty() =~= a.drop_last());
            assert(a.contains(a.last()));
            assert(a.drop_last().push(a.last()) =~= a);
        }
    }
}

proof fn lemma_one_piece(a: Seq<char>, sep: char)
    requires
        !a.contains(sep),
    ensures
        split_on(a, sep) == seq![a],
    decreases a.len(),
{
    if a.len() == 0 {
        assert(a =~= Seq::empty());
    } else {
        assert forall|i: int| 0 <= i < a.drop_last().len() implies a.drop_last()[i] != sep by {
            assert(a.contains(a[i]));
        }
        lemma_one_piece(a.drop_last(), sep);
        assert(a.contains(a.last()));
        assert(a.drop_last().push(a.last()) =~= a);
        assert(split_on(a, sep) =~= seq![a]);
    }
}

proof fn lemma_two_pieces(a: Seq<char>, sep: char, b: Seq<char>)
    requires
        b.len() > 0,
        b[0] == sep,
    ensures
        split_on(a + b, sep).len() > 1,
    decreases b.len(),
{
    assert((a + b).drop_last() =~= a + b.drop_last());
    if b.len() == 1 {
        crate::words::lemma_split_on(a, sep);
        assert(a + b.drop_last() =~= a);
    } else {
        lemma_two_pieces(a, sep, b.drop_last());
    }
}

/// A URL that is written with a query is kept without it, and the pairs of the
/// query become parameters, in order. What stands behind `#` is no query.
pub proof fn lemma_written_query_becomes_parameters(base: Seq<char>, pairs: Seq<Seq<char>>, fragment: Seq<char>)
    requires
        !base.contains('?'),
        pairs.len() > 0,
        forall|i: int| 0 <= i < pairs.len() ==> !(#[trigger] pairs[i]).contains('&') && !pairs[i].contains('#'),
        fragment.len() > 0 ==> fragment[0] == '#',
    ensures
        ({
            let (url, params) = url_of(JsonV::String(base + "?"@ + joined(pairs, "&"@) + fragment));
            &&& url == base
            &&& picks(pairs, |s: Seq<char>| s.len() > 0, |s: Seq<char>, p: ParamV| pair_makes(s, p), params)
        }),
{
    let query = joined(pairs, "&"@);
    let raw = base + "?"@ + query + fragment;
    lemma_no_hash(pairs);
    lemma_query_text(base, query, fragment);
    reveal_strlit("&");
    assert("&"@ =~= seq!['&']);
    lemma_split_joined(pairs, '&');
    lemma_pairs(pairs);
    let value = JsonV::String(raw);
    assert(url_params(seq![], ParamKind::Query).len() == 0);
    assert(url_params(seq![], ParamKind::Path).len() == 0);
    assert(raw_url(value) == raw);
    assert(super::postman::query_params(value) == pair_params(pairs));
    assert(url_of(value).1 =~= pair_params(pairs));
}

proof fn lemma_query_text(base: Seq<char>, query: Seq<char>, fragment: Seq<char>)
    requires
        !base.contains('?'),
        !query.contains('#'),
        fragment.len() > 0 ==> fragment[0] == '#',
    ensures
        split_on(base + "?"@ + query + fragment, '?')[0] == base,
        super::postman::query_text(base + "?"@ + query + fragment) == query,
{
    let tail = query + fragment;
    assert(base + "?"@ + query + fragment =~= base + "?"@ + tail);
    lemma_cut_at_query(base, tail);
    lemma_first_piece(query, '#', fragment);
}

proof fn lemma_cut_at_query(base: Seq<char>, tail: Seq<char>)
    requires
        !base.contains('?'),
    ensures
        split_on(base + "?"@ + tail, '?')[0] == base,
        first_at(base + "?"@ + tail, "?"@, 0) == Some(base.len() as int),
        (base + "?"@ + tail).skip(base.len() as int + 1) == tail,
{
    reveal_strlit("?");
    let mark = "?"@ + tail;
    assert(mark[0] == '?');
    lemma_first_piece(base, '?', mark);
    assert(base + "?"@ + tail =~= base + mark);
    lemma_mark_comes_first(base, tail);
    assert((base + "?"@ + tail).skip(base.len() as int + 1) =~= tail);
}

proof fn lemma_mark_comes_first(base: Seq<char>, tail: Seq<char>)
    requires
        !base.contains('?'),
    ensures
        first_at(base + "?"@ + tail, "?"@, 0) == Some(base.len() as int),
{
    reveal_strlit("?");
    let raw = base + "?"@ + tail;
    let n = base.len() as int;
    assert(raw.subrange(n, n + 1) =~= "?"@);
    assert forall|k: int| 0 <= k < n implies !#[trigger] occurs_at(raw, "?"@, k) by {
        if occurs_at(raw, "?"@, k) {
            assert(raw.subrange(k, k + 1)[0] == '?');
            assert(base.contains(base[k]));
        }
    }
    crate::filling_laws::lemma_first_is(raw, "?"@, n, 0);
}

proof fn lemma_no_hash(pairs: Seq<Seq<char>>)
    requires
        forall|i: int| 0 <= i < pairs.len() ==> !(#[trigger] pairs[i]).contains('#'),
    ensures
        !joined(pairs, "&"@).contains('#'),
    decreases pairs.len(),
{
    reveal_strlit("&");
    if pairs.len() == 1 {
        assert(!pairs[0].contains('#'));
    } else if pairs.len() > 1 {
        lemma_no_hash(pairs.drop_last());
        let a = joined(pairs.drop_last(), "&"@);
        let b = pairs.last();
        assert(!pairs[pairs.len() - 1].contains('#'));
        let all = a + "&"@ + b;
        assert forall|i: int| 0 <= i < all.len() implies all[i] != '#' by {
            if i < a.len() {
                assert(a.contains(a[i]));
            } else if i > a.len() {
                assert(b.contains(b[i - a.len() - 1]));
            }
        }
    }
}

/// A URL without a query is kept as it is written, and has no query parameters.
pub proof fn lemma_plain_url_is_kept(raw: Seq<char>)
    requires
        !raw.contains('?'),
    ensures
        url_of(JsonV::String(raw)).0 == raw,
        url_of(JsonV::String(raw)).1.len() == 0,
{
    reveal_strlit("?");
    lemma_one_piece(raw, '?');
    lemma_first_at(raw, "?"@, 0);
    if let Some(i) = first_at(raw, "?"@, 0) {
        assert(raw.subrange(i, i + 1)[0] == '?');
        assert(raw.contains(raw[i]));
    }
    lemma_one_piece(Seq::empty(), '&');
    let none = seq![Seq::<char>::empty()];
    assert(none.drop_last() =~= Seq::empty());
    assert(pair_params(none.drop_last()).len() == 0);
    assert(pair_params(none).len() == 0);
}

/// A URL node that lists its parameters has those, first the query, then the
/// path. Its text is `raw`, or host and path put together.
pub proof fn lemma_listed_parameters_are_taken(url: JsonV)
    requires
        url is Object,
    ensures
        url_params(some_list(url, "query"@), ParamKind::Query).len() > 0 ==> url_of(url).1 == url_params(
            some_list(url, "query"@),
            ParamKind::Query,
        ) + url_params(some_list(url, "variable"@), ParamKind::Path),
        some_text(url, "raw"@).len() > 0 ==> raw_url(url) == some_text(url, "raw"@),
        some_text(url, "raw"@).len() == 0 && member(url, "path"@) is None ==> raw_url(url) == host_of(url),
        some_text(url, "raw"@).len() == 0 ==> (member(url, "path"@) matches Some(JsonV::Array(items)) ==> (full_texts(
            items,
        ).len() > 0 && full_texts(items)[0].len() > 0 ==> raw_url(url) == host_of(url) + "/"@ + joined(
            full_texts(items),
            "/"@,
        ))),
{
    if let Some(JsonV::Array(items)) = member(url, "path"@) {
        if full_texts(items).len() > 0 && full_texts(items)[0].len() > 0 {
            lemma_joined_longer(full_texts(items));
        }
    }
}

/// The host of a URL node: a text, or its labels with dots between them.
pub open spec fn host_of(url: JsonV) -> Seq<char> {
    match member(url, "host"@) {
        Some(JsonV::String(s)) => s,
        Some(JsonV::Array(labels)) => joined(full_texts(labels), "."@),
        _ => seq![],
    }
}

proof fn lemma_joined_longer(parts: Seq<Seq<char>>)
    requires
        parts.len() > 0,
        parts[0].len() > 0,
    ensures
        joined(parts, "/"@).len() > 0,
    decreases parts.len(),
{
    if parts.len() > 1 {
        lemma_joined_longer(parts.drop_last());
    }
}

/// Of a list of texts those count that are not empty.
pub proof fn lemma_texts_that_are_not_empty_count(items: Seq<JsonV>)
    ensures
        picks(
            items,
            |v: JsonV| v is String && v->String_0.len() > 0,
            |v: JsonV, s: Seq<char>| v == JsonV::String(s),
            full_texts(items),
        ),
    decreases items.len(),
{
    let keep = |v: JsonV| v is String && v->String_0.len() > 0;
    let fits = |v: JsonV, s: Seq<char>| v == JsonV::String(s);
    if items.len() == 0 {
        lemma_picks_none(items, keep, fits, full_texts(items));
    } else {
        lemma_texts_that_are_not_empty_count(items.drop_last());
        if keep(items.last()) {
            assert(full_texts(items).drop_last() =~= full_texts(items.drop_last()));
        }
        lemma_picks_more(items, keep, fits, full_texts(items.drop_last()), full_texts(items));
    }
}

// ---------------------------------------------------------------------
// Requests and trees
// ---------------------------------------------------------------------

/// The name of a node.
pub open spec fn name_of(node: JsonV) -> Seq<char> {
    match member(node, "name"@) {
        Some(JsonV::String(s)) => s,
        _ => "Unnamed"@,
    }
}

/// A request is what its node says: name, method, URL, parameters, headers,
/// auth, body and scripts, each from its own place. A node that is a URL alone
/// is a `GET` of it.
pub proof fn lemma_request_is_what_its_node_says(item: JsonV, path: Seq<char>)
    ensures
        member(item, "request"@) matches Some(JsonV::String(url)) ==> {
            let def = request_of(item, path).0;
            &&& def.name == name_of(item)
            &&& def.method == Method::Get
            &&& def.url == url
            &&& def.params.len() == 0 && def.headers.len() == 0
            &&& def.auth is Inherit && def.body is Empty
            &&& def.scripts == scripts_of(item)
        },
        member(item, "request"@) matches Some(JsonV::Object(pairs)) ==> {
            let req = JsonV::Object(pairs);
            let def = request_of(item, path).0;
            &&& def.name == name_of(item)
            &&& def.description == described(req)
            &&& def.url == url_of(below(req, "url"@)).0
            &&& def.params == url_of(below(req, "url"@)).1
            &&& def.headers == rows_of(some_list(req, "header"@))
            &&& def.auth == auth_of(below(req, "auth"@), path).0
            &&& def.body == body_of(below(req, "body"@), path).0
            &&& def.scripts == scripts_of(item)
            &&& def.assertions.len() == 0 && def.extractors.len() == 0
            &&& text_under(req, "method"@) is None ==> def.method == Method::Get
            &&& text_under(req, "method"@) matches Some(m) ==> match method_named(m, 8) {
                Some(method) => def.method == method,
                None => def.method == Method::Get && request_of(item, path).1.contains(
                    path + ": unsupported method "@ + m + ", imported as GET"@,
                ),
            }
        },
{
    if let Some(JsonV::Object(pairs)) = member(item, "request"@) {
        let req = JsonV::Object(pairs);
        if let Some(m) = text_under(req, "method"@) {
            if method_named(m, 8) is None {
                assert(request_of(item, path).1[0] == path + ": unsupported method "@ + m + ", imported as GET"@);
            }
        } else {
            lemma_get_is_a_method();
        }
    }
}

proof fn lemma_get_is_a_method()
    ensures
        method_named("GET"@, 8) == Some(Method::Get),
{
    reveal_with_fuel(method_named, 9);
    reveal_strlit("GET");
    assert(crate::model::all_methods().len() == 8);
    assert(crate::model::all_methods()[0] == Method::Get);
    assert(crate::text::same_ignoring_case("GET"@, crate::model::all_methods()[0].name()));
}

/// What one more node adds to an import: a folder with what is in it where the
/// node holds a list of items, else a request where it describes one, else only
/// a note.
pub proof fn lemma_each_node_adds_its_item(nodes: Seq<JsonV>, node: JsonV, path: Seq<char>)
    ensures
        ({
            let n = nodes.len() as int;
            let here = if path.len() == 0 {
                name_of(node)
            } else {
                path + "/"@ + name_of(node)
            };
            let before = tree_of(nodes, path, n);
            let after = tree_of(nodes.push(node), path, n + 1);
            &&& tree_of(seq![], path, 0) == (Seq::<ItemV>::empty(), Seq::<Seq<char>>::empty())
            &&& member(node, "item"@) matches Some(JsonV::Array(children)) ==> {
                let inner = tree_of(children, here, children.len() as int);
                &&& after.0.len() == before.0.len() + 1 && after.0.drop_last() == before.0
                &&& after.0.last() matches ItemV::Folder { name, description, auth, hooks, items } && name == name_of(node)
                    && description == described(node) && auth == auth_of(below(node, "auth"@), here).0 && hooks
                    == hooks_of(node) && items == inner.0
                &&& after.1 == before.1 + (auth_of(below(node, "auth"@), here).1 + inner.1)
            }
            &&& !(member(node, "item"@) matches Some(JsonV::Array(_))) && (below(node, "request"@) is Object || below(
                node,
                "request"@,
            ) is String) ==> {
                &&& after.0 == before.0.push(ItemV::Request(request_of(node, here).0))
                &&& after.1 == before.1 + request_of(node, here).1
            }
            &&& !(member(node, "item"@) matches Some(JsonV::Array(_))) && !(below(node, "request"@) is Object || below(
                node,
                "request"@,
            ) is String) ==> {
                &&& after.0 == before.0
                &&& after.1 == before.1.push(here + ": unrecognized item, skipped"@)
            }
        }),
{
    let n = nodes.len() as int;
    lemma_tree_prefix(nodes, node, path, n);
    assert(nodes.push(node)[n] == node);
    let before = tree_of(nodes, path, n);
    let after = tree_of(nodes.push(node), path, n + 1);
    if let Some(JsonV::Array(children)) = member(node, "item"@) {
        assert(after.0.drop_last() =~= before.0);
    } else {
        let here = if path.len() == 0 {
            name_of(node)
        } else {
            path + "/"@ + name_of(node)
        };
        let note = here + ": unrecognized item, skipped"@;
        assert(before.1 + seq![note] =~= before.1.push(note));
    }
}

proof fn lemma_tree_prefix(nodes: Seq<JsonV>, node: JsonV, path: Seq<char>, n: int)
    requires
        0 <= n <= nodes.len(),
    ensures
        tree_of(nodes.push(node), path, n) == tree_of(nodes, path, n),
    decreases n,
{
    if n > 0 {
        lemma_tree_prefix(nodes, node, path, n - 1);
    }
}

/// The number of requests of an import: one for each request, and those in the
/// folders.
pub proof fn lemma_requests_are_counted_once(
    first: Seq<ItemV>,
    def: RequestDefV,
    name: Seq<char>,
    description: Seq<char>,
    auth: AuthV,
    hooks: HooksDefV,
    items: Seq<ItemV>,
)
    ensures
        requests_in(seq![], 0) == 0,
        requests_in(first.push(ItemV::Request(def)), first.len() as int + 1) == requests_in(first, first.len() as int) + 1,
        requests_in(first.push(ItemV::Folder { name, description, auth, hooks, items }), first.len() as int + 1) == requests_in(
            first,
            first.len() as int,
        ) + requests_in(items, items.len() as int),
{
    lemma_requests_prefix(first, ItemV::Request(def), first.len() as int);
    lemma_requests_prefix(first, ItemV::Folder { name, description, auth, hooks, items }, first.len() as int);
}

proof fn lemma_requests_prefix(first: Seq<ItemV>, item: ItemV, n: int)
    requires
        0 <= n <= first.len(),
    ensures
        requests_in(first.push(item), n) == requests_in(first, n),
    decreases n,
{
    if n > 0 {
        lemma_requests_prefix(first, item, n - 1);
    }
}

/// A collection is what its root says: it has a name and a list of items, or it
/// is none.
pub proof fn lemma_collection_is_what_its_root_says(root: JsonV)
    ensures
        collection_of(root) is Ok <==> (some_text(below(root, "info"@), "name"@).len() > 0 && (member(root, "item"@)
            matches Some(JsonV::Array(_)))),
        collection_of(root) matches Err(e) ==> e == PostmanErrorV::NotACollection,
        collection_of(root) matches Ok(c) ==> {
            let nodes = some_list(root, "item"@);
            let tree = tree_of(nodes, seq![], nodes.len() as int);
            &&& c.name == some_text(below(root, "info"@), "name"@)
            &&& c.description == described(below(root, "info"@))
            &&& c.variables == row_params(some_list(root, "variable"@))
            &&& c.auth == auth_of(below(root, "auth"@), "collection"@).0
            &&& c.hooks == hooks_of(root)
            &&& c.items == tree.0
            &&& c.skipped == tree.1 + auth_of(below(root, "auth"@), "collection"@).1
        },
{
}

// ---------------------------------------------------------------------
// Environments
// ---------------------------------------------------------------------

/// An environment is what its root says: it has a name and a list of values, or
/// it is none.
pub proof fn lemma_environment_is_what_its_root_says(root: JsonV)
    ensures
        environment_of(root) is Ok <==> (some_text(root, "name"@).len() > 0 && (member(root, "values"@) matches Some(
            JsonV::Array(_),
        ))),
        environment_of(root) matches Err(e) ==> e == PostmanErrorV::NotAnEnvironment,
        environment_of(root) matches Ok(r) ==> r.0.name == some_text(root, "name"@) && r.0.variables == env_rows(
            some_list(root, "values"@),
        ).0 && r.1 == env_rows(some_list(root, "values"@)).1,
{
}

/// A variable of an environment is what the last row of its name says: a plain
/// one has its value; a secret one has none there, and its value, where it has
/// one, is kept apart.
pub proof fn lemma_last_value_of_a_name_counts(rows: Seq<JsonV>, name: Seq<char>, i: int)
    requires
        0 <= i < rows.len(),
        text_under(rows[i], "key"@) == Some(name),
        forall|j: int| i < j < rows.len() ==> text_under(#[trigger] rows[j], "key"@) != Some(name),
    ensures
        text_under(rows[i], "type"@) != Some("secret"@) ==> lookup(env_rows(rows).0, name) == Some(
            EnvVarV { value: Some(value_under(rows[i])), secret: false },
        ),
        text_under(rows[i], "type"@) == Some("secret"@) ==> lookup(env_rows(rows).0, name) == Some(
            EnvVarV { value: None, secret: true },
        ) && (value_under(rows[i]).len() > 0 ==> lookup(env_rows(rows).1, name) == Some(value_under(rows[i]))),
    decreases rows.len(),
{
    let less = rows.drop_last();
    let row = rows.last();
    let value = value_under(row);
    let (vars, secrets) = env_rows(less);
    if i == rows.len() - 1 {
        lemma_put_is_read_back(vars, name, EnvVarV { value: None, secret: true });
        lemma_put_is_read_back(vars, name, EnvVarV { value: Some(value), secret: false });
        lemma_put_is_read_back(secrets, name, value);
    } else {
        assert(text_under(rows[rows.len() - 1], "key"@) != Some(name));
        assert(less[i] == rows[i]);
        assert forall|j: int| i < j < less.len() implies text_under(#[trigger] less[j], "key"@) != Some(name) by {
            assert(less[j] == rows[j]);
        }
        lemma_last_value_of_a_name_counts(less, name, i);
        if let Some(key) = text_under(row, "key"@) {
            lemma_put_leaves_others(vars, key, EnvVarV { value: None, secret: true }, name);
            lemma_put_leaves_others(vars, key, EnvVarV { value: Some(value), secret: false }, name);
            lemma_put_leaves_others(secrets, key, value, name);
        }
    }
}

} // verus!
