//! How requests authenticate.

use vstd::prelude::*;

use crate::view::{copy_list, copy_opt, opt_view, views, Copied};

verus! {

broadcast use vstd::string::group_string_axioms;

/// Where an API key goes.
#[derive(Debug, Clone, Copy, PartialEq, Eq, Structural)]
pub enum ApiKeyPlacement {
    Header,
    Query,
}

/// How a request authenticates.
#[derive(Debug)]
#[allow(inconsistent_fields)]
pub enum AuthConfig {
    /// As the parent folder or collection does.
    Inherit,
    NoAuth,
    Basic { username: String, password: String },
    Bearer { token: String, prefix: Option<String> },
    ApiKey { key: String, value: String, placement: ApiKeyPlacement },
    Digest { username: String, password: String },
    Ntlm { username: String, password: String, domain: String },
    AwsSigV4 { access_key: String, secret_key: String, session_token: Option<String>, region: String, service: String },
    OAuth2ClientCredentials { token_url: String, client_id: String, client_secret: String, scopes: Vec<String>, credentials_in_body: bool },
    OAuth2AuthCode { auth_url: String, token_url: String, client_id: String, client_secret: Option<String>, scopes: Vec<String>, redirect_port: Option<u16>, pkce: bool },
}

/// What [`AuthConfig`] holds.
#[allow(inconsistent_fields)]
pub enum AuthV {
    Inherit,
    NoAuth,
    Basic { username: Seq<char>, password: Seq<char> },
    Bearer { token: Seq<char>, prefix: Option<Seq<char>> },
    ApiKey { key: Seq<char>, value: Seq<char>, placement: ApiKeyPlacement },
    Digest { username: Seq<char>, password: Seq<char> },
    Ntlm { username: Seq<char>, password: Seq<char>, domain: Seq<char> },
    AwsSigV4 { access_key: Seq<char>, secret_key: Seq<char>, session_token: Option<Seq<char>>, region: Seq<char>, service: Seq<char> },
    OAuth2ClientCredentials { token_url: Seq<char>, client_id: Seq<char>, client_secret: Seq<char>, scopes: Seq<Seq<char>>, credentials_in_body: bool },
    OAuth2AuthCode { auth_url: Seq<char>, token_url: Seq<char>, client_id: Seq<char>, client_secret: Option<Seq<char>>, scopes: Seq<Seq<char>>, redirect_port: Option<u16>, pkce: bool },
}

impl View for AuthConfig {
    type V = AuthV;

    open spec fn view(&self) -> AuthV {
        match self {
            AuthConfig::Inherit => AuthV::Inherit,
            AuthConfig::NoAuth => AuthV::NoAuth,
            AuthConfig::Basic { username, password } => AuthV::Basic {
                username: username@,
                password: password@,
            },
            AuthConfig::Bearer { token, prefix } => AuthV::Bearer {
                token: token@,
                prefix: opt_view(*prefix),
            },
            AuthConfig::ApiKey { key, value, placement } => AuthV::ApiKey {
                key: key@,
                value: value@,
                placement: *placement,
            },
            AuthConfig::Digest { username, password } => AuthV::Digest {
                username: username@,
                password: password@,
            },
            AuthConfig::Ntlm { username, password, domain } => AuthV::Ntlm {
                username: username@,
                password: password@,
                domain: domain@,
            },
            AuthConfig::AwsSigV4 { access_key, secret_key, session_token, region, service } => AuthV::AwsSigV4 {
                access_key: access_key@,
                secret_key: secret_key@,
                session_token: opt_view(*session_token),
                region: region@,
                service: service@,
            },
            AuthConfig::OAuth2ClientCredentials { token_url, client_id, client_secret, scopes, credentials_in_body } => AuthV::OAuth2ClientCredentials {
                token_url: token_url@,
                client_id: client_id@,
                client_secret: client_secret@,
                scopes: views(scopes@),
                credentials_in_body: *credentials_in_body,
            },
            AuthConfig::OAuth2AuthCode { auth_url, token_url, client_id, client_secret, scopes, redirect_port, pkce } => AuthV::OAuth2AuthCode {
                auth_url: auth_url@,
                token_url: token_url@,
                client_id: client_id@,
                client_secret: opt_view(*client_secret),
                scopes: views(scopes@),
                redirect_port: *redirect_port,
                pkce: *pkce,
            },
        }
    }
}

impl Copied for AuthConfig {
    fn copied(&self) -> (r: Self) {
        match self {
            AuthConfig::Inherit => AuthConfig::Inherit,
            AuthConfig::NoAuth => AuthConfig::NoAuth,
            AuthConfig::Basic { username, password } => AuthConfig::Basic {
                username: username.clone(),
                password: password.clone(),
            },
            AuthConfig::Bearer { token, prefix } => AuthConfig::Bearer {
                token: token.clone(),
                prefix: copy_opt(prefix),
            },
            AuthConfig::ApiKey { key, value, placement } => AuthConfig::ApiKey {
                key: key.clone(),
                value: value.clone(),
                placement: *placement,
            },
            AuthConfig::Digest { username, password } => AuthConfig::Digest {
                username: username.clone(),
                password: password.clone(),
            },
            AuthConfig::Ntlm { username, password, domain } => AuthConfig::Ntlm {
                username: username.clone(),
                password: password.clone(),
                domain: domain.clone(),
            },
            AuthConfig::AwsSigV4 { access_key, secret_key, session_token, region, service } => AuthConfig::AwsSigV4 {
                access_key: access_key.clone(),
                secret_key: secret_key.clone(),
                session_token: copy_opt(session_token),
                region: region.clone(),
                service: service.clone(),
            },
            AuthConfig::OAuth2ClientCredentials { token_url, client_id, client_secret, scopes, credentials_in_body } => AuthConfig::OAuth2ClientCredentials {
                token_url: token_url.clone(),
                client_id: client_id.clone(),
                client_secret: client_secret.clone(),
                scopes: copy_list(scopes),
                credentials_in_body: *credentials_in_body,
            },
            AuthConfig::OAuth2AuthCode { auth_url, token_url, client_id, client_secret, scopes, redirect_port, pkce } => AuthConfig::OAuth2AuthCode {
                auth_url: auth_url.clone(),
                token_url: token_url.clone(),
                client_id: client_id.clone(),
                client_secret: copy_opt(client_secret),
                scopes: copy_list(scopes),
                redirect_port: *redirect_port,
                pkce: *pkce,
            },
        }
    }
}

impl AuthConfig {
    /// Whether the parent decides.
    pub fn is_inherit(&self) -> (r: bool)
        ensures
            r == (self@ is Inherit),
    {
        matches!(self, AuthConfig::Inherit)
    }
}

} // verus!
