//! Signing in to Box: which token a request uses, when the saved tokens must be refreshed,
//! what a finished login or refresh writes into the settings, the authorize address, and
//! the code that Box's redirect brings back. The clock, the browser and the sockets are the
//! caller's.
use vstd::prelude::*;
use crate::box_api::{self, BoxUser, OAuthTokenResponse};
use crate::config::{Config, ConfigModel};
use crate::text::{self, from_chars, push_str, to_chars};

verus! {

/// What `ensure_access_token` does with the saved settings.
pub enum TokenDecision {
    /// Use this token.
    Use { token: String },
    /// Ask Box for new tokens with the refresh token, then save them with `record_tokens`.
    Refresh { client_id: String, client_secret: String, refresh_token: String },
    /// Fail with this message.
    Fail { message: String },
}

pub enum TokenPlan {
    Use(Seq<char>),
    Refresh(Seq<char>, Seq<char>, Seq<char>),
    Fail(Seq<char>),
}

impl View for TokenDecision {
    type V = TokenPlan;

    open spec fn view(&self) -> TokenPlan {
        match self {
            TokenDecision::Use { token } => TokenPlan::Use(token@),
            TokenDecision::Refresh { client_id, client_secret, refresh_token } => TokenPlan::Refresh(
                client_id@,
                client_secret@,
                refresh_token@,
            ),
            TokenDecision::Fail { message } => TokenPlan::Fail(message@),
        }
    }
}

/// The saved access token is still good at `now` (seconds since the epoch): it expires more
/// than a minute later.
pub open spec fn access_token_fresh(c: ConfigModel, now: i64) -> bool {
    c.access_token is Some && match c.expires_at {
        Some(exp) => now < exp - 60,
        None => false,
    }
}

/// `ensure_access_token`: a developer token first; else a fresh access token; else a
/// refresh, for which the client id, the client secret and a refresh token are needed.
pub open spec fn token_plan(c: ConfigModel, now: i64) -> TokenPlan {
    match c.developer_token {
        Some(t) => TokenPlan::Use(t),
        None => if access_token_fresh(c, now) {
            TokenPlan::Use(c.access_token->0)
        } else {
            match c.client_id {
                None => TokenPlan::Fail("クライアントIDが設定されていません"@),
                Some(id) => match c.client_secret {
                    None => TokenPlan::Fail("クライアントシークレットが設定されていません"@),
                    Some(secret) => match c.refresh_token {
                        Some(r) => TokenPlan::Refresh(id, secret, r),
                        None => TokenPlan::Fail("OAuth ログインが必要です"@),
                    },
                },
            }
        },
    }
}

/// What `ensure_access_token` does at `now` with the settings `config`.
pub fn token_decision(config: &Config, now: i64) -> (r: TokenDecision)
    ensures
        r@ == token_plan(config@, now),
{
    if let Some(t) = &config.developer_token {
        return TokenDecision::Use { token: t.clone() };
    }
    if let Some(t) = &config.access_token {
        if let Some(exp) = config.expires_at {
            if (now as i128) < (exp as i128) - 60 {
                return TokenDecision::Use { token: t.clone() };
            }
        }
    }
    match &config.client_id {
        None => TokenDecision::Fail { message: "クライアントIDが設定されていません".to_string() },
        Some(id) => match &config.client_secret {
            None => TokenDecision::Fail {
                message: "クライアントシークレットが設定されていません".to_string(),
            },
            Some(secret) => match &config.refresh_token {
                Some(r) => TokenDecision::Refresh {
                    client_id: id.clone(),
                    client_secret: secret.clone(),
                    refresh_token: r.clone(),
                },
                None => TokenDecision::Fail { message: "OAuth ログインが必要です".to_string() },
            },
        },
    }
}

/// The settings after Box issued `tokens` at `now`: the new access and refresh tokens,
/// expiring `expires_in` seconds later; nothing else changes.
pub open spec fn with_tokens(c: ConfigModel, tokens: OAuthTokenResponse, now: i64) -> ConfigModel {
    ConfigModel {
        access_token: Some(tokens.access_token@),
        refresh_token: Some(tokens.refresh_token@),
        expires_at: Some((now + tokens.expires_in) as i64),
        ..c
    }
}

/// Saves tokens that Box issued at `now` into the settings.
pub fn record_tokens(config: Config, tokens: OAuthTokenResponse, now: i64) -> (r: Config)
    requires
        tokens.expires_in <= i64::MAX,
        now + tokens.expires_in <= i64::MAX,
    ensures
        r@ == with_tokens(config@, tokens, now),
        r.expires_at matches Some(e) && e == now + tokens.expires_in,
{
    let mut c = config;
    let expires_in = tokens.expires_in as i64;
    assert(expires_in == tokens.expires_in);
    let expires_at = now + expires_in;
    c.access_token = Some(tokens.access_token);
    c.refresh_token = Some(tokens.refresh_token);
    c.expires_at = Some(expires_at);
    c
}

/// A login form value counts where it is not blank, and is saved trimmed.
pub open spec fn merged_credential(saved: Option<Seq<char>>, given: Option<Seq<char>>) -> Option<
    Seq<char>,
> {
    match given {
        Some(g) => if text::trim(g).len() > 0 {
            Some(text::trim(g))
        } else {
            saved
        },
        None => saved,
    }
}

fn merge_credential(saved: Option<String>, given: Option<String>) -> (r: Option<String>)
    ensures
        crate::config::opt_text(r) == merged_credential(
            crate::config::opt_text(saved),
            crate::config::opt_text(given),
        ),
{
    match given {
        Some(g) => {
            if text::is_blank(g.as_str()) {
                saved
            } else {
                Some(text::trimmed(g.as_str()))
            }
        },
        None => saved,
    }
}

/// `box_oauth_login` before the browser opens: the settings with the given client id and
/// secret, or the error when either is still missing (the settings are then not saved).
pub fn prepare_login(config: Config, client_id: Option<String>, client_secret: Option<String>) -> (r:
    Result<Config, String>)
    ensures
        ({
            let id = merged_credential(config@.client_id, crate::config::opt_text(client_id));
            let secret = merged_credential(
                config@.client_secret,
                crate::config::opt_text(client_secret),
            );
            match r {
                Ok(c) => id is Some && secret is Some && c@ == (ConfigModel {
                    client_id: id,
                    client_secret: secret,
                    ..config@
                }),
                Err(e) => if id is None {
                    e@ == "クライアントIDが設定されていません"@
                } else {
                    secret is None && e@ == "クライアントシークレットが設定されていません"@
                },
            }
        }),
{
    let mut c = config;
    let saved_id = c.client_id;
    let saved_secret = c.client_secret;
    c.client_id = merge_credential(saved_id, client_id);
    c.client_secret = merge_credential(saved_secret, client_secret);
    if c.client_id.is_none() {
        return Err("クライアントIDが設定されていません".to_string());
    }
    if c.client_secret.is_none() {
        return Err("クライアントシークレットが設定されていません".to_string());
    }
    Ok(c)
}

/// The redirect address registered with Box.
pub open spec fn redirect_uri() -> Seq<char> {
    "http://localhost:8000/callback"@
}

/// The redirect address, percent-encoded for a query string.
pub open spec fn redirect_uri_encoded() -> Seq<char> {
    "http%3A%2F%2Flocalhost%3A8000%2Fcallback"@
}

pub fn oauth_redirect_uri() -> (r: String)
    ensures
        r@ == redirect_uri(),
{
    "http://localhost:8000/callback".to_string()
}

pub open spec fn authorize_url_spec(client_id: Seq<char>, state: Seq<char>) -> Seq<char> {
    "https://account.box.com/api/oauth2/authorize?response_type=code&client_id="@ + client_id
        + "&redirect_uri="@ + redirect_uri_encoded() + "&state="@ + state
}

/// The Box page where the user signs in and allows this client.
pub fn authorize_url(client_id: &str, state: &str) -> (r: String)
    ensures
        r@ == authorize_url_spec(client_id@, state@),
{
    let mut v: Vec<char> = Vec::new();
    push_str(&mut v, "https://account.box.com/api/oauth2/authorize?response_type=code&client_id=");
    push_str(&mut v, client_id);
    push_str(&mut v, "&redirect_uri=");
    push_str(&mut v, "http%3A%2F%2Flocalhost%3A8000%2Fcallback");
    push_str(&mut v, "&state=");
    push_str(&mut v, state);
    assert(v@ =~= authorize_url_spec(client_id@, state@));
    from_chars(v.as_slice())
}

/// The path of the redirect with its query: `/callback?`.
pub open spec fn callback_prefix() -> Seq<char> {
    seq!['/', 'c', 'a', 'l', 'l', 'b', 'a', 'c', 'k', '?']
}

/// The target of an HTTP request: the second word of its first line.
pub open spec fn request_target(request: Seq<char>) -> Seq<char> {
    let ls = text::lines(request);
    let first = if ls.len() > 0 {
        ls[0]
    } else {
        seq![]
    };
    let w = text::words(first);
    if w.len() > 1 {
        w[1]
    } else {
        seq![]
    }
}

/// `wait_for_oauth_code` for one request: the code where the request is the redirect to
/// `/callback` with the expected `state` and a `code`.
pub open spec fn callback_code_spec(request: Seq<char>, expected_state: Seq<char>) -> Option<
    Seq<char>,
> {
    let target = request_target(request);
    if text::starts_with(target, callback_prefix()) {
        let query = target.skip(10);
        if box_api::query_param(query, "state"@) == Some(expected_state) {
            box_api::query_param(query, "code"@)
        } else {
            None
        }
    } else {
        None
    }
}

/// The authorization code that a request to the redirect address carries, if it is the
/// awaited one.
pub fn callback_code(request: &str, expected_state: &str) -> (r: Option<String>)
    ensures
        match r {
            Some(c) => callback_code_spec(request@, expected_state@) == Some(c@),
            None => callback_code_spec(request@, expected_state@) is None,
        },
{
    let c = to_chars(request);
    let ls = text::split_lines(&c);
    let ghost lv = ls@.map_values(|l: Vec<char>| l@);
    let first = if ls.len() > 0 {
        assert(lv[0] == ls@[0]@);
        from_chars(ls[0].as_slice())
    } else {
        String::new()
    };
    let w = text::split_whitespace(first.as_str());
    let target = if w.len() > 1 {
        assert(text::texts(w@)[1] == w@[1]@);
        w[1].clone()
    } else {
        String::new()
    };
    assert(target@ == request_target(request@));
    let t = to_chars(target.as_str());
    let prefix: [char; 10] = ['/', 'c', 'a', 'l', 'l', 'b', 'a', 'c', 'k', '?'];
    assert(prefix@ =~= callback_prefix());
    if !text::has_prefix(t.as_slice(), prefix.as_slice()) {
        return None;
    }
    let query = from_chars(&t.as_slice()[10..t.len()]);
    assert(t@.subrange(10, t@.len() as int) =~= target@.skip(10));
    let state = box_api::extract_query_param(query.as_str(), "state");
    let matches = match &state {
        Some(s) => text::equal_text(s.as_str(), expected_state),
        None => false,
    };
    if matches {
        box_api::extract_query_param(query.as_str(), "code")
    } else {
        None
    }
}

/// The settings after a browser login: the client credentials used and the tokens that
/// Box issued at `now`.
pub fn record_login(
    config: Config,
    client_id: String,
    client_secret: String,
    tokens: OAuthTokenResponse,
    now: i64,
) -> (r: Config)
    requires
        tokens.expires_in <= i64::MAX,
        now + tokens.expires_in <= i64::MAX,
    ensures
        r@ == with_tokens(
            ConfigModel { client_id: Some(client_id@), client_secret: Some(client_secret@), ..config@ },
            tokens,
            now,
        ),
{
    let mut c = config;
    c.client_id = Some(client_id);
    c.client_secret = Some(client_secret);
    record_tokens(c, tokens, now)
}

/// The settings after a developer token was accepted.
pub fn record_developer_token(config: Config, token: String) -> (r: Config)
    ensures
        r@ == (ConfigModel { developer_token: Some(token@), ..config@ }),
{
    let mut c = config;
    c.developer_token = Some(token);
    c
}

/// The message after a browser login.
pub fn login_message(user: &BoxUser) -> (r: String)
    ensures
        r@ == user.name@ + " ("@ + user.login@ + ") としてログインしました"@,
{
    let mut v: Vec<char> = Vec::new();
    push_str(&mut v, user.name.as_str());
    push_str(&mut v, " (");
    push_str(&mut v, user.login.as_str());
    push_str(&mut v, ") としてログインしました");
    assert(v@ =~= user.name@ + " ("@ + user.login@ + ") としてログインしました"@);
    from_chars(v.as_slice())
}

/// The message after a developer token login.
pub fn developer_login_message(user: &BoxUser) -> (r: String)
    ensures
        r@ == user.name@ + " ("@ + user.login@ + ") としてログインしました（デベロッパートークン）"@,
{
    let mut v: Vec<char> = Vec::new();
    push_str(&mut v, user.name.as_str());
    push_str(&mut v, " (");
    push_str(&mut v, user.login.as_str());
    push_str(&mut v, ") としてログインしました（デベロッパートークン）");
    assert(v@ =~= user.name@ + " ("@ + user.login@ + ") としてログインしました（デベロッパートークン）"@);
    from_chars(v.as_slice())
}

/// The developer token endpoint's input: the token trimmed, or the error for a blank one.
pub fn developer_token_input(token: &str) -> (r: Result<String, String>)
    ensures
        match r {
            Ok(t) => text::trim(token@).len() > 0 && t@ == text::trim(token@),
            Err(e) => text::trim(token@).len() == 0 && e@ == "デベロッパートークンを入力してください"@,
        },
{
    if text::is_blank(token) {
        Err("デベロッパートークンを入力してください".to_string())
    } else {
        Ok(text::trimmed(token))
    }
}

/// `auth_logout`: the settings without any token.
pub fn logout(config: Config) -> (r: Config)
    ensures
        r@ == (ConfigModel {
            access_token: None,
            refresh_token: None,
            expires_at: None,
            developer_token: None,
            ..config@
        }),
{
    let mut c = config;
    c.access_token = None;
    c.refresh_token = None;
    c.expires_at = None;
    c.developer_token = None;
    c
}

/// `auth_status`: whether a token is saved, and when the access token expires.
pub fn auth_status(config: &Config) -> (r: (bool, Option<i64>))
    ensures
        r.0 == (config.access_token is Some || config.developer_token is Some),
        r.1 == config.expires_at,
{
    (config.access_token.is_some() || config.developer_token.is_some(), config.expires_at)
}

pub open spec fn form_texts(v: Seq<(String, String)>) -> Seq<(Seq<char>, Seq<char>)> {
    box_api::pair_texts(v)
}

fn pair(k: &str, v: &str) -> (r: (String, String))
    ensures
        r.0@ == k@,
        r.1@ == v@,
{
    (k.to_string(), v.to_string())
}

/// `get_oauth_token`: the form posted to Box's token endpoint to trade an authorization
/// code for tokens.
pub fn authorization_code_form(client_id: &str, client_secret: &str, code: &str, redirect: &str) -> (r:
    Vec<(String, String)>)
    ensures
        form_texts(r@) == seq![
            ("grant_type"@, "authorization_code"@),
            ("client_id"@, client_id@),
            ("client_secret"@, client_secret@),
            ("code"@, code@),
            ("redirect_uri"@, redirect@),
        ],
{
    let mut v: Vec<(String, String)> = Vec::new();
    v.push(pair("grant_type", "authorization_code"));
    v.push(pair("client_id", client_id));
    v.push(pair("client_secret", client_secret));
    v.push(pair("code", code));
    v.push(pair("redirect_uri", redirect));
    assert(form_texts(v@) =~= seq![
        ("grant_type"@, "authorization_code"@),
        ("client_id"@, client_id@),
        ("client_secret"@, client_secret@),
        ("code"@, code@),
        ("redirect_uri"@, redirect@),
    ]);
    v
}

/// `refresh_oauth_token`: the form posted to Box's token endpoint to trade a refresh token
/// for new tokens.
pub fn refresh_form(client_id: &str, client_secret: &str, refresh_token: &str) -> (r: Vec<
    (String, String),
>)
    ensures
        form_texts(r@) == seq![
            ("grant_type"@, "refresh_token"@),
            ("client_id"@, client_id@),
            ("client_secret"@, client_secret@),
            ("refresh_token"@, refresh_token@),
        ],
{
    let mut v: Vec<(String, String)> = Vec::new();
    v.push(pair("grant_type", "refresh_token"));
    v.push(pair("client_id", client_id));
    v.push(pair("client_secret", client_secret));
    v.push(pair("refresh_token", refresh_token));
    assert(form_texts(v@) =~= seq![
        ("grant_type"@, "refresh_token"@),
        ("client_id"@, client_id@),
        ("client_secret"@, client_secret@),
        ("refresh_token"@, refresh_token@),
    ]);
    v
}

/// A saved developer token is always the token used, whatever else is saved.
pub proof fn law_developer_token_wins(c: ConfigModel, now: i64)
    requires
        c.developer_token is Some,
    ensures
        token_plan(c, now) == TokenPlan::Use(c.developer_token->0),
{
}

/// Tokens that Box has just issued, valid for more than a minute, are used as they are:
/// no second refresh follows a refresh.
pub proof fn law_fresh_tokens_are_used(c: ConfigModel, tokens: OAuthTokenResponse, now: i64)
    requires
        c.developer_token is None,
        tokens.expires_in > 60,
        now + tokens.expires_in <= i64::MAX,
    ensures
        token_plan(with_tokens(c, tokens, now), now) == TokenPlan::Use(tokens.access_token@),
{
}

/// After a logout no token is left: the status reads signed out, and a request finds no
/// token to use or refresh.
pub proof fn law_logout_signs_out(c: ConfigModel, now: i64)
    ensures
        ({
            let out = ConfigModel {
                access_token: None,
                refresh_token: None,
                expires_at: None,
                developer_token: None,
                ..c
            };
            &&& !(out.access_token is Some || out.developer_token is Some)
            &&& out.expires_at is None
            &&& token_plan(out, now) is Fail
        }),
{
}

} // verus!
