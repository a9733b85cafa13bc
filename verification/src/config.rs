//! Saved settings of the sidecar, the view of them that the UI may see, and the merge of
//! an update request into them. Where the settings are stored is the caller's business.
use vstd::prelude::*;
use crate::text::{self, is_blank, trimmed};

verus! {

/// The view of an optional text.
pub open spec fn opt_text(o: Option<String>) -> Option<Seq<char>> {
    match o {
        Some(s) => Some(s@),
        None => None,
    }
}

/// `default_true`: the default of `autoUpdate` when a saved setting lacks it.
pub fn default_true() -> (r: bool)
    ensures
        r,
{
    true
}

/// The port used when none is configured.
pub const DEFAULT_PORT: u16 = 8410;

/// The saved settings.
pub struct Config {
    pub client_id: Option<String>,
    pub client_secret: Option<String>,
    pub folder_url: Option<String>,
    pub developer_token: Option<String>,
    pub access_token: Option<String>,
    pub refresh_token: Option<String>,
    pub expires_at: Option<i64>,
    pub mcp_server_url: Option<String>,
    pub mcp_connection_token: Option<String>,
    pub search_limit: Option<usize>,
    pub port: Option<u16>,
    pub auto_update: bool,
}

/// The saved settings as plain values.
pub struct ConfigModel {
    pub client_id: Option<Seq<char>>,
    pub client_secret: Option<Seq<char>>,
    pub folder_url: Option<Seq<char>>,
    pub developer_token: Option<Seq<char>>,
    pub access_token: Option<Seq<char>>,
    pub refresh_token: Option<Seq<char>>,
    pub expires_at: Option<i64>,
    pub mcp_server_url: Option<Seq<char>>,
    pub mcp_connection_token: Option<Seq<char>>,
    pub search_limit: Option<usize>,
    pub port: Option<u16>,
    pub auto_update: bool,
}

impl View for Config {
    type V = ConfigModel;

    open spec fn view(&self) -> ConfigModel {
        ConfigModel {
            client_id: opt_text(self.client_id),
            client_secret: opt_text(self.client_secret),
            folder_url: opt_text(self.folder_url),
            developer_token: opt_text(self.developer_token),
            access_token: opt_text(self.access_token),
            refresh_token: opt_text(self.refresh_token),
            expires_at: self.expires_at,
            mcp_server_url: opt_text(self.mcp_server_url),
            mcp_connection_token: opt_text(self.mcp_connection_token),
            search_limit: self.search_limit,
            port: self.port,
            auto_update: self.auto_update,
        }
    }
}

impl Config {
    /// The settings when none are saved (`Config::default`): nothing set, automatic updates
    /// off. (A saved record that lacks `autoUpdate` reads it as on: see `default_true`.)
    pub fn new() -> (r: Config)
        ensures
            r@ == (ConfigModel {
                client_id: None,
                client_secret: None,
                folder_url: None,
                developer_token: None,
                access_token: None,
                refresh_token: None,
                expires_at: None,
                mcp_server_url: None,
                mcp_connection_token: None,
                search_limit: None,
                port: None,
                auto_update: false,
            }),
    {
        Config {
            client_id: None,
            client_secret: None,
            folder_url: None,
            developer_token: None,
            access_token: None,
            refresh_token: None,
            expires_at: None,
            mcp_server_url: None,
            mcp_connection_token: None,
            search_limit: None,
            port: None,
            auto_update: false,
        }
    }
}

/// The settings shown to the UI: no secret in plain text, only whether each is set.
pub struct ConfigView {
    pub folder_url: Option<String>,
    pub mcp_server_url: Option<String>,
    pub search_limit: Option<usize>,
    pub port: u16,
    pub auto_update: bool,
    pub has_client_id: bool,
    pub has_client_secret: bool,
    pub has_developer_token: bool,
    pub has_mcp_connection_token: bool,
}

/// A secret counts as set when it holds something besides white space.
pub open spec fn is_set(o: Option<Seq<char>>) -> bool {
    match o {
        Some(s) => text::trim(s).len() > 0,
        None => false,
    }
}

fn is_set_exec(o: &Option<String>) -> (r: bool)
    ensures
        r == is_set(opt_text(*o)),
{
    match o {
        Some(s) => !is_blank(s.as_str()),
        None => false,
    }
}

fn copy_opt(o: &Option<String>) -> (r: Option<String>)
    ensures
        opt_text(r) == opt_text(*o),
{
    match o {
        Some(s) => Some(s.clone()),
        None => None,
    }
}

/// What the UI sees of the settings.
pub struct ConfigViewModel {
    pub folder_url: Option<Seq<char>>,
    pub mcp_server_url: Option<Seq<char>>,
    pub search_limit: Option<usize>,
    pub port: u16,
    pub auto_update: bool,
    pub has_client_id: bool,
    pub has_client_secret: bool,
    pub has_developer_token: bool,
    pub has_mcp_connection_token: bool,
}

impl View for ConfigView {
    type V = ConfigViewModel;

    open spec fn view(&self) -> ConfigViewModel {
        ConfigViewModel {
            folder_url: opt_text(self.folder_url),
            mcp_server_url: opt_text(self.mcp_server_url),
            search_limit: self.search_limit,
            port: self.port,
            auto_update: self.auto_update,
            has_client_id: self.has_client_id,
            has_client_secret: self.has_client_secret,
            has_developer_token: self.has_developer_token,
            has_mcp_connection_token: self.has_mcp_connection_token,
        }
    }
}

/// The view of the settings `c`.
pub open spec fn view_model(c: ConfigModel) -> ConfigViewModel {
    ConfigViewModel {
        folder_url: c.folder_url,
        mcp_server_url: c.mcp_server_url,
        search_limit: c.search_limit,
        port: match c.port {
            Some(p) => p,
            None => DEFAULT_PORT,
        },
        auto_update: c.auto_update,
        has_client_id: is_set(c.client_id),
        has_client_secret: is_set(c.client_secret),
        has_developer_token: is_set(c.developer_token),
        has_mcp_connection_token: is_set(c.mcp_connection_token),
    }
}

/// The view tells nothing of a secret but whether it is set: two settings that differ only
/// in the values of their secrets (each set in both or in neither), and in the saved tokens,
/// look the same to the UI.
pub proof fn law_view_reveals_no_secret(c1: ConfigModel, c2: ConfigModel)
    requires
        c1.folder_url == c2.folder_url,
        c1.mcp_server_url == c2.mcp_server_url,
        c1.search_limit == c2.search_limit,
        c1.port == c2.port,
        c1.auto_update == c2.auto_update,
        is_set(c1.client_id) == is_set(c2.client_id),
        is_set(c1.client_secret) == is_set(c2.client_secret),
        is_set(c1.developer_token) == is_set(c2.developer_token),
        is_set(c1.mcp_connection_token) == is_set(c2.mcp_connection_token),
    ensures
        view_model(c1) == view_model(c2),
{
}

impl ConfigView {
    /// `From<&Config> for ConfigView`.
    pub fn from(c: &Config) -> (r: ConfigView)
        ensures
            r@ == view_model(c@),
            opt_text(r.folder_url) == c@.folder_url,
            opt_text(r.mcp_server_url) == c@.mcp_server_url,
            r.search_limit == c.search_limit,
            r.port == match c.port {
                Some(p) => p,
                None => DEFAULT_PORT,
            },
            r.auto_update == c.auto_update,
            r.has_client_id == is_set(c@.client_id),
            r.has_client_secret == is_set(c@.client_secret),
            r.has_developer_token == is_set(c@.developer_token),
            r.has_mcp_connection_token == is_set(c@.mcp_connection_token),
    {
        ConfigView {
            folder_url: copy_opt(&c.folder_url),
            mcp_server_url: copy_opt(&c.mcp_server_url),
            search_limit: c.search_limit,
            port: match c.port {
                Some(p) => p,
                None => DEFAULT_PORT,
            },
            auto_update: c.auto_update,
            has_client_id: is_set_exec(&c.client_id),
            has_client_secret: is_set_exec(&c.client_secret),
            has_developer_token: is_set_exec(&c.developer_token),
            has_mcp_connection_token: is_set_exec(&c.mcp_connection_token),
        }
    }
}

/// A settings update request. Secrets are replaced only by a value that is not blank.
pub struct ConfigUpdate {
    pub client_id: Option<String>,
    pub client_secret: Option<String>,
    pub developer_token: Option<String>,
    pub folder_url: Option<String>,
    pub mcp_server_url: Option<String>,
    pub mcp_connection_token: Option<String>,
    pub search_limit: Option<usize>,
    pub port: Option<u16>,
    pub auto_update: Option<bool>,
}

impl ConfigUpdate {
    /// An update that changes nothing.
    pub fn new() -> (r: ConfigUpdate)
        ensures
            r.client_id is None && r.client_secret is None && r.developer_token is None
                && r.folder_url is None && r.mcp_server_url is None && r.mcp_connection_token is None
                && r.search_limit is None && r.port is None && r.auto_update is None,
    {
        ConfigUpdate {
            client_id: None,
            client_secret: None,
            developer_token: None,
            folder_url: None,
            mcp_server_url: None,
            mcp_connection_token: None,
            search_limit: None,
            port: None,
            auto_update: None,
        }
    }
}

/// A secret after an update: the trimmed new value when it is not blank, else the old one.
pub open spec fn merge_secret(old: Option<Seq<char>>, new: Option<Seq<char>>) -> Option<Seq<char>> {
    match new {
        Some(v) => if text::trim(v).len() > 0 {
            Some(text::trim(v))
        } else {
            old
        },
        None => old,
    }
}

/// `usize::clamp(v, 1, 200)`.
pub open spec fn clamp_limit(v: usize) -> usize {
    if v < 1 {
        1
    } else if v > 200 {
        200
    } else {
        v
    }
}

/// The settings after an update.
pub open spec fn apply_update_spec(c: ConfigModel, u: ConfigUpdate) -> ConfigModel {
    ConfigModel {
        client_id: merge_secret(c.client_id, opt_text(u.client_id)),
        client_secret: merge_secret(c.client_secret, opt_text(u.client_secret)),
        developer_token: merge_secret(c.developer_token, opt_text(u.developer_token)),
        mcp_connection_token: merge_secret(
            c.mcp_connection_token,
            opt_text(u.mcp_connection_token),
        ),
        folder_url: match u.folder_url {
            Some(v) => Some(v@),
            None => c.folder_url,
        },
        mcp_server_url: match u.mcp_server_url {
            Some(v) => if text::trim(v@).len() == 0 {
                None
            } else {
                Some(v@)
            },
            None => c.mcp_server_url,
        },
        search_limit: match u.search_limit {
            Some(v) => Some(clamp_limit(v)),
            None => c.search_limit,
        },
        port: match u.port {
            Some(p) => Some(
                if p < 1 {
                    1
                } else {
                    p
                },
            ),
            None => c.port,
        },
        auto_update: match u.auto_update {
            Some(v) => v,
            None => c.auto_update,
        },
        access_token: c.access_token,
        refresh_token: c.refresh_token,
        expires_at: c.expires_at,
    }
}

fn merge_secret_exec(target: &mut Option<String>, value: Option<String>)
    ensures
        opt_text(*final(target)) == merge_secret(opt_text(*old(target)), opt_text(value)),
{
    if let Some(raw) = value {
        let v = trimmed(raw.as_str());
        proof {
            text::lemma_trim_idempotent(raw@);
        }
        if !is_blank(v.as_str()) {
            *target = Some(v);
        }
    }
}

/// `apply_update`: merges an update request into the saved settings. The caller loads
/// and saves the settings.
pub fn apply_update(config: Config, update: ConfigUpdate) -> (r: Config)
    ensures
        r@ == apply_update_spec(config@, update),
{
    let mut config = config;
    let ghost c0 = config@;
    let ConfigUpdate {
        client_id,
        client_secret,
        developer_token,
        folder_url,
        mcp_server_url,
        mcp_connection_token,
        search_limit,
        port,
        auto_update,
    } = update;
    merge_secret_exec(&mut config.client_id, client_id);
    merge_secret_exec(&mut config.client_secret, client_secret);
    merge_secret_exec(&mut config.developer_token, developer_token);
    merge_secret_exec(&mut config.mcp_connection_token, mcp_connection_token);
    if let Some(v) = folder_url {
        config.folder_url = Some(v);
    }
    if let Some(v) = mcp_server_url {
        config.mcp_server_url = if is_blank(v.as_str()) {
            None
        } else {
            Some(v)
        };
    }
    if let Some(v) = search_limit {
        config.search_limit = Some(
            if v < 1 {
                1
            } else if v > 200 {
                200
            } else {
                v
            },
        );
    }
    if let Some(p) = port {
        config.port = Some(
            if p < 1 {
                1
            } else {
                p
            },
        );
    }
    if let Some(v) = auto_update {
        config.auto_update = v;
    }
    config
}

/// An update that names nothing.
pub open spec fn empty_update() -> ConfigUpdate {
    ConfigUpdate {
        client_id: None,
        client_secret: None,
        developer_token: None,
        folder_url: None,
        mcp_server_url: None,
        mcp_connection_token: None,
        search_limit: None,
        port: None,
        auto_update: None,
    }
}

/// An update that names nothing leaves the settings as they are.
pub proof fn law_empty_update_changes_nothing(c: ConfigModel)
    ensures
        apply_update_spec(c, empty_update()) == c,
{
}

/// An update never clears a secret: one that is absent or blank in the update keeps its
/// saved value; and the saved tokens of a login are never touched by an update.
pub proof fn law_update_keeps_secrets(c: ConfigModel, u: ConfigUpdate)
    ensures
        (match u.client_id {
            Some(v) => text::trim(v@).len() == 0,
            None => true,
        }) ==> apply_update_spec(c, u).client_id == c.client_id,
        (match u.client_secret {
            Some(v) => text::trim(v@).len() == 0,
            None => true,
        }) ==> apply_update_spec(c, u).client_secret == c.client_secret,
        (match u.developer_token {
            Some(v) => text::trim(v@).len() == 0,
            None => true,
        }) ==> apply_update_spec(c, u).developer_token == c.developer_token,
        (match u.mcp_connection_token {
            Some(v) => text::trim(v@).len() == 0,
            None => true,
        }) ==> apply_update_spec(c, u).mcp_connection_token == c.mcp_connection_token,
        c.client_id is Some ==> apply_update_spec(c, u).client_id is Some,
        c.client_secret is Some ==> apply_update_spec(c, u).client_secret is Some,
        c.developer_token is Some ==> apply_update_spec(c, u).developer_token is Some,
        apply_update_spec(c, u).access_token == c.access_token,
        apply_update_spec(c, u).refresh_token == c.refresh_token,
        apply_update_spec(c, u).expires_at == c.expires_at,
{
}

/// A search page size set by an update is between 1 and 200; a port set by one is not 0.
pub proof fn law_update_bounds_limit_and_port(c: ConfigModel, u: ConfigUpdate)
    ensures
        u.search_limit is Some ==> (apply_update_spec(c, u).search_limit matches Some(n) && 1 <= n
            <= 200),
        u.port is Some ==> (apply_update_spec(c, u).port matches Some(p) && p >= 1),
{
}

/// An update takes what it asks for: the update switch, the folder link, a page size
/// between 1 and 200 and a port other than 0 as given, a server address (cleared where it is
/// blank), and a secret that is not blank, trimmed; what it leaves out stays as saved.
pub proof fn law_update_takes_what_it_asks(c: ConfigModel, u: ConfigUpdate)
    ensures
        apply_update_spec(c, u).auto_update == match u.auto_update {
            Some(v) => v,
            None => c.auto_update,
        },
        u.folder_url matches Some(f) ==> apply_update_spec(c, u).folder_url == Some(f@),
        u.folder_url is None ==> apply_update_spec(c, u).folder_url == c.folder_url,
        u.search_limit matches Some(n) ==> (1 <= n <= 200 ==> apply_update_spec(c, u).search_limit
            == Some(n)),
        u.search_limit is None ==> apply_update_spec(c, u).search_limit == c.search_limit,
        u.port matches Some(p) ==> (p >= 1 ==> apply_update_spec(c, u).port == Some(p)),
        u.port is None ==> apply_update_spec(c, u).port == c.port,
        u.mcp_server_url matches Some(v) ==> apply_update_spec(c, u).mcp_server_url == if text::trim(
            v@,
        ).len() == 0 {
            None
        } else {
            Some(v@)
        },
        u.mcp_server_url is None ==> apply_update_spec(c, u).mcp_server_url == c.mcp_server_url,
        u.client_id matches Some(v) ==> (text::trim(v@).len() > 0 ==> apply_update_spec(
            c,
            u,
        ).client_id == Some(text::trim(v@))),
        u.client_secret matches Some(v) ==> (text::trim(v@).len() > 0 ==> apply_update_spec(
            c,
            u,
        ).client_secret == Some(text::trim(v@))),
        u.developer_token matches Some(v) ==> (text::trim(v@).len() > 0 ==> apply_update_spec(
            c,
            u,
        ).developer_token == Some(text::trim(v@))),
        u.mcp_connection_token matches Some(v) ==> (text::trim(v@).len() > 0 ==> apply_update_spec(
            c,
            u,
        ).mcp_connection_token == Some(text::trim(v@))),
{
}

/// Updating twice with the same request gives what updating once gives.
pub proof fn law_update_is_idempotent(c: ConfigModel, u: ConfigUpdate)
    ensures
        apply_update_spec(apply_update_spec(c, u), u) == apply_update_spec(c, u),
{
    let once = apply_update_spec(c, u);
    match u.client_id {
        Some(v) => text::lemma_trim_idempotent(v@),
        None => {},
    }
    match u.client_secret {
        Some(v) => text::lemma_trim_idempotent(v@),
        None => {},
    }
    match u.developer_token {
        Some(v) => text::lemma_trim_idempotent(v@),
        None => {},
    }
    match u.mcp_connection_token {
        Some(v) => text::lemma_trim_idempotent(v@),
        None => {},
    }
}

} // verus!
