//! Download clients: usenet and torrent clients Bindery hands grabs to,
//! created, updated and deleted by name.  Secrets are sent as declared.
use crate::json::{entries_view, str_equal, Json, JsonV};
use crate::wire::{self, int_v, opt_bool_v, opt_int_v, opt_push, opt_str_v};
use vstd::prelude::*;

verus! {

/// The client software.
#[derive(PartialEq, Eq, Structural, Debug, Clone, Copy)]
pub enum DownloadClientType {
    Sabnzbd,
    Nzbget,
    Qbittorrent,
    Transmission,
    Deluge,
    Rtorrent,
    /// A value this version does not know.
    Unknown,
}

/// The wire string of a client type (lowercase).
pub open spec fn client_type_wire(t: DownloadClientType) -> Seq<char> {
    match t {
        DownloadClientType::Sabnzbd => "sabnzbd"@,
        DownloadClientType::Nzbget => "nzbget"@,
        DownloadClientType::Qbittorrent => "qbittorrent"@,
        DownloadClientType::Transmission => "transmission"@,
        DownloadClientType::Deluge => "deluge"@,
        DownloadClientType::Rtorrent => "rtorrent"@,
        DownloadClientType::Unknown => "unknown"@,
    }
}

/// The client type a wire string names; any other string is `Unknown`.
pub open spec fn client_type_from_wire(s: Seq<char>) -> DownloadClientType {
    if s == "sabnzbd"@ {
        DownloadClientType::Sabnzbd
    } else if s == "nzbget"@ {
        DownloadClientType::Nzbget
    } else if s == "qbittorrent"@ {
        DownloadClientType::Qbittorrent
    } else if s == "transmission"@ {
        DownloadClientType::Transmission
    } else if s == "deluge"@ {
        DownloadClientType::Deluge
    } else if s == "rtorrent"@ {
        DownloadClientType::Rtorrent
    } else {
        DownloadClientType::Unknown
    }
}

impl DownloadClientType {
    /// The wire string of this client type.
    pub fn as_wire(&self) -> (r: &'static str)
        ensures
            r@ == client_type_wire(*self),
    {
        match self {
            DownloadClientType::Sabnzbd => "sabnzbd",
            DownloadClientType::Nzbget => "nzbget",
            DownloadClientType::Qbittorrent => "qbittorrent",
            DownloadClientType::Transmission => "transmission",
            DownloadClientType::Deluge => "deluge",
            DownloadClientType::Rtorrent => "rtorrent",
            DownloadClientType::Unknown => "unknown",
        }
    }

    /// The client type a wire string names, `Unknown` for any other string.
    pub fn from_wire(s: &str) -> (r: DownloadClientType)
        ensures
            r == client_type_from_wire(s@),
    {
        if str_equal(s, "sabnzbd") {
            DownloadClientType::Sabnzbd
        } else if str_equal(s, "nzbget") {
            DownloadClientType::Nzbget
        } else if str_equal(s, "qbittorrent") {
            DownloadClientType::Qbittorrent
        } else if str_equal(s, "transmission") {
            DownloadClientType::Transmission
        } else if str_equal(s, "deluge") {
            DownloadClientType::Deluge
        } else if str_equal(s, "rtorrent") {
            DownloadClientType::Rtorrent
        } else {
            DownloadClientType::Unknown
        }
    }
}

/// The health a client last reported (read-only).
pub struct DownloadClientHealth {
    pub status: Option<String>,
    pub message: Option<String>,
}

impl DownloadClientHealth {
    /// The wire form of the health report.
    pub fn to_wire(&self) -> (r: Json)
        ensures
            r@ == JsonV::Object(
                opt_push(
                    opt_push(Seq::empty(), "status"@, opt_str_v(self.status)),
                    "message"@,
                    opt_str_v(self.message),
                ),
            ),
    {
        let mut es: Vec<(String, Json)> = Vec::new();
        proof {
            assert(entries_view(es@) =~= Seq::empty());
        }
        wire::push_opt(&mut es, "status", wire::opt_str_json(&self.status));
        wire::push_opt(&mut es, "message", wire::opt_str_json(&self.message));
        wire::object(es)
    }
}

/// A download client, keyed by name.
pub struct DownloadClient {
    /// Server-assigned id; never sent.
    pub id: Option<i64>,
    /// Display name, the client's identity.
    pub name: String,
    /// The client software, sent as `type`.
    pub client_type: Option<DownloadClientType>,
    pub host: String,
    pub port: i32,
    pub api_key: Option<String>,
    pub use_ssl: Option<bool>,
    pub url_base: Option<String>,
    pub category: String,
    pub category_audiobook: Option<String>,
    pub path_remap: Option<String>,
    pub priority: Option<i32>,
    pub enabled: Option<bool>,
    /// Read-only; never sent.
    pub created_at: Option<String>,
    /// Read-only; never sent.
    pub updated_at: Option<String>,
    /// Read-only; never sent.
    pub health: Option<DownloadClientHealth>,
    pub username: Option<String>,
    pub password: Option<String>,
}

/// The wire entries of a download client.
pub open spec fn client_entries(c: DownloadClient) -> Seq<(Seq<char>, JsonV)> {
    let es = opt_push(
        seq![("name"@, JsonV::String(c.name@))],
        "type"@,
        match c.client_type {
            Some(t) => Some(JsonV::String(client_type_wire(t))),
            None => None,
        },
    );
    let es = es.push(("host"@, JsonV::String(c.host@))).push(("port"@, int_v(c.port as int)));
    let es = opt_push(es, "apiKey"@, opt_str_v(c.api_key));
    let es = opt_push(es, "useSsl"@, opt_bool_v(c.use_ssl));
    let es = opt_push(es, "urlBase"@, opt_str_v(c.url_base));
    let es = es.push(("category"@, JsonV::String(c.category@)));
    let es = opt_push(es, "categoryAudiobook"@, opt_str_v(c.category_audiobook));
    let es = opt_push(es, "pathRemap"@, opt_str_v(c.path_remap));
    let es = opt_push(es, "priority"@, opt_int_v(c.priority));
    let es = opt_push(es, "enabled"@, opt_bool_v(c.enabled));
    let es = opt_push(es, "username"@, opt_str_v(c.username));
    opt_push(es, "password"@, opt_str_v(c.password))
}

impl DownloadClient {
    /// The wire form of the client (id, timestamps and health are never sent).
    pub fn to_wire(&self) -> (r: Json)
        ensures
            r@ == JsonV::Object(client_entries(*self)),
    {
        let mut es: Vec<(String, Json)> = Vec::new();
        proof {
            assert(entries_view(es@) =~= Seq::empty());
        }
        wire::push(&mut es, "name", wire::str_json(&self.name));
        let t = match &self.client_type {
            Some(t) => Some(Json::from_str(t.as_wire())),
            None => None,
        };
        wire::push_opt(&mut es, "type", t);
        wire::push(&mut es, "host", wire::str_json(&self.host));
        wire::push(&mut es, "port", wire::int_json(self.port as i64));
        wire::push_opt(&mut es, "apiKey", wire::opt_str_json(&self.api_key));
        wire::push_opt(&mut es, "useSsl", wire::opt_bool_json(self.use_ssl));
        wire::push_opt(&mut es, "urlBase", wire::opt_str_json(&self.url_base));
        wire::push(&mut es, "category", wire::str_json(&self.category));
        wire::push_opt(&mut es, "categoryAudiobook", wire::opt_str_json(&self.category_audiobook));
        wire::push_opt(&mut es, "pathRemap", wire::opt_str_json(&self.path_remap));
        wire::push_opt(&mut es, "priority", wire::opt_int_json(self.priority));
        wire::push_opt(&mut es, "enabled", wire::opt_bool_json(self.enabled));
        wire::push_opt(&mut es, "username", wire::opt_str_json(&self.username));
        wire::push_opt(&mut es, "password", wire::opt_str_json(&self.password));
        let r = wire::object(es);
        assert(r@->Object_0 =~= client_entries(*self));
        r
    }
}

} // verus!
