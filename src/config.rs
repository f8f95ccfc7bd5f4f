//! The upstream bot's connection settings, in the current form and the legacy one.
use vstd::prelude::*;
use crate::runner::{append_str, decimal_spec, decimal_string, owned};
use crate::text::same_text;

verus! {

/// Where the upstream bot service listens.
pub struct BotConfig {
    pub host: String,
    pub api_port: u16,
    pub event_port: u16,
    pub token: Option<String>,
    pub auto_connect: bool,
}

/// The settings as older versions wrote them: URLs, or host and ports, each optional.
pub struct LegacyBotConfig {
    pub api: Option<String>,
    pub event_sse: Option<String>,
    pub host: Option<String>,
    pub api_port: Option<u16>,
    pub event_port: Option<u16>,
    pub token: Option<String>,
    pub auto_connect: bool,
}

/// What the settings file held, as read.
pub enum BotConfigFile {
    /// There is no file.
    Missing,
    /// The file is in the current form.
    Current(BotConfig),
    /// The file is in the legacy form.
    Legacy(LegacyBotConfig),
    /// The file is in neither form.
    Unreadable,
}

pub const DEFAULT_API_PORT: u16 = 3010;
pub const DEFAULT_EVENT_PORT: u16 = 3011;

/// The URL that API calls go to.
pub open spec fn api_url_spec(host: Seq<char>, port: u16) -> Seq<char> {
    "http://"@ + host + ":"@ + decimal_spec(port as nat) + "/api"@
}

/// The URL of the event stream.
pub open spec fn event_url_spec(host: Seq<char>, port: u16) -> Seq<char> {
    "http://"@ + host + ":"@ + decimal_spec(port as nat) + "/event"@
}

/// A URL's parts as `url::Url` reads them: host, explicit port, scheme; none if it does not parse.
pub uninterp spec fn url_parts(s: Seq<char>) -> Option<(Option<Seq<char>>, Option<u16>, Seq<char>)>;

pub open spec fn parts_view(r: Option<(Option<String>, Option<u16>, String)>) -> Option<(Option<Seq<char>>, Option<u16>, Seq<char>)> {
    match r {
        Some((h, p, s)) => Some((
            match h {
                Some(x) => Some(x@),
                None => None,
            },
            p,
            s@,
        )),
        None => None,
    }
}

/// Relies on `url::Url::parse`, read back through `host_str`, `port` and `scheme`.
#[verifier::external_body]
fn url_parse_parts(s: &str) -> (r: Option<(Option<String>, Option<u16>, String)>)
    ensures
        parts_view(r) == url_parts(s@),
{
    match url::Url::parse(s) {
        Ok(u) => Some((u.host_str().map(|h| h.to_string()), u.port(), u.scheme().to_string())),
        Err(_) => None,
    }
}

/// Host and port of a URL: the explicit port, else 443 for `https` and 80 otherwise;
/// none if it does not parse or has no host.
pub open spec fn parse_url_spec(s: Seq<char>) -> Option<(Seq<char>, u16)> {
    match url_parts(s) {
        Some((Some(h), p, scheme)) => Some((h, match p {
            Some(x) => x,
            None => if scheme == "https"@ { 443 } else { 80 },
        })),
        _ => None,
    }
}

pub open spec fn host_port_view(r: Option<(String, u16)>) -> Option<(Seq<char>, u16)> {
    match r {
        Some((h, p)) => Some((h@, p)),
        None => None,
    }
}

/// Host and port from a parsed URL's host, explicit port and scheme: the explicit port,
/// else 443 for `https` and 80 otherwise; none without a host.
pub fn host_port_of(parts: Option<(Option<String>, Option<u16>, String)>) -> (r: Option<(String, u16)>)
    ensures
        host_port_view(r) == match parts_view(parts) {
            Some((Some(h), p, scheme)) => Some((h, match p {
                Some(x) => x,
                None => if scheme == "https"@ { 443u16 } else { 80u16 },
            })),
            _ => None::<(Seq<char>, u16)>,
        },
{
    match parts {
        Some((Some(h), p, scheme)) => {
            let port = match p {
                Some(x) => x,
                None => if same_text(scheme.as_str(), "https") {
                    443
                } else {
                    80
                },
            };
            Some((h, port))
        },
        _ => None,
    }
}

pub fn parse_url(url: &str) -> (r: Option<(String, u16)>)
    ensures
        host_port_view(r) == parse_url_spec(url@),
{
    host_port_of(url_parse_parts(url))
}

pub open spec fn bot_view(c: BotConfig) -> (Seq<char>, u16, u16, Option<Seq<char>>, bool) {
    (c.host@, c.api_port, c.event_port, crate::plugin::opt_view(c.token), c.auto_connect)
}

/// The settings that a legacy file stands for: its host and ports where all three are
/// there; else host and ports read from its two URLs (each falling back to the default);
/// else the defaults with its token, not connecting by itself.
pub open spec fn from_legacy_spec(l: LegacyBotConfig) -> (Seq<char>, u16, u16, Option<Seq<char>>, bool) {
    let token = crate::plugin::opt_view(l.token);
    match (l.host, l.api_port, l.event_port) {
        (Some(h), Some(a), Some(e)) => (h@, a, e, token, l.auto_connect),
        _ => match (l.api, l.event_sse) {
            (Some(a), Some(e)) => {
                let (host, api_port) = match parse_url_spec(a@) {
                    Some(x) => x,
                    None => ("localhost"@, DEFAULT_API_PORT),
                };
                let event_port = match parse_url_spec(e@) {
                    Some(x) => x.1,
                    None => DEFAULT_EVENT_PORT,
                };
                (host, api_port, event_port, token, l.auto_connect)
            },
            _ => ("localhost"@, DEFAULT_API_PORT, DEFAULT_EVENT_PORT, token, false),
        },
    }
}

impl BotConfig {
    pub fn default_config() -> (r: Self)
        ensures
            bot_view(r) == ("localhost"@, DEFAULT_API_PORT, DEFAULT_EVENT_PORT, None::<Seq<char>>, false),
    {
        BotConfig {
            host: owned("localhost"),
            api_port: DEFAULT_API_PORT,
            event_port: DEFAULT_EVENT_PORT,
            token: None,
            auto_connect: false,
        }
    }

    pub fn get_api_url(&self) -> (r: String)
        ensures
            r@ == api_url_spec(self.host@, self.api_port),
    {
        let mut r = owned("http://");
        append_str(&mut r, self.host.as_str());
        append_str(&mut r, ":");
        let d = decimal_string(self.api_port as u64);
        append_str(&mut r, d.as_str());
        append_str(&mut r, "/api");
        r
    }

    pub fn get_event_url(&self) -> (r: String)
        ensures
            r@ == event_url_spec(self.host@, self.event_port),
    {
        let mut r = owned("http://");
        append_str(&mut r, self.host.as_str());
        append_str(&mut r, ":");
        let d = decimal_string(self.event_port as u64);
        append_str(&mut r, d.as_str());
        append_str(&mut r, "/event");
        r
    }

    /// The settings a legacy file stands for.
    pub fn from_legacy(l: LegacyBotConfig) -> (r: Self)
        ensures
            bot_view(r) == from_legacy_spec(l),
    {
        let ghost l0 = l;
        let LegacyBotConfig { api, event_sse, host, api_port, event_port, token, auto_connect } = l;
        if host.is_some() && api_port.is_some() && event_port.is_some() {
            return BotConfig {
                host: host.unwrap(),
                api_port: api_port.unwrap(),
                event_port: event_port.unwrap(),
                token,
                auto_connect,
            };
        }
        match (api, event_sse) {
            (Some(a), Some(e)) => {
                let (h, ap) = match parse_url(a.as_str()) {
                    Some(x) => x,
                    None => (owned("localhost"), DEFAULT_API_PORT),
                };
                let ep = match parse_url(e.as_str()) {
                    Some(x) => x.1,
                    None => DEFAULT_EVENT_PORT,
                };
                BotConfig { host: h, api_port: ap, event_port: ep, token, auto_connect }
            },
            _ => BotConfig {
                host: owned("localhost"),
                api_port: DEFAULT_API_PORT,
                event_port: DEFAULT_EVENT_PORT,
                token,
                auto_connect: false,
            },
        }
    }
}

pub open spec fn file_config_spec(f: BotConfigFile) -> (int, (Seq<char>, u16, u16, Option<Seq<char>>, bool)) {
    match f {
        BotConfigFile::Missing => (0, ("localhost"@, DEFAULT_API_PORT, DEFAULT_EVENT_PORT, None, false)),
        BotConfigFile::Current(c) => (0, bot_view(c)),
        BotConfigFile::Legacy(l) => (0, from_legacy_spec(l)),
        BotConfigFile::Unreadable => (1, ("localhost"@, DEFAULT_API_PORT, DEFAULT_EVENT_PORT, None, false)),
    }
}

/// The settings in force for what the file held, with the result code to report:
/// 1 when the file is in neither form, 0 otherwise.
pub fn load_bot_config(f: BotConfigFile) -> (r: (i32, BotConfig))
    ensures
        (r.0 as int, bot_view(r.1)) == file_config_spec(f),
{
    match f {
        BotConfigFile::Missing => (0, BotConfig::default_config()),
        BotConfigFile::Current(c) => (0, c),
        BotConfigFile::Legacy(l) => (0, BotConfig::from_legacy(l)),
        BotConfigFile::Unreadable => (1, BotConfig::default_config()),
    }
}

} // verus!
