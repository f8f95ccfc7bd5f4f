//! The decisions of the host's control API, over the manager.
use vstd::prelude::*;
use crate::auth::{access_token_spec, bearer_token, caller_token, extract_access_token, opt_str};
use crate::logs::LogEntry;
use crate::manager::{normalize_webui, status_event_view, PluginManager, PluginOutputEvent, PluginStatusEvent};
use crate::runner::owned;
use crate::text::same_text;

verus! {

/// The plugin a request comes from, as its credential names it.
pub struct PluginCaller {
    pub plugin_id: String,
}

/// The body of a WebUI registration.
pub struct SetWebuiRequest {
    pub webui: String,
}

/// The body of an export request.
pub struct ExportPluginRequest {
    pub plugin_id: String,
}

/// One event of the UI's plugin stream.
pub enum PluginUnifiedEvent {
    Output(PluginOutputEvent),
    Status(PluginStatusEvent),
}

pub struct BotStatusResponse {
    pub connected: bool,
    pub connecting: bool,
}

/// The account the upstream bot is logged in as.
pub struct LoginInfo {
    pub uin: i64,
    pub nickname: String,
}

pub struct UiState {
    pub last_page: String,
}

pub struct AppInfo {
    pub version: String,
}

pub struct SystemInfoResponse {
    pub port: u16,
    pub data_dir: String,
    pub plugins_root: String,
}

pub struct LogsResponse {
    pub logs: Vec<LogEntry>,
}

impl PluginCaller {
    /// The caller named by the credential in an `Authorization` header; none when the
    /// header is missing, empty, or holds a credential no running plugin has.
    pub fn resolve(manager: &PluginManager, authorization: Option<&str>) -> (r: Option<PluginCaller>)
        ensures
            match r {
                Some(c) => exists|h: &str| authorization == Some(h) && bearer_token(h@).len() > 0
                    && exists|i: int| 0 <= i < manager.plugins@.len() && manager.plugins@[i].id == c.plugin_id
                        && #[trigger] manager.plugins@[i].token_view() == Some(bearer_token(h@)),
                None => match authorization {
                    None => true,
                    Some(h) => bearer_token(h@).len() == 0 || forall|i: int| 0 <= i < manager.plugins@.len()
                        ==> #[trigger] manager.plugins@[i].token_view() != Some(bearer_token(h@)),
                },
            },
    {
        let token = match caller_token(authorization) {
            Some(t) => t,
            None => return None,
        };
        match manager.get_plugin_id_by_api_token(token.as_str()) {
            Some(plugin_id) => Some(PluginCaller { plugin_id }),
            None => None,
        }
    }
}

impl PluginCaller {
    /// The caller of the upstream proxy and event endpoints: the credential comes from the
    /// `Authorization` header, else from the query's `access_token`; none when it is empty
    /// or no running plugin holds it.
    pub fn resolve_request(manager: &PluginManager, authorization: Option<&str>, query: Option<&str>) -> (r: Option<PluginCaller>)
        ensures
            ({
                let t = access_token_spec(opt_str(authorization), opt_str(query));
                match r {
                    Some(c) => t.len() > 0 && exists|i: int| 0 <= i < manager.plugins@.len()
                        && manager.plugins@[i].id == c.plugin_id && #[trigger] manager.plugins@[i].token_view() == Some(t),
                    None => t.len() == 0 || forall|i: int| 0 <= i < manager.plugins@.len()
                        ==> #[trigger] manager.plugins@[i].token_view() != Some(t),
                }
            }),
    {
        let token = extract_access_token(authorization, query);
        if token.unicode_len() == 0 {
            return None;
        }
        match manager.get_plugin_id_by_api_token(token.as_str()) {
            Some(plugin_id) => Some(PluginCaller { plugin_id }),
            None => None,
        }
    }
}

/// Registers the WebUI path a plugin sent: result code 0 and `ok` with the event to
/// publish, or -1 and the error's message.
pub fn set_webui(manager: &mut PluginManager, caller: &PluginCaller, req: &SetWebuiRequest) -> (r: (i32, String, Option<PluginStatusEvent>))
    requires
        old(manager).wf(),
    ensures
        final(manager).wf(),
        old(manager).has(caller.plugin_id@) ==> {
            &&& r.0 == 0
            &&& r.1@ == "ok"@
            &&& r.2.is_some()
            &&& status_event_view(r.2.unwrap()).3 == Some(normalize_webui(req.webui@))
            &&& final(manager).record(caller.plugin_id@).webui_url_view() == Some(normalize_webui(req.webui@))
        },
        !old(manager).has(caller.plugin_id@) ==> r.0 == -1 && r.2.is_none() && *final(manager) == *old(manager),
{
    match manager.set_plugin_webui(caller.plugin_id.as_str(), req.webui.as_str()) {
        Ok(event) => {
            proof {
                let k = old(manager).index_of(caller.plugin_id@);
                assert(final(manager).plugins@[k].id@ == caller.plugin_id@);
                assert(final(manager).has(caller.plugin_id@));
                let j = final(manager).index_of(caller.plugin_id@);
                assert(final(manager).plugins@[j].id@ == caller.plugin_id@);
                assert(j == k);
            }
            (0, owned("ok"), Some(event))
        },
        Err(e) => (-1, owned(e.message()), None),
    }
}

/// The line an output stream for `target` forwards: the event's line when it is that
/// plugin's.
pub fn line_for(event: &PluginOutputEvent, target: &str) -> (r: Option<String>)
    ensures
        r.is_some() == (event.plugin_id@ == target@),
        r.is_some() ==> r.unwrap() == event.line,
{
    if same_text(event.plugin_id.as_str(), target) {
        Some(event.line.clone())
    } else {
        None
    }
}

/// What the login query reports: the account when the bot's reply held both its number
/// and its nickname (code 0), else code 1 and an account marked not connected.
pub fn login_info_from(uin: Option<i64>, nickname: Option<String>) -> (r: (i32, LoginInfo))
    ensures
        match (uin, nickname) {
            (Some(u), Some(n)) => r.0 == 0 && r.1.uin == u && r.1.nickname == n,
            _ => r.0 == 1 && r.1.uin == 0 && r.1.nickname@ == "未连接"@,
        },
{
    match (uin, nickname) {
        (Some(u), Some(n)) => (0, LoginInfo { uin: u, nickname: n }),
        _ => (1, LoginInfo { uin: 0, nickname: owned("未连接") }),
    }
}

} // verus!
