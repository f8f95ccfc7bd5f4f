use yuyu::api::{line_for, login_info_from, set_webui, PluginCaller, SetWebuiRequest};
use yuyu::logs::{LogBuffer, LogEntry, MAX_LOG_ENTRIES};
use yuyu::manager::{PluginManager, PluginOutputEvent};
use yuyu::plugin::{Plugin, PluginManifest};

fn manager_with_running(id: &str, token: &str) -> PluginManager {
    let mut m = PluginManager::new("exe".to_string(), 8080, "127.0.0.1".to_string(), 1, 2);
    let manifest = PluginManifest {
        name: id.to_string(),
        entry: "./bin".to_string(),
        description: String::new(),
        version: "0.1".to_string(),
        author: Some("me".to_string()),
    };
    m.load_plugins(vec![Plugin::new(id.to_string(), manifest, "d".to_string(), "t".to_string())]);
    let plan = m.begin_start(id, true).unwrap();
    m.mark_running(id, plan.run_id, token.to_string(), "ws".to_string());
    m
}

#[test]
fn caller_resolves_from_bearer() {
    let m = manager_with_running("p1", "abc");
    let c = PluginCaller::resolve(&m, Some("Bearer abc")).unwrap();
    assert_eq!(c.plugin_id, "p1");
    assert!(PluginCaller::resolve(&m, Some("Bearer zzz")).is_none());
    assert!(PluginCaller::resolve(&m, Some("Bearer ")).is_none());
    assert!(PluginCaller::resolve(&m, None).is_none());
}

#[test]
fn proxy_caller_resolves_from_header_or_query() {
    let m = manager_with_running("p1", "abc");
    let c = PluginCaller::resolve_request(&m, None, Some("x=1&access_token=abc")).unwrap();
    assert_eq!(c.plugin_id, "p1");
    let c = PluginCaller::resolve_request(&m, Some("Bearer abc"), None).unwrap();
    assert_eq!(c.plugin_id, "p1");
    assert!(PluginCaller::resolve_request(&m, Some("Bearer "), Some("access_token=")).is_none());
    assert!(PluginCaller::resolve_request(&m, None, Some("access_token=zzz")).is_none());
    assert!(PluginCaller::resolve_request(&m, None, None).is_none());
    assert!(PluginCaller::resolve(&m, None).is_none());
}

#[test]
fn set_webui_answers_ok_or_error() {
    let mut m = manager_with_running("p1", "abc");
    let caller = PluginCaller { plugin_id: "p1".to_string() };
    let (code, data, ev) = set_webui(&mut m, &caller, &SetWebuiRequest { webui: "ui".to_string() });
    assert_eq!(code, 0);
    assert_eq!(data, "ok");
    assert_eq!(ev.unwrap().webui_url, Some("/ui".to_string()));
    let ghost = PluginCaller { plugin_id: "ghost".to_string() };
    let (code, data, ev) = set_webui(&mut m, &ghost, &SetWebuiRequest { webui: "ui".to_string() });
    assert_eq!(code, -1);
    assert_eq!(data, "Plugin not found");
    assert!(ev.is_none());
}

#[test]
fn output_stream_filters_by_plugin() {
    let e = PluginOutputEvent { plugin_id: "a".to_string(), line: "hello".to_string() };
    assert_eq!(line_for(&e, "a"), Some("hello".to_string()));
    assert_eq!(line_for(&e, "b"), None);
}

#[test]
fn login_info_needs_both_fields() {
    let (code, info) = login_info_from(Some(42), Some("bot".to_string()));
    assert_eq!((code, info.uin, info.nickname.as_str()), (0, 42, "bot"));
    let (code, info) = login_info_from(Some(42), None);
    assert_eq!((code, info.uin, info.nickname.as_str()), (1, 0, "未连接"));
}

#[test]
fn log_buffer_is_bounded() {
    let mut b = LogBuffer::new();
    for k in 0..(MAX_LOG_ENTRIES + 3) {
        b.log_message(LogEntry {
            time: String::new(),
            level: "info".to_string(),
            source: "core".to_string(),
            message: format!("m{}", k),
        });
    }
    assert_eq!(b.logs.len(), 1000);
    assert_eq!(b.logs[0].message, "m3");
    assert_eq!(b.logs[999].message, "m1002");
    b.clear_logs();
    assert!(b.logs.is_empty());
}
