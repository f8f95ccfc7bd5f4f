use yuyu::auth::{bearer, caller_token, extract_access_token};
use yuyu::config::{host_port_of, load_bot_config, parse_url, BotConfig, BotConfigFile, LegacyBotConfig};
use yuyu::runner::{
    child_env, decimal_string, decode_output, generate_plugin_api_token, generate_tmp_run_suffix,
    hex_encode, output_lines_of, run_dir_name, split_entry, ChildEnv,
};
use yuyu::sse::{SseParser, Subscribers, UpstreamAction};
use yuyu::text::{same_text, trim, trim_start};

#[test]
fn entry_splits_on_whitespace() {
    assert_eq!(split_entry("  ./bin  --x\ty \n"), vec!["./bin", "--x", "y"]);
    assert!(split_entry("").is_empty());
    assert!(split_entry(" \t ").is_empty());
    assert_eq!(split_entry("node"), vec!["node"]);
}

#[test]
fn output_lines_drop_empty_and_carriage_returns() {
    assert_eq!(output_lines_of("hi\r\n\nthere\n"), vec!["hi", "there"]);
    assert_eq!(output_lines_of("a\nb"), vec!["a", "b"]);
    assert_eq!(output_lines_of("tail\r"), vec!["tail\r"]);
    assert!(output_lines_of("\n\r\n").is_empty());
    assert!(output_lines_of("").is_empty());
}

#[test]
fn decoded_output_has_no_escapes() {
    let bytes = b"\x1b[31mhi\x1b[0m\r\n\x1b[1mbold\x1b[0m\n";
    assert_eq!(decode_output(bytes), vec!["hi", "bold"]);
    let bad = [b'o', b'k', 0xff, b'\n'];
    assert_eq!(decode_output(&bad), vec!["ok\u{fffd}"]);
}

#[test]
fn hex_and_decimal() {
    assert_eq!(hex_encode(&[0x00, 0xff, 0x10, 0xa5]), "00ff10a5");
    assert_eq!(hex_encode(&[]), "");
    assert_eq!(decimal_string(0), "0");
    assert_eq!(decimal_string(3010), "3010");
    assert_eq!(decimal_string(u64::MAX), "18446744073709551615");
}

#[test]
fn tokens_are_fresh_hex() {
    let a = generate_plugin_api_token();
    let b = generate_plugin_api_token();
    assert_eq!(a.len(), 64);
    assert!(a.chars().all(|c| c.is_ascii_hexdigit() && !c.is_ascii_uppercase()));
    assert_ne!(a, b);
    let s = generate_tmp_run_suffix();
    assert_eq!(s.len(), 16);
    assert_eq!(run_dir_name(7, "abcd"), "run-7-abcd");
}

#[test]
fn child_environment_is_exact() {
    let env = child_env(&ChildEnv {
        milky_host: "127.0.0.1".to_string(),
        milky_api_port: 4001,
        milky_event_port: 4002,
        token: "tok".to_string(),
        host_port: 8080,
        data_dir: "data/echohello".to_string(),
    });
    let want = vec![
        ("MILKY_HOST", "127.0.0.1"),
        ("MILKY_API_PORT", "4001"),
        ("MILKY_EVENT_PORT", "4002"),
        ("MILKY_TOKEN", "tok"),
        ("YUYU_DATA_DIR", "data/echohello"),
        ("YUYU_HOST", "localhost"),
        ("YUYU_PORT", "8080"),
        ("YUYU_TOKEN", "tok"),
    ];
    let got: Vec<(&str, &str)> = env.iter().map(|(k, v)| (k.as_str(), v.as_str())).collect();
    assert_eq!(got, want);
}

#[test]
fn text_helpers() {
    assert_eq!(trim("  a b \t"), "a b");
    assert_eq!(trim_start("  a b "), "a b ");
    assert_eq!(trim(""), "");
    assert_eq!(trim("\u{3000}a\u{a0}\u{2003}"), "a");
    assert_eq!(split_entry("a\u{85}b\u{200b}c"), vec!["a", "b\u{200b}c"]);
    assert!(same_text("abc", "abc"));
    assert!(!same_text("abc", "abd"));
    assert!(!same_text("ab", "abc"));
}

#[test]
fn sse_parser_builds_events() {
    let mut p = SseParser::new();
    let ev = p.push_text("event: message\ndata: a\ndata:  b\nid: 3\n\n");
    assert_eq!(ev.len(), 1);
    assert_eq!(ev[0].event, Some("message".to_string()));
    assert_eq!(ev[0].data, "a\nb");
    let ev = p.push_text("data: x\r\n\r\n\n\n");
    assert_eq!(ev.len(), 1);
    assert_eq!(ev[0].event, None);
    assert_eq!(ev[0].data, "x");
}

#[test]
fn sse_parser_joins_chunks() {
    let mut p = SseParser::new();
    assert!(p.push_text("da").is_empty());
    assert!(p.push_text("ta: {\"k\":1}\n").is_empty());
    let ev = p.push_bytes(b"\n");
    assert_eq!(ev.len(), 1);
    assert_eq!(ev[0].data, "{\"k\":1}");
    assert!(p.push_bytes(&[0xff, b'\n', b'\n']).is_empty());
    let ev = p.push_bytes(b"event:ping\n\n");
    assert_eq!(ev[0].event, Some("ping".to_string()));
    assert_eq!(ev[0].data, "");
}

#[test]
fn sse_feed_line_directly() {
    let mut p = SseParser::new();
    assert!(p.feed_line(&"".chars().collect()).is_none());
    assert!(p.feed_line(&"data:1".chars().collect()).is_none());
    let m = p.feed_line(&Vec::new()).unwrap();
    assert_eq!(m.data, "1");
}

#[test]
fn upstream_runs_only_with_subscribers() {
    let mut s = Subscribers::new();
    assert!(!s.upstream_active());
    assert_eq!(s.upstream_action(false), UpstreamAction::Idle);
    s.join_sse();
    assert!(s.upstream_active());
    assert_eq!(s.upstream_action(false), UpstreamAction::Connect);
    assert_eq!(s.upstream_action(true), UpstreamAction::Read);
    s.join_ws();
    s.leave_sse();
    assert!(s.upstream_active());
    s.leave_ws();
    assert!(!s.upstream_active());
    assert_eq!(s.upstream_action(true), UpstreamAction::Abandon);
}

#[test]
fn access_token_from_header_or_query() {
    assert_eq!(extract_access_token(Some("Bearer abc "), None), "abc");
    assert_eq!(extract_access_token(Some("raw"), Some("access_token=q")), "raw");
    assert_eq!(extract_access_token(Some("Bearer   "), Some("x=1&access_token=tok")), "tok");
    assert_eq!(extract_access_token(None, Some("access_token=&access_token=z")), "z");
    assert_eq!(extract_access_token(None, Some("a=b")), "");
    assert_eq!(extract_access_token(None, None), "");
    assert_eq!(bearer("Bearer  t "), "t");
    assert_eq!(caller_token(None), None);
    assert_eq!(caller_token(Some("Bearer ")), None);
    assert_eq!(caller_token(Some("Bearer k")), Some("k".to_string()));
}

#[test]
fn bot_urls() {
    let c = BotConfig::default_config();
    assert_eq!(c.get_api_url(), "http://localhost:3010/api");
    assert_eq!(c.get_event_url(), "http://localhost:3011/event");
}

#[test]
fn urls_parse_to_host_and_port() {
    assert_eq!(parse_url("https://example.com/x"), Some(("example.com".to_string(), 443)));
    assert_eq!(parse_url("http://bot.local:3999/api"), Some(("bot.local".to_string(), 3999)));
    assert_eq!(parse_url("http://h/api"), Some(("h".to_string(), 80)));
    assert_eq!(parse_url("not a url"), None);
}

#[test]
fn default_ports_by_scheme() {
    assert_eq!(
        host_port_of(Some((Some("h".to_string()), None, "https".to_string()))),
        Some(("h".to_string(), 443))
    );
    assert_eq!(
        host_port_of(Some((Some("h".to_string()), None, "ws".to_string()))),
        Some(("h".to_string(), 80))
    );
    assert_eq!(
        host_port_of(Some((Some("h".to_string()), Some(9), "https".to_string()))),
        Some(("h".to_string(), 9))
    );
    assert_eq!(host_port_of(Some((None, Some(9), "file".to_string()))), None);
    assert_eq!(host_port_of(None), None);
}

#[test]
fn sse_keeps_split_characters() {
    let mut p = SseParser::new();
    let bytes = "data: 你好\n\n".as_bytes();
    assert!(p.push_bytes(&bytes[..7]).is_empty());
    assert_eq!(p.pending_bytes.len(), 1);
    assert!(p.push_bytes(&bytes[7..8]).is_empty());
    assert_eq!(p.pending_bytes.len(), 2);
    assert!(p.push_bytes(&bytes[8..10]).is_empty());
    assert_eq!(p.pending_bytes.len(), 1);
    let ev = p.push_bytes(&bytes[10..]);
    assert_eq!(ev.len(), 1);
    assert_eq!(ev[0].data, "你好");
    assert!(p.pending_bytes.is_empty());
}

fn legacy() -> LegacyBotConfig {
    LegacyBotConfig {
        api: None,
        event_sse: None,
        host: None,
        api_port: None,
        event_port: None,
        token: Some("t".to_string()),
        auto_connect: true,
    }
}

#[test]
fn legacy_settings_convert() {
    let l = LegacyBotConfig { host: Some("h".to_string()), api_port: Some(1), event_port: Some(2), ..legacy() };
    let c = BotConfig::from_legacy(l);
    assert_eq!((c.host.as_str(), c.api_port, c.event_port, c.auto_connect), ("h", 1, 2, true));
    let l = LegacyBotConfig {
        api: Some("http://10.0.0.2:5000/api".to_string()),
        event_sse: Some("https://10.0.0.2/event".to_string()),
        ..legacy()
    };
    let c = BotConfig::from_legacy(l);
    assert_eq!((c.host.as_str(), c.api_port, c.event_port), ("10.0.0.2", 5000, 443));
    assert_eq!(c.token, Some("t".to_string()));
    let c = BotConfig::from_legacy(legacy());
    assert_eq!((c.host.as_str(), c.api_port, c.event_port, c.auto_connect), ("localhost", 3010, 3011, false));
    assert_eq!(c.token, Some("t".to_string()));
}

#[test]
fn settings_file_result_codes() {
    let (code, c) = load_bot_config(BotConfigFile::Unreadable);
    assert_eq!(code, 1);
    assert_eq!(c.api_port, 3010);
    let (code, _) = load_bot_config(BotConfigFile::Missing);
    assert_eq!(code, 0);
    let (code, c) = load_bot_config(BotConfigFile::Legacy(legacy()));
    assert_eq!(code, 0);
    assert_eq!(c.token, Some("t".to_string()));
    let mut cur = BotConfig::default_config();
    cur.api_port = 1234;
    let (code, c) = load_bot_config(BotConfigFile::Current(cur));
    assert_eq!((code, c.api_port), (0, 1234));
}
