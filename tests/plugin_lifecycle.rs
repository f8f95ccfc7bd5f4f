use yuyu::manager::{
    shutdown_step, ManagerError, PluginConfig, PluginManager, ShutdownStep,
};
use yuyu::plugin::{Plugin, PluginManifest, PluginStatus, MAX_OUTPUT_LINES};

fn manifest(entry: &str) -> PluginManifest {
    PluginManifest {
        name: "Echo Hello".to_string(),
        entry: entry.to_string(),
        description: "says hi".to_string(),
        version: "1.0.0".to_string(),
        author: None,
    }
}

fn record(id: &str, entry: &str) -> Plugin {
    Plugin::new(
        id.to_string(),
        manifest(entry),
        format!("app/{}", id),
        format!("tmp/app/{}", id),
    )
}

fn ready_manager() -> PluginManager {
    let mut m = PluginManager::new("exe".to_string(), 8080, "127.0.0.1".to_string(), 0, 0);
    m.set_milky_proxy_api_port(4001);
    m.set_milky_proxy_event_port(4002);
    m.load_plugins(vec![record("echohello", "./bin")]);
    m
}

fn status_of(m: &PluginManager, id: &str) -> (PluginStatus, bool, Option<String>, Option<String>) {
    let i = m.find(id).unwrap();
    let p = &m.plugins[i];
    (p.get_status(), p.is_enabled(), p.get_api_token(), p.get_webui_url())
}

#[test]
fn new_record_is_stopped_and_disabled() {
    let p = record("a", "./bin");
    assert_eq!(p.get_status(), PluginStatus::Stopped);
    assert!(!p.is_enabled());
    assert!(!p.is_process_alive());
    assert_eq!(p.get_pid(), 0);
    assert_eq!(p.current_run_id(), 0);
    assert!(p.get_output().is_empty());
    assert_eq!(p.get_api_token(), None);
    assert_eq!(p.get_webui_url(), None);
}

#[test]
fn begin_run_advances_generation_and_clears_stop() {
    let mut p = record("a", "./bin");
    assert_eq!(p.begin_run(), 1);
    assert_eq!(p.request_stop_current_run(), 1);
    assert!(p.should_stop_run(1));
    assert_eq!(p.begin_run(), 2);
    assert_eq!(p.current_run_id(), 2);
    assert!(p.is_current_run(2));
    assert!(!p.is_current_run(1));
    assert!(!p.should_stop_run(1));
    assert!(!p.should_stop_run(2));
    assert_eq!(p.stop_run_id, 0);
}

#[test]
fn stop_marker_never_passes_the_run() {
    let mut p = record("a", "./bin");
    p.request_stop_current_run();
    assert!(!p.should_stop_run(0));
    assert_eq!(p.stop_run_id, 0);
    for _ in 0..3 {
        p.begin_run();
        let s = p.request_stop_current_run();
        assert!(s != 0 && s <= p.run_id);
    }
}

#[test]
fn output_buffer_drops_oldest_line() {
    let mut p = record("a", "./bin");
    for k in 0..(MAX_OUTPUT_LINES + 25) {
        p.add_output(format!("line{}", k));
        assert!(p.get_output().len() <= MAX_OUTPUT_LINES);
    }
    let out = p.get_output();
    assert_eq!(out.len(), 500);
    assert_eq!(out[0], "line25");
    assert_eq!(out[499], "line524");
    p.clear_output();
    assert!(p.get_output().is_empty());
    p.clear_output();
    assert!(p.get_output().is_empty());
}

#[test]
fn process_alive_false_clears_pid() {
    let mut p = record("a", "./bin");
    p.set_process_alive(true);
    p.set_pid(42);
    assert_eq!(p.get_pid(), 42);
    p.set_workspace(Some("w".to_string()));
    p.set_process_alive(false);
    assert_eq!(p.get_pid(), 0);
    assert_eq!(p.get_workspace(), None);
    assert!(!p.is_process_alive());
}

#[test]
fn webui_and_token_clear_idempotently() {
    let mut p = record("a", "./bin");
    p.set_webui("/ui".to_string());
    p.set_api_token(Some("t".to_string()));
    assert_eq!(p.get_webui_url(), Some("/ui".to_string()));
    p.clear_webui();
    p.clear_webui();
    p.set_api_token(None);
    p.set_api_token(None);
    assert_eq!(p.get_webui_url(), None);
    assert_eq!(p.get_api_token(), None);
    assert_eq!(PluginStatus::Running.as_str(), "running");
    assert_eq!(PluginStatus::Error.as_str(), "error");
    assert_eq!(PluginStatus::Stopped.as_str(), "stopped");
}

#[test]
fn load_plugins_twice_keeps_registry() {
    let mut m = ready_manager();
    let plan = m.begin_start("echohello", true).unwrap();
    m.mark_running("echohello", plan.run_id, "tok".to_string(), "ws".to_string());
    m.load_plugins(vec![record("echohello", "./other"), record("second", "./b")]);
    m.load_plugins(vec![record("echohello", "./other"), record("second", "./b")]);
    let ids = m.plugin_ids();
    assert_eq!(ids, vec!["echohello".to_string(), "second".to_string()]);
    let (st, en, tok, _) = status_of(&m, "echohello");
    assert_eq!(st, PluginStatus::Running);
    assert!(en);
    assert_eq!(tok, Some("tok".to_string()));
    assert_eq!(m.plugins[0].manifest.entry, "./bin");
}

#[test]
fn happy_path_start_output_stop() {
    let mut m = ready_manager();
    let mut config = PluginConfig { enabled_plugins: vec![] };
    let plan = m.begin_start("echohello", true).unwrap();
    assert_eq!(plan.run_id, 1);
    assert_eq!(plan.program, "./bin");
    assert!(plan.args.is_empty());
    let ev = m.mark_running("echohello", 1, "tok".to_string(), "tmp/app/echohello/run-1-ab".to_string()).unwrap();
    assert_eq!(m.plugins[0].get_workspace(), Some("tmp/app/echohello/run-1-ab".to_string()));
    assert_eq!(ev.status, PluginStatus::Running);
    assert!(ev.enabled);
    config.add_enabled_plugin("echohello");
    let evs = m.record_output(
        "echohello",
        &vec!["[系统] 插件已启动: ./bin".to_string(), "hi".to_string()],
    );
    assert_eq!(evs.len(), 2);
    assert_eq!(evs[1].line, "hi");
    assert_eq!(evs[1].plugin_id, "echohello");
    let drop_from_config = m.stop_plugin("echohello", true).unwrap();
    assert!(drop_from_config);
    config.remove_enabled_plugin("echohello");
    let (_, en, tok, web) = status_of(&m, "echohello");
    assert!(!en);
    assert_eq!(tok, None);
    assert_eq!(web, None);
    let (line, status) = m.finish_run("echohello", 1, false, "[系统] 插件已被用户停止".to_string()).unwrap();
    assert_eq!(line.line, "[系统] 插件已被用户停止");
    assert_eq!(status.status, PluginStatus::Stopped);
    assert!(!status.enabled);
    assert_eq!(status.webui_url, None);
    let (st, en, tok, web) = status_of(&m, "echohello");
    assert_eq!(st, PluginStatus::Stopped);
    assert!(!en);
    assert_eq!(tok, None);
    assert_eq!(web, None);
    assert!(!m.any_alive());
    assert_eq!(m.plugins[0].get_workspace(), None);
    assert!(config.enabled_plugins.is_empty());
    let out = m.get_plugin_output("echohello").unwrap();
    assert_eq!(out[1], "hi");
}

#[test]
fn unexpected_exit_keeps_enabled() {
    let mut m = ready_manager();
    let mut config = PluginConfig { enabled_plugins: vec![] };
    let plan = m.begin_start("echohello", true).unwrap();
    m.mark_running("echohello", plan.run_id, "tok".to_string(), "ws".to_string());
    config.add_enabled_plugin("echohello");
    let (_, status) = m.finish_run("echohello", plan.run_id, false, "[系统] 插件进程已退出".to_string()).unwrap();
    assert_eq!(status.status, PluginStatus::Stopped);
    assert!(status.enabled);
    let (st, en, tok, _) = status_of(&m, "echohello");
    assert_eq!(st, PluginStatus::Stopped);
    assert!(en);
    assert_eq!(tok, None);
    assert_eq!(config.enabled_plugins, vec!["echohello".to_string()]);
}

#[test]
fn proxy_not_ready_changes_nothing() {
    let mut m = PluginManager::new("exe".to_string(), 8080, "127.0.0.1".to_string(), 0, 0);
    m.load_plugins(vec![record("echohello", "./bin")]);
    assert!(!m.milky_ready());
    assert_eq!(m.begin_start("echohello", true).err(), Some(ManagerError::ProxyNotReady));
    let (st, en, _, _) = status_of(&m, "echohello");
    assert_eq!(st, PluginStatus::Stopped);
    assert!(!en);
    assert_eq!(m.plugins[0].current_run_id(), 0);
    let mut m = ready_manager();
    assert_eq!(m.begin_start("echohello", false).err(), Some(ManagerError::ProxyNotReady));
    assert_eq!(m.plugins[0].current_run_id(), 0);
}

#[test]
fn empty_entry_reported_before_proxy_readiness() {
    let mut m = PluginManager::new("exe".to_string(), 8080, "127.0.0.1".to_string(), 0, 0);
    m.load_plugins(vec![record("blank", ""), record("ok", "./bin")]);
    assert_eq!(m.begin_start("blank", true).err(), Some(ManagerError::EmptyEntry));
    assert_eq!(m.begin_start("ok", true).err(), Some(ManagerError::ProxyNotReady));
    assert_eq!(m.begin_start("none", false).err(), Some(ManagerError::NotFound));
}

#[test]
fn readiness_follows_ports() {
    let mut m = PluginManager::new("exe".to_string(), 0, "127.0.0.1".to_string(), 0, 0);
    assert!(!m.port_ready());
    m.set_server_port(9000);
    assert!(m.port_ready());
    assert!(!m.set_milky_proxy_api_port(1));
    assert!(!m.milky_ready());
    assert!(m.set_milky_proxy_event_port(2));
    assert!(m.milky_ready());
}

#[test]
fn start_errors() {
    let mut m = ready_manager();
    assert_eq!(m.begin_start("ghost", true).err(), Some(ManagerError::NotFound));
    m.load_plugins(vec![record("blank", "   ")]);
    assert_eq!(m.begin_start("blank", true).err(), Some(ManagerError::EmptyEntry));
    assert_eq!(m.begin_start("blank", false).err(), Some(ManagerError::EmptyEntry));
    let i = m.find("blank").unwrap();
    assert_eq!(m.plugins[i].current_run_id(), 0);
    m.load_plugins(vec![record("args", "python  main.py\t--port 1")]);
    let plan = m.begin_start("args", true).unwrap();
    assert_eq!(plan.program, "python");
    assert_eq!(plan.args, vec!["main.py".to_string(), "--port".to_string(), "1".to_string()]);
    assert_eq!(m.stop_plugin("ghost", true).err(), Some(ManagerError::NotFound));
    assert_eq!(m.clear_plugin_output("ghost").err(), Some(ManagerError::NotFound));
    assert_eq!(m.get_plugin_output("ghost").err(), Some(ManagerError::NotFound));
    assert!(m.set_plugin_webui("ghost", "/x").is_err());
    assert!(!ManagerError::State.message().is_empty());
    assert_eq!(ManagerError::NotFound.message(), "Plugin not found");
}

#[test]
fn generational_stop_does_not_reach_next_run() {
    let mut m = ready_manager();
    let first = m.begin_start("echohello", true).unwrap().run_id;
    assert_eq!(first, 1);
    m.mark_running("echohello", first, "t1".to_string(), "ws".to_string());
    m.stop_plugin("echohello", true).unwrap();
    assert_eq!(m.plugins[0].stop_run_id, 1);
    let second = m.begin_start("echohello", true).unwrap().run_id;
    assert_eq!(second, 2);
    assert_eq!(m.plugins[0].stop_run_id, 0);
    let ev = m.mark_running("echohello", second, "t2".to_string(), "ws".to_string()).unwrap();
    assert_eq!(ev.status, PluginStatus::Running);
    assert!(m.mark_running("echohello", first, "stale".to_string(), "ws".to_string()).is_none());
    assert!(m.finish_run("echohello", first, false, "late".to_string()).is_none());
    let (st, en, tok, _) = status_of(&m, "echohello");
    assert_eq!(st, PluginStatus::Running);
    assert!(en);
    assert_eq!(tok, Some("t2".to_string()));
}

#[test]
fn spawn_failure_is_error_and_enabled() {
    let mut m = ready_manager();
    let plan = m.begin_start("echohello", true).unwrap();
    m.mark_running("echohello", plan.run_id, "t".to_string(), "ws".to_string());
    let (line, status) = m.finish_run("echohello", plan.run_id, true, "[错误] 启动插件失败: x".to_string()).unwrap();
    assert_eq!(status.status, PluginStatus::Error);
    assert!(status.enabled);
    assert_eq!(line.line, "[错误] 启动插件失败: x");
    let (st, en, tok, web) = status_of(&m, "echohello");
    assert_eq!(st, PluginStatus::Error);
    assert!(en);
    assert_eq!(tok, None);
    assert_eq!(web, None);
    assert!(!m.any_alive());
}

#[test]
fn stop_during_spawn_ends_stopped_and_disabled() {
    let mut m = ready_manager();
    let plan = m.begin_start("echohello", true).unwrap();
    m.mark_running("echohello", plan.run_id, "t".to_string(), "ws".to_string());
    m.stop_plugin("echohello", true).unwrap();
    let (_, status) = m.finish_run("echohello", plan.run_id, true, "x".to_string()).unwrap();
    assert_eq!(status.status, PluginStatus::Stopped);
    assert!(!status.enabled);
    assert!(!m.any_alive());
    assert!(m.finish_run("echohello", plan.run_id, true, "again".to_string()).is_none());
}

#[test]
fn non_user_stop_keeps_enabled() {
    let mut m = ready_manager();
    let plan = m.begin_start("echohello", true).unwrap();
    m.mark_running("echohello", plan.run_id, "t".to_string(), "ws".to_string());
    assert_eq!(m.stop_plugin("echohello", false), Ok(false));
    let (_, en, tok, _) = status_of(&m, "echohello");
    assert!(en);
    assert_eq!(tok, Some("t".to_string()));
}

#[test]
fn delete_refuses_running_plugin() {
    let mut m = ready_manager();
    let plan = m.begin_start("echohello", true).unwrap();
    m.mark_running("echohello", plan.run_id, "t".to_string(), "ws".to_string());
    assert_eq!(m.delete_plugin("echohello"), Err(ManagerError::State));
    assert!(m.find("echohello").is_some());
    m.stop_plugin("echohello", true).unwrap();
    m.finish_run("echohello", plan.run_id, false, "bye".to_string());
    assert_eq!(m.delete_plugin("echohello"), Ok(()));
    assert!(m.find("echohello").is_none());
    assert_eq!(m.delete_plugin("echohello"), Err(ManagerError::NotFound));
}

#[test]
fn enabled_set_heals_missing_ids() {
    let m = ready_manager();
    let config = PluginConfig {
        enabled_plugins: vec!["ghost".to_string(), "echohello".to_string(), "unloaded".to_string()],
    };
    let dirs = vec!["echohello".to_string(), "unloaded".to_string()];
    let r = m.get_enabled_plugins(&config, &dirs);
    assert_eq!(r.loaded, vec!["echohello".to_string()]);
    assert_eq!(r.healed.enabled_plugins, vec!["echohello".to_string(), "unloaded".to_string()]);
    assert!(r.changed);
    let again = m.get_enabled_plugins(&r.healed, &dirs);
    assert!(!again.changed);
    assert_eq!(again.healed.enabled_plugins, r.healed.enabled_plugins);
}

#[test]
fn purge_only_when_directory_gone() {
    let m = ready_manager();
    let mut config = PluginConfig { enabled_plugins: vec!["a".to_string(), "b".to_string()] };
    assert!(!m.purge_enabled_plugin_if_absent(&mut config, "a", true));
    assert_eq!(config.enabled_plugins.len(), 2);
    assert!(m.purge_enabled_plugin_if_absent(&mut config, "a", false));
    assert_eq!(config.enabled_plugins, vec!["b".to_string()]);
}

#[test]
fn config_writes_are_idempotent() {
    let mut c = PluginConfig { enabled_plugins: vec!["x".to_string()] };
    assert!(c.add_enabled_plugin("y"));
    assert!(!c.add_enabled_plugin("y"));
    assert_eq!(c.enabled_plugins, vec!["x".to_string(), "y".to_string()]);
    c.remove_enabled_plugin("x");
    c.remove_enabled_plugin("x");
    assert_eq!(c.enabled_plugins, vec!["y".to_string()]);
    c.add_enabled_plugin("x");
    assert!(c.enabled_plugins.contains(&"x".to_string()));
}

#[test]
fn webui_path_is_normalised() {
    let mut m = ready_manager();
    let ev = m.set_plugin_webui("echohello", "").unwrap();
    assert_eq!(ev.webui_url, Some("/".to_string()));
    let ev = m.set_plugin_webui("echohello", "panel").unwrap();
    assert_eq!(ev.webui_url, Some("/panel".to_string()));
    let ev = m.set_plugin_webui("echohello", "/ui/").unwrap();
    assert_eq!(ev.webui_url, Some("/ui/".to_string()));
    assert_eq!(ev.plugin_id, "echohello");
    assert_eq!(ev.status, PluginStatus::Stopped);
}

#[test]
fn token_resolves_to_plugin() {
    let mut m = ready_manager();
    m.load_plugins(vec![record("other", "./x")]);
    let plan = m.begin_start("other", true).unwrap();
    m.mark_running("other", plan.run_id, "secret".to_string(), "ws".to_string());
    assert_eq!(m.get_plugin_id_by_api_token("secret"), Some("other".to_string()));
    assert_eq!(m.get_plugin_id_by_api_token("nope"), None);
    assert_eq!(m.get_plugin_id_by_api_token(""), None);
}

#[test]
fn list_describes_records() {
    let mut m = ready_manager();
    m.record_output("echohello", &vec!["a".to_string()]);
    let list = m.list_plugins();
    assert_eq!(list.len(), 1);
    assert_eq!(list[0].id, "echohello");
    assert_eq!(list[0].name, "Echo Hello");
    assert_eq!(list[0].version, "1.0.0");
    assert_eq!(list[0].output, vec!["a".to_string()]);
    assert_eq!(m.get_plugin_name("echohello"), Some("Echo Hello".to_string()));
    assert_eq!(m.get_plugin_dir("echohello"), Some("app/echohello".to_string()));
    assert_eq!(m.get_plugin_name("zzz"), None);
    m.clear_plugin_output("echohello").unwrap();
    assert!(m.get_plugin_output("echohello").unwrap().is_empty());
}

#[test]
fn alive_pids_lists_live_processes() {
    let mut m = ready_manager();
    let plan = m.begin_start("echohello", true).unwrap();
    m.mark_running("echohello", plan.run_id, "t".to_string(), "ws".to_string());
    assert!(m.any_alive());
    assert!(m.alive_pids().is_empty());
    m.set_plugin_pid("echohello", plan.run_id, 777);
    assert_eq!(m.alive_pids(), vec![777]);
    m.set_plugin_pid("echohello", plan.run_id + 5, 1);
    assert_eq!(m.alive_pids(), vec![777]);
}

#[test]
fn shutdown_polls_then_kills_then_gives_up() {
    assert_eq!(shutdown_step(false, 0, 8000), ShutdownStep { force_kill: false, finish: true });
    assert_eq!(shutdown_step(true, 1000, 8000), ShutdownStep { force_kill: false, finish: false });
    assert_eq!(shutdown_step(true, 7000, 8000), ShutdownStep { force_kill: true, finish: false });
    assert_eq!(shutdown_step(true, 8000, 8000), ShutdownStep { force_kill: true, finish: true });
}
