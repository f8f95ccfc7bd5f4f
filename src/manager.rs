//! The registry of plugin records and the persisted set of plugins to start.
use vstd::prelude::*;
use crate::plugin::{Plugin, PluginState, PluginStatus, opt_view, output_after, webui_view};
use crate::runner::{entry_tokens, owned, split_entry};
use crate::text::same_text;

verus! {

/// The persisted desire to run: ids of the plugins to start with the host.
pub struct PluginConfig {
    pub enabled_plugins: Vec<String>,
}

pub open spec fn ids_view(v: Seq<String>) -> Seq<Seq<char>> {
    v.map_values(|s: String| s@)
}

/// The elements of `s` that `keep` accepts, in order.
pub open spec fn select(s: Seq<Seq<char>>, keep: spec_fn(Seq<char>) -> bool) -> Seq<Seq<char>>
    decreases s.len(),
{
    if s.len() == 0 {
        Seq::empty()
    } else {
        let r = select(s.drop_last(), keep);
        if keep(s.last()) {
            r.push(s.last())
        } else {
            r
        }
    }
}

/// The enabled set after `id` is persisted as enabled.
pub open spec fn with_enabled(s: Seq<Seq<char>>, id: Seq<char>) -> Seq<Seq<char>> {
    if s.contains(id) {
        s
    } else {
        s.push(id)
    }
}

/// Accepts every id but `id`.
pub open spec fn not_id(id: Seq<char>) -> spec_fn(Seq<char>) -> bool {
    |x: Seq<char>| x != id
}

/// The enabled set after `id` is persisted as disabled.
pub open spec fn without_enabled(s: Seq<Seq<char>>, id: Seq<char>) -> Seq<Seq<char>> {
    select(s, not_id(id))
}

pub proof fn lemma_select_contains(s: Seq<Seq<char>>, keep: spec_fn(Seq<char>) -> bool, x: Seq<char>)
    ensures
        select(s, keep).contains(x) <==> (s.contains(x) && keep(x)),
    decreases s.len(),
{
    if s.len() > 0 {
        lemma_select_contains(s.drop_last(), keep, x);
        assert(s =~= s.drop_last().push(s.last()));
        if s.contains(x) && keep(x) && !s.drop_last().contains(x) {
            assert(x == s.last()) by {
                let i = choose|i: int| 0 <= i < s.len() && s[i] == x;
                if i < s.len() - 1 {
                    assert(s.drop_last()[i] == x);
                }
            }
        }
        let r = select(s.drop_last(), keep);
        if keep(s.last()) {
            assert(r.push(s.last()).last() == s.last());
            if r.push(s.last()).contains(x) && x != s.last() {
                let i = choose|i: int| 0 <= i < r.len() + 1 && r.push(s.last())[i] == x;
                assert(r[i] == x);
            }
            if r.contains(x) {
                let i = choose|i: int| 0 <= i < r.len() && r[i] == x;
                assert(r.push(s.last())[i] == x);
            }
        }
        if s.drop_last().contains(x) {
            let i = choose|i: int| 0 <= i < s.len() - 1 && s.drop_last()[i] == x;
            assert(s[i] == x);
        }
    }
}

pub proof fn lemma_select_twice(s: Seq<Seq<char>>, keep: spec_fn(Seq<char>) -> bool)
    ensures
        select(select(s, keep), keep) == select(s, keep),
    decreases s.len(),
{
    if s.len() > 0 {
        lemma_select_twice(s.drop_last(), keep);
        let r = select(s.drop_last(), keep);
        if keep(s.last()) {
            assert(r.push(s.last()).drop_last() =~= r);
        }
    }
}

impl PluginConfig {
    pub open spec fn view(&self) -> Seq<Seq<char>> {
        ids_view(self.enabled_plugins@)
    }

    /// Persists `id` as enabled; nothing changes if it already is.
    pub fn add_enabled_plugin(&mut self, id: &str) -> (changed: bool)
        ensures
            final(self).view() == with_enabled(old(self).view(), id@),
            changed == !old(self).view().contains(id@),
    {
        let mut i: usize = 0;
        while i < self.enabled_plugins.len()
            invariant
                i <= self.enabled_plugins@.len(),
                self.enabled_plugins == old(self).enabled_plugins,
                forall|j: int| 0 <= j < i ==> self.view()[j] != id@,
            decreases self.enabled_plugins@.len() - i,
        {
            if same_text(self.enabled_plugins[i].as_str(), id) {
                assert(self.view()[i as int] == id@);
                return false;
            }
            i = i + 1;
        }
        let t = crate::runner::owned(id);
        self.enabled_plugins.push(t);
        assert(self.view() =~= old(self).view().push(id@));
        true
    }

    /// Persists `id` as disabled: every occurrence is dropped.
    pub fn remove_enabled_plugin(&mut self, id: &str)
        ensures
            final(self).view() == without_enabled(old(self).view(), id@),
    {
        let mut kept: Vec<String> = Vec::new();
        let mut i: usize = 0;
        let ghost s = old(self).view();
        while i < self.enabled_plugins.len()
            invariant
                i <= self.enabled_plugins@.len(),
                self.enabled_plugins == old(self).enabled_plugins,
                s == self.view(),
                ids_view(kept@) == select(s.subrange(0, i as int), not_id(id@)),
            decreases self.enabled_plugins@.len() - i,
        {
            assert(s.subrange(0, i as int + 1).drop_last() =~= s.subrange(0, i as int));
            if !same_text(self.enabled_plugins[i].as_str(), id) {
                kept.push(self.enabled_plugins[i].clone());
            }
            assert(ids_view(kept@) =~= select(s.subrange(0, i as int + 1), not_id(id@)));
            i = i + 1;
        }
        assert(s.subrange(0, i as int) =~= s);
        self.enabled_plugins = kept;
    }
}

/// Persisting the same choice twice leaves the enabled set as persisting it once.
pub proof fn lemma_config_write_idempotent(s: Seq<Seq<char>>, id: Seq<char>)
    ensures
        with_enabled(with_enabled(s, id), id) == with_enabled(s, id),
        without_enabled(without_enabled(s, id), id) == without_enabled(s, id),
{
    if !s.contains(id) {
        assert(s.push(id)[s.len() as int] == id);
    }
    lemma_select_twice(s, not_id(id));
}

/// The enabled set follows the last write for an id: enabled after an add,
/// absent after a removal.
pub proof fn lemma_enabled_follows_last_write(s: Seq<Seq<char>>, id: Seq<char>)
    ensures
        with_enabled(s, id).contains(id),
        with_enabled(without_enabled(s, id), id).contains(id),
        !without_enabled(s, id).contains(id),
        !without_enabled(with_enabled(s, id), id).contains(id),
{
    if !s.contains(id) {
        assert(s.push(id)[s.len() as int] == id);
    }
    let t = without_enabled(s, id);
    if !t.contains(id) {
        assert(t.push(id)[t.len() as int] == id);
    }
    lemma_select_contains(s, not_id(id), id);
    lemma_select_contains(with_enabled(s, id), not_id(id), id);
}

/// Why a manager operation did nothing.
#[derive(Clone, Copy, Debug, PartialEq, Eq, Structural)]
pub enum ManagerError {
    /// No plugin has the id.
    NotFound,
    /// The manifest's entry holds no program.
    EmptyEntry,
    /// The upstream proxy's ports are not known or do not accept connections.
    ProxyNotReady,
    /// The plugin is running.
    State,
}

impl ManagerError {
    pub fn message(&self) -> (r: &'static str)
        ensures
            r@.len() > 0,
    {
        proof {
            reveal_strlit("Plugin not found");
            reveal_strlit("Entry cannot be empty");
            reveal_strlit("Milky proxy not ready");
            reveal_strlit("Cannot delete a running plugin. Please stop it first.");
        }
        match self {
            ManagerError::NotFound => "Plugin not found",
            ManagerError::EmptyEntry => "Entry cannot be empty",
            ManagerError::ProxyNotReady => "Milky proxy not ready",
            ManagerError::State => "Cannot delete a running plugin. Please stop it first.",
        }
    }
}

/// A line a plugin printed.
pub struct PluginOutputEvent {
    pub plugin_id: String,
    pub line: String,
}

/// What a plugin's record says after a change of its status or WebUI.
pub struct PluginStatusEvent {
    pub plugin_id: String,
    pub status: PluginStatus,
    pub enabled: bool,
    pub webui_url: Option<String>,
}

/// One row of the plugin list.
pub struct PluginInfo {
    pub id: String,
    pub name: String,
    pub description: String,
    pub version: String,
    pub author: Option<String>,
    pub status: PluginStatus,
    pub enabled: bool,
    pub output: Vec<String>,
    pub webui_url: Option<String>,
}

/// What a run is to execute.
pub struct StartPlan {
    pub run_id: u64,
    pub program: String,
    pub args: Vec<String>,
}

/// What the shutdown poll does next.
#[derive(Clone, Copy, Debug, PartialEq, Eq, Structural)]
pub struct ShutdownStep {
    /// Kill the processes still alive.
    pub force_kill: bool,
    /// Stop waiting.
    pub finish: bool,
}

/// Time before the deadline from which processes still alive are killed.
pub const FORCE_KILL_WINDOW_MS: u64 = 1000;

/// One poll of the shutdown wait: done once nothing is alive or the deadline is reached,
/// and killing what is left in the last second before the deadline.
pub fn shutdown_step(any_alive: bool, now_ms: u64, deadline_ms: u64) -> (r: ShutdownStep)
    ensures
        r.finish == (!any_alive || now_ms >= deadline_ms),
        r.force_kill == (any_alive && now_ms as int + FORCE_KILL_WINDOW_MS >= deadline_ms),
{
    if !any_alive {
        return ShutdownStep { force_kill: false, finish: true };
    }
    let force_kill = now_ms >= deadline_ms || deadline_ms - now_ms <= FORCE_KILL_WINDOW_MS;
    ShutdownStep { force_kill, finish: now_ms >= deadline_ms }
}

/// The state of a record once a run has started with `token` in `workspace`.
pub open spec fn started(st: PluginState, token: String, workspace: String) -> PluginState {
    PluginState {
        status: PluginStatus::Running,
        enabled: true,
        is_alive: true,
        api_token: Some(token),
        webui: None,
        workspace: Some(workspace),
        ..st
    }
}

/// The state of a record once the user has stopped it.
pub open spec fn user_stopped(st: PluginState) -> PluginState {
    PluginState { enabled: false, api_token: None, webui: None, ..st }
}

/// The status that closes a run.
pub open spec fn terminal_status(was_stopped: bool, spawn_failed: bool) -> PluginStatus {
    if was_stopped {
        PluginStatus::Stopped
    } else if spawn_failed {
        PluginStatus::Error
    } else {
        PluginStatus::Stopped
    }
}

/// The state of a record once its run has ended, before the closing line is added: a run
/// the user stopped leaves it disabled, any other end keeps the wish to run.
pub open spec fn terminal(st: PluginState, was_stopped: bool, spawn_failed: bool) -> PluginState {
    PluginState {
        status: terminal_status(was_stopped, spawn_failed),
        enabled: !was_stopped,
        is_alive: false,
        pid: 0,
        api_token: None,
        webui: None,
        workspace: None,
        ..st
    }
}

/// A WebUI path as stored: `/` when empty, with a leading `/` added when missing.
pub open spec fn normalize_webui(p: Seq<char>) -> Seq<char> {
    if p.len() == 0 {
        "/"@
    } else if p[0] == '/' {
        p
    } else {
        seq!['/'] + p
    }
}

/// The buffer after each line is added in order.
pub open spec fn outputs_after(o: Seq<Seq<char>>, ls: Seq<Seq<char>>) -> Seq<Seq<char>>
    decreases ls.len(),
{
    if ls.len() == 0 {
        o
    } else {
        output_after(outputs_after(o, ls.drop_last()), ls.last())
    }
}

/// Whether `finish_run` for `run_id` closes the run of `p`: the run is current and running.
pub open spec fn closes(p: Plugin, run_id: u64) -> bool {
    p.run_id == run_id && p.state.status == PluginStatus::Running
}

/// Each run gets exactly one terminal event after its Running one: once `mark_running` has
/// published Running for the current run, `finish_run` closes that run and no other, and
/// after closing it a second `finish_run` of it publishes nothing.
pub proof fn lemma_one_terminal_event_per_run(p: Plugin, token: String, workspace: String, spawn_failed: bool)
    ensures
        ({
            let s = Plugin { state: started(p.state, token, workspace), ..p };
            let t = Plugin { state: terminal(s.state, s.stop_pending(p.run_id), spawn_failed), ..s };
            &&& s.state.status == PluginStatus::Running
            &&& closes(s, p.run_id)
            &&& forall|r: u64| r != p.run_id ==> !closes(s, r)
            &&& !closes(t, p.run_id)
            &&& (t.state.status == PluginStatus::Stopped || t.state.status == PluginStatus::Error)
        }),
{
}

/// Ids are unique and every record is well formed.
pub open spec fn registry_wf(ps: Seq<Plugin>) -> bool {
    &&& forall|i: int, j: int| 0 <= i < ps.len() && 0 <= j < ps.len() && i != j ==> ps[i].id@ != ps[j].id@
    &&& forall|i: int| 0 <= i < ps.len() ==> #[trigger] ps[i].wf()
}

pub open spec fn registry_has(ps: Seq<Plugin>, id: Seq<char>) -> bool {
    exists|i: int| 0 <= i < ps.len() && ps[i].id@ == id
}

/// The registry after a scan that found `found`: records whose id is new are appended,
/// existing ones are kept as they are.
pub open spec fn load_spec(ps: Seq<Plugin>, found: Seq<Plugin>) -> Seq<Plugin>
    decreases found.len(),
{
    if found.len() == 0 {
        ps
    } else {
        let q = load_spec(ps, found.drop_last());
        if registry_has(q, found.last().id@) {
            q
        } else {
            q.push(found.last())
        }
    }
}

proof fn lemma_load_grows(ps: Seq<Plugin>, found: Seq<Plugin>)
    ensures
        forall|i: int| 0 <= i < ps.len() ==> load_spec(ps, found)[i] == ps[i],
        ps.len() <= load_spec(ps, found).len(),
        forall|k: int| 0 <= k < found.len() ==> registry_has(load_spec(ps, found), #[trigger] found[k].id@),
    decreases found.len(),
{
    if found.len() > 0 {
        let f = found.drop_last();
        lemma_load_grows(ps, f);
        let q = load_spec(ps, f);
        assert forall|k: int| 0 <= k < found.len() implies registry_has(load_spec(ps, found), #[trigger] found[k].id@) by {
            if k < found.len() - 1 {
                assert(f[k] == found[k]);
                assert(registry_has(q, f[k].id@));
                if !registry_has(q, found.last().id@) {
                    let i = choose|i: int| 0 <= i < q.len() && q[i].id@ == f[k].id@;
                    assert(q.push(found.last())[i] == q[i]);
                }
            } else {
                if !registry_has(q, found.last().id@) {
                    assert(q.push(found.last())[q.len() as int] == found.last());
                }
            }
        }
    }
}

proof fn lemma_load_known(q: Seq<Plugin>, found: Seq<Plugin>)
    requires
        forall|k: int| 0 <= k < found.len() ==> registry_has(q, #[trigger] found[k].id@),
    ensures
        load_spec(q, found) == q,
    decreases found.len(),
{
    if found.len() > 0 {
        let f = found.drop_last();
        assert forall|k: int| 0 <= k < f.len() implies registry_has(q, #[trigger] f[k].id@) by {
            assert(f[k] == found[k]);
        }
        lemma_load_known(q, f);
        assert(registry_has(q, found[found.len() - 1].id@));
    }
}

/// A rescan that finds the same plugins again leaves the registry as the first scan left it.
pub proof fn lemma_load_plugins_idempotent(ps: Seq<Plugin>, found: Seq<Plugin>)
    ensures
        load_spec(load_spec(ps, found), found) == load_spec(ps, found),
{
    lemma_load_grows(ps, found);
    lemma_load_known(load_spec(ps, found), found);
}

/// The last lines of `s`, as many as the buffer keeps.
pub open spec fn keep_last(s: Seq<Seq<char>>) -> Seq<Seq<char>> {
    if s.len() > crate::plugin::MAX_OUTPUT_LINES {
        s.subrange(s.len() - crate::plugin::MAX_OUTPUT_LINES, s.len() as int)
    } else {
        s
    }
}

/// Adding lines one by one to a buffer leaves the last lines of all it ever held: past the
/// cap, every added line drops exactly the oldest and the newest are kept, in order.
pub proof fn lemma_outputs_keep_last(o: Seq<Seq<char>>, ls: Seq<Seq<char>>)
    requires
        o.len() <= crate::plugin::MAX_OUTPUT_LINES,
    ensures
        outputs_after(o, ls) == keep_last(o + ls),
    decreases ls.len(),
{
    if ls.len() > 0 {
        let x = ls.last();
        lemma_outputs_keep_last(o, ls.drop_last());
        let s = o + ls.drop_last();
        assert(o + ls =~= s.push(x));
        let k = keep_last(s);
        if s.len() > crate::plugin::MAX_OUTPUT_LINES {
            assert(k.push(x).drop_first() =~= keep_last(s.push(x)));
        } else if s.len() == crate::plugin::MAX_OUTPUT_LINES {
            assert(k.push(x).drop_first() =~= keep_last(s.push(x)));
        } else {
            assert(k.push(x) =~= keep_last(s.push(x)));
        }
    }
}

/// A line added past the cap drops the oldest line and keeps the new one last.
pub proof fn lemma_output_keeps_newest(o: Seq<Seq<char>>, line: Seq<char>)
    requires
        o.len() <= crate::plugin::MAX_OUTPUT_LINES,
    ensures
        output_after(o, line).len() <= crate::plugin::MAX_OUTPUT_LINES,
        output_after(o, line).last() == line,
        o.len() == crate::plugin::MAX_OUTPUT_LINES ==> output_after(o, line) == o.drop_first().push(line),
{
    if o.len() == crate::plugin::MAX_OUTPUT_LINES {
        assert(o.push(line).drop_first() =~= o.drop_first().push(line));
    }
}

pub open spec fn status_event_view(e: PluginStatusEvent) -> (Seq<char>, PluginStatus, bool, Option<Seq<char>>) {
    (e.plugin_id@, e.status, e.enabled, opt_view(e.webui_url))
}

/// The registry of plugin records, with the ports that runs need.
pub struct PluginManager {
    pub plugins: Vec<Plugin>,
    pub exe_dir: String,
    pub server_port: u16,
    pub milky_proxy_host: String,
    pub milky_proxy_api_port: u16,
    pub milky_proxy_event_port: u16,
}

proof fn lemma_update_wf(ps: Seq<Plugin>, i: int, p: Plugin)
    requires
        registry_wf(ps),
        0 <= i < ps.len(),
        p.id == ps[i].id,
        p.wf(),
    ensures
        registry_wf(ps.update(i, p)),
        ps.update(i, p).len() == ps.len(),
{
    let q = ps.update(i, p);
    assert forall|a: int| 0 <= a < q.len() implies #[trigger] q[a].wf() by {
        if a != i {
            assert(ps[a].wf());
        }
    }
}

impl PluginManager {
    pub open spec fn wf(&self) -> bool {
        registry_wf(self.plugins@)
    }

    pub open spec fn has(&self, id: Seq<char>) -> bool {
        registry_has(self.plugins@, id)
    }

    /// Index of the record with id `id`, where there is one.
    pub open spec fn index_of(&self, id: Seq<char>) -> int {
        choose|i: int| 0 <= i < self.plugins@.len() && self.plugins@[i].id@ == id
    }

    pub open spec fn record(&self, id: Seq<char>) -> Plugin {
        self.plugins@[self.index_of(id)]
    }

    /// The record of `id` is now `p`; everything else is as in `o`.
    pub open spec fn updated(&self, o: &PluginManager, id: Seq<char>, p: Plugin) -> bool {
        &&& self.plugins@ == o.plugins@.update(o.index_of(id), p)
        &&& self.exe_dir == o.exe_dir
        &&& self.server_port == o.server_port
        &&& self.milky_proxy_host == o.milky_proxy_host
        &&& self.milky_proxy_api_port == o.milky_proxy_api_port
        &&& self.milky_proxy_event_port == o.milky_proxy_event_port
    }

    pub fn new(
        exe_dir: String,
        server_port: u16,
        milky_proxy_host: String,
        milky_proxy_api_port: u16,
        milky_proxy_event_port: u16,
    ) -> (r: Self)
        ensures
            r.wf(),
            r.plugins@.len() == 0,
            r.exe_dir == exe_dir,
            r.server_port == server_port,
            r.milky_proxy_host == milky_proxy_host,
            r.milky_proxy_api_port == milky_proxy_api_port,
            r.milky_proxy_event_port == milky_proxy_event_port,
    {
        PluginManager {
            plugins: Vec::new(),
            exe_dir,
            server_port,
            milky_proxy_host,
            milky_proxy_api_port,
            milky_proxy_event_port,
        }
    }

    /// Where the record of `id` stands.
    pub fn find(&self, id: &str) -> (r: Option<usize>)
        requires
            self.wf(),
        ensures
            match r {
                Some(i) => i < self.plugins@.len() && self.plugins@[i as int].id@ == id@
                    && self.has(id@) && self.index_of(id@) == i,
                None => !self.has(id@),
            },
    {
        let mut i: usize = 0;
        while i < self.plugins.len()
            invariant
                self.wf(),
                i <= self.plugins@.len(),
                forall|j: int| 0 <= j < i ==> self.plugins@[j].id@ != id@,
            decreases self.plugins@.len() - i,
        {
            if same_text(self.plugins[i].id.as_str(), id) {
                let ghost k = self.index_of(id@);
                assert(self.plugins@[k].id@ == id@);
                assert(k == i);
                return Some(i);
            }
            i = i + 1;
        }
        None
    }

    /// Whether the host's own port is known.
    pub fn port_ready(&self) -> (r: bool)
        ensures
            r == (self.server_port != 0),
    {
        self.server_port != 0
    }

    /// Whether both ports of the upstream proxy are known.
    pub fn milky_ready(&self) -> (r: bool)
        ensures
            r == (self.milky_proxy_api_port != 0 && self.milky_proxy_event_port != 0),
    {
        self.milky_proxy_api_port != 0 && self.milky_proxy_event_port != 0
    }

    pub fn set_server_port(&mut self, port: u16)
        ensures
            *final(self) == (PluginManager { server_port: port, ..*old(self) }),
    {
        self.server_port = port;
    }

    /// Stores the proxy's API port; says whether both proxy ports are now known.
    pub fn set_milky_proxy_api_port(&mut self, port: u16) -> (ready: bool)
        ensures
            *final(self) == (PluginManager { milky_proxy_api_port: port, ..*old(self) }),
            ready == (old(self).milky_proxy_event_port != 0),
    {
        self.milky_proxy_api_port = port;
        self.milky_proxy_event_port != 0
    }

    /// Stores the proxy's event port; says whether both proxy ports are now known.
    pub fn set_milky_proxy_event_port(&mut self, port: u16) -> (ready: bool)
        ensures
            *final(self) == (PluginManager { milky_proxy_event_port: port, ..*old(self) }),
            ready == (old(self).milky_proxy_api_port != 0),
    {
        self.milky_proxy_event_port = port;
        self.milky_proxy_api_port != 0
    }
}

proof fn lemma_remove_insert(s: Seq<Plugin>, i: int, x: Plugin)
    requires
        0 <= i < s.len(),
    ensures
        s.remove(i).insert(i, x) == s.update(i, x),
{
    assert(s.remove(i).insert(i, x) =~= s.update(i, x));
}

proof fn lemma_remove_wf(ps: Seq<Plugin>, i: int)
    requires
        registry_wf(ps),
        0 <= i < ps.len(),
    ensures
        registry_wf(ps.remove(i)),
        forall|id: Seq<char>| registry_has(ps.remove(i), id) <==> (registry_has(ps, id) && id != ps[i].id@),
{
    let q = ps.remove(i);
    assert forall|a: int| 0 <= a < q.len() implies #[trigger] q[a].wf() by {
        if a < i {
            assert(q[a] == ps[a]);
        } else {
            assert(q[a] == ps[a + 1]);
        }
    }
    assert forall|a: int, b: int| 0 <= a < q.len() && 0 <= b < q.len() && a != b implies q[a].id@ != q[b].id@ by {
        let a2 = if a < i { a } else { a + 1 };
        let b2 = if b < i { b } else { b + 1 };
        assert(q[a] == ps[a2]);
        assert(q[b] == ps[b2]);
    }
    assert forall|id: Seq<char>| registry_has(q, id) <==> (registry_has(ps, id) && id != ps[i].id@) by {
        if registry_has(q, id) {
            let a = choose|a: int| 0 <= a < q.len() && q[a].id@ == id;
            let a2 = if a < i { a } else { a + 1 };
            assert(q[a] == ps[a2]);
        }
        if registry_has(ps, id) && id != ps[i].id@ {
            let a = choose|a: int| 0 <= a < ps.len() && ps[a].id@ == id;
            if a < i {
                assert(q[a] == ps[a]);
            } else {
                assert(q[a - 1] == ps[a]);
            }
        }
    }
}

/// One row of the list describes one record.
pub open spec fn info_matches(r: PluginInfo, p: Plugin) -> bool {
    &&& r.id == p.id
    &&& r.name == p.manifest.name
    &&& r.description == p.manifest.description
    &&& r.version == p.manifest.version
    &&& r.author == p.manifest.author
    &&& r.status == p.state.status
    &&& r.enabled == p.state.enabled
    &&& r.output@ == p.state.output@
    &&& opt_view(r.webui_url) == webui_view(p.state.webui)
}

fn clone_opt(o: &Option<String>) -> (r: Option<String>)
    ensures
        r == *o,
{
    match o {
        Some(s) => Some(s.clone()),
        None => None,
    }
}

impl PluginManager {
    /// Takes a scan of the plugins directory: records with a new id are added, records
    /// already present are kept as they are, with their run state.
    pub fn load_plugins(&mut self, found: Vec<Plugin>)
        requires
            old(self).wf(),
            forall|k: int| 0 <= k < found@.len() ==> #[trigger] found@[k].wf(),
        ensures
            final(self).wf(),
            final(self).plugins@ == load_spec(old(self).plugins@, found@),
            *final(self) == (PluginManager { plugins: final(self).plugins, ..*old(self) }),
    {
        let mut rest = found;
        let ghost all = rest@;
        let ghost mut k: int = 0;
        while rest.len() > 0
            invariant
                self.wf(),
                0 <= k <= all.len(),
                rest@ == all.subrange(k, all.len() as int),
                forall|j: int| 0 <= j < all.len() ==> #[trigger] all[j].wf(),
                self.plugins@ == load_spec(old(self).plugins@, all.subrange(0, k)),
                *self == (PluginManager { plugins: self.plugins, ..*old(self) }),
            decreases rest@.len(),
        {
            let p = rest.remove(0);
            assert(p == all[k]);
            assert(all.subrange(0, k + 1).drop_last() =~= all.subrange(0, k));
            match self.find(p.id.as_str()) {
                Some(_) => {},
                None => {
                    let ghost q = self.plugins@;
                    self.plugins.push(p);
                    assert forall|a: int| 0 <= a < self.plugins@.len() implies #[trigger] self.plugins@[a].wf() by {
                        if a < q.len() {
                            assert(self.plugins@[a] == q[a]);
                        }
                    }
                    assert forall|a: int, b: int| 0 <= a < self.plugins@.len() && 0 <= b < self.plugins@.len() && a != b implies self.plugins@[a].id@ != self.plugins@[b].id@ by {
                        if a == q.len() && b < q.len() {
                            assert(q[b] == self.plugins@[b]);
                        }
                        if b == q.len() && a < q.len() {
                            assert(q[a] == self.plugins@[a]);
                        }
                    }
                },
            }
            proof {
                k = k + 1;
                assert(rest@ =~= all.subrange(k, all.len() as int));
            }
        }
        assert(all.subrange(0, k) =~= all);
    }

    /// Checks that `id` can start and begins its next generation. Nothing changes on error,
    /// checked in this order: an unknown id, an entry with no program, proxy ports not known
    /// or not accepting connections (`proxy_reachable` says whether they accepted).
    pub fn begin_start(&mut self, id: &str, proxy_reachable: bool) -> (r: Result<StartPlan, ManagerError>)
        requires
            old(self).wf(),
            forall|i: int| 0 <= i < old(self).plugins@.len() ==> #[trigger] old(self).plugins@[i].run_id < u64::MAX,
        ensures
            final(self).wf(),
            !old(self).has(id@) ==> r == Err::<StartPlan, ManagerError>(ManagerError::NotFound) && *final(self) == *old(self),
            old(self).has(id@) && entry_tokens(old(self).record(id@).manifest.entry@).len() == 0
                ==> r == Err::<StartPlan, ManagerError>(ManagerError::EmptyEntry) && *final(self) == *old(self),
            old(self).has(id@) && entry_tokens(old(self).record(id@).manifest.entry@).len() > 0
                && !(old(self).milky_proxy_api_port != 0 && old(self).milky_proxy_event_port != 0 && proxy_reachable)
                ==> r == Err::<StartPlan, ManagerError>(ManagerError::ProxyNotReady) && *final(self) == *old(self),
            old(self).has(id@) && entry_tokens(old(self).record(id@).manifest.entry@).len() > 0
                && old(self).milky_proxy_api_port != 0 && old(self).milky_proxy_event_port != 0 && proxy_reachable
                ==> match r {
                    Ok(plan) => {
                        let rec = old(self).record(id@);
                        let toks = entry_tokens(rec.manifest.entry@);
                        &&& plan.run_id == rec.run_id + 1
                        &&& plan.program@ == toks[0]
                        &&& ids_view(plan.args@) == toks.drop_first()
                        &&& final(self).updated(old(self), id@, Plugin { run_id: plan.run_id, stop_run_id: 0, ..rec })
                    },
                    Err(_) => false,
                },
    {
        let i = match self.find(id) {
            Some(i) => i,
            None => return Err(ManagerError::NotFound),
        };
        let mut toks = split_entry(self.plugins[i].manifest.entry.as_str());
        if toks.len() == 0 {
            assert(ids_view(toks@).len() == 0);
            return Err(ManagerError::EmptyEntry);
        }
        if !(self.milky_proxy_api_port != 0 && self.milky_proxy_event_port != 0 && proxy_reachable) {
            return Err(ManagerError::ProxyNotReady);
        }
        let ghost tv = ids_view(toks@);
        let program = toks.remove(0);
        assert(ids_view(toks@) =~= tv.drop_first());
        let ghost rec = self.plugins@[i as int];
        assert(rec.run_id < u64::MAX);
        let mut p = self.plugins.remove(i);
        let run_id = p.begin_run();
        let ghost np = p;
        self.plugins.insert(i, p);
        proof {
            lemma_remove_insert(old(self).plugins@, i as int, np);
            lemma_update_wf(old(self).plugins@, i as int, np);
            assert(np == Plugin { run_id, stop_run_id: 0, ..rec });
        }
        Ok(StartPlan { run_id, program, args: toks })
    }

    /// A run's workspace is ready and its credential made: the record becomes running and
    /// enabled, with that credential and workspace and no WebUI. Only the current generation
    /// does this.
    pub fn mark_running(&mut self, id: &str, run_id: u64, token: String, workspace: String) -> (r: Option<PluginStatusEvent>)
        requires
            old(self).wf(),
        ensures
            final(self).wf(),
            old(self).has(id@) && old(self).record(id@).run_id == run_id ==> {
                let rec = old(self).record(id@);
                &&& final(self).updated(old(self), id@, Plugin { state: started(rec.state, token, workspace), ..rec })
                &&& r.is_some()
                &&& status_event_view(r.unwrap()) == (id@, PluginStatus::Running, true, None::<Seq<char>>)
            },
            !(old(self).has(id@) && old(self).record(id@).run_id == run_id) ==> r.is_none() && *final(self) == *old(self),
    {
        let i = match self.find(id) {
            Some(i) => i,
            None => return None,
        };
        if !self.plugins[i].is_current_run(run_id) {
            return None;
        }
        let ghost rec = self.plugins@[i as int];
        let mut p = self.plugins.remove(i);
        p.clear_webui();
        p.set_api_token(Some(token));
        p.set_status(PluginStatus::Running);
        p.set_enabled(true);
        p.set_process_alive(true);
        p.set_workspace(Some(workspace));
        let ghost np = p;
        self.plugins.insert(i, p);
        proof {
            lemma_remove_insert(old(self).plugins@, i as int, np);
            lemma_update_wf(old(self).plugins@, i as int, np);
            assert(np.state == started(rec.state, token, workspace));
        }
        Some(PluginStatusEvent { plugin_id: owned(id), status: PluginStatus::Running, enabled: true, webui_url: None })
    }

    /// The process of the current generation is known by `pid`.
    pub fn set_plugin_pid(&mut self, id: &str, run_id: u64, pid: u32)
        requires
            old(self).wf(),
        ensures
            final(self).wf(),
            old(self).has(id@) && old(self).record(id@).run_id == run_id ==> {
                let rec = old(self).record(id@);
                final(self).updated(old(self), id@, Plugin { state: PluginState { pid, ..rec.state }, ..rec })
            },
            !(old(self).has(id@) && old(self).record(id@).run_id == run_id) ==> *final(self) == *old(self),
    {
        let i = match self.find(id) {
            Some(i) => i,
            None => return,
        };
        if !self.plugins[i].is_current_run(run_id) {
            return;
        }
        let mut p = self.plugins.remove(i);
        p.set_pid(pid);
        let ghost np = p;
        self.plugins.insert(i, p);
        proof {
            lemma_remove_insert(old(self).plugins@, i as int, np);
            lemma_update_wf(old(self).plugins@, i as int, np);
        }
    }

    /// Adds lines a plugin printed to its buffer, and gives the events that publish them.
    pub fn record_output(&mut self, id: &str, lines: &Vec<String>) -> (r: Vec<PluginOutputEvent>)
        requires
            old(self).wf(),
        ensures
            final(self).wf(),
            old(self).has(id@) ==> {
                let rec = old(self).record(id@);
                let np = final(self).plugins@[old(self).index_of(id@)];
                &&& final(self).updated(old(self), id@, np)
                &&& np.same_frame(&rec)
                &&& np.output_view() == outputs_after(rec.output_view(), ids_view(lines@))
                &&& np.state == (PluginState { output: np.state.output, ..rec.state })
                &&& r@.len() == lines@.len()
                &&& forall|k: int| 0 <= k < r@.len() ==> (#[trigger] r@[k]).plugin_id@ == id@ && r@[k].line == lines@[k]
            },
            !old(self).has(id@) ==> r@.len() == 0 && *final(self) == *old(self),
    {
        let i = match self.find(id) {
            Some(i) => i,
            None => return Vec::new(),
        };
        let ghost rec = self.plugins@[i as int];
        let mut p = self.plugins.remove(i);
        let mut events: Vec<PluginOutputEvent> = Vec::new();
        let mut k: usize = 0;
        while k < lines.len()
            invariant
                k <= lines@.len(),
                p.wf(),
                p.same_frame(&rec),
                p.output_view() == outputs_after(rec.output_view(), ids_view(lines@).subrange(0, k as int)),
                p.state == (PluginState { output: p.state.output, ..rec.state }),
                events@.len() == k,
                forall|j: int| 0 <= j < k ==> (#[trigger] events@[j]).plugin_id@ == id@ && events@[j].line == lines@[j],
            decreases lines@.len() - k,
        {
            assert(ids_view(lines@).subrange(0, k as int + 1).drop_last() =~= ids_view(lines@).subrange(0, k as int));
            p.add_output(lines[k].clone());
            let ev = PluginOutputEvent { plugin_id: owned(id), line: lines[k].clone() };
            let ghost before = events@;
            events.push(ev);
            assert forall|j: int| 0 <= j < k + 1 implies (#[trigger] events@[j]).plugin_id@ == id@ && events@[j].line == lines@[j] by {
                if j < k {
                    assert(events@[j] == before[j]);
                }
            }
            k = k + 1;
        }
        assert(ids_view(lines@).subrange(0, k as int) =~= ids_view(lines@));
        let ghost np = p;
        self.plugins.insert(i, p);
        proof {
            lemma_remove_insert(old(self).plugins@, i as int, np);
            lemma_update_wf(old(self).plugins@, i as int, np);
        }
        events
    }

    /// Closes a run after its workspace has been removed. Only the current generation, while
    /// running, does this: the record is no longer alive, loses its credential and WebUI,
    /// gets `note` as its last line, and is stopped (disabled if the user stopped it) or,
    /// if the process could not be spawned, in error.
    pub fn finish_run(&mut self, id: &str, run_id: u64, spawn_failed: bool, note: String) -> (r: Option<
        (PluginOutputEvent, PluginStatusEvent),
    >)
        requires
            old(self).wf(),
        ensures
            final(self).wf(),
            ({
                let rec = old(self).record(id@);
                old(self).has(id@) && closes(rec, run_id) ==> {
                    let was_stopped = rec.stop_pending(run_id);
                    let np = final(self).plugins@[old(self).index_of(id@)];
                    &&& final(self).updated(old(self), id@, np)
                    &&& np.same_frame(&rec)
                    &&& np.state == (PluginState { output: np.state.output, ..terminal(rec.state, was_stopped, spawn_failed) })
                    &&& np.output_view() == output_after(rec.output_view(), note@)
                    &&& r.is_some()
                    &&& r.unwrap().0.plugin_id@ == id@
                    &&& r.unwrap().0.line == note
                    &&& status_event_view(r.unwrap().1) == (id@, terminal_status(was_stopped, spawn_failed), !was_stopped, None::<Seq<char>>)
                }
            }),
            !(old(self).has(id@) && closes(old(self).record(id@), run_id)) ==> r.is_none() && *final(self) == *old(self),
    {
        let i = match self.find(id) {
            Some(i) => i,
            None => return None,
        };
        if !self.plugins[i].is_current_run(run_id) || self.plugins[i].get_status() != PluginStatus::Running {
            return None;
        }
        let ghost rec = self.plugins@[i as int];
        let mut p = self.plugins.remove(i);
        let was_stopped = p.should_stop_run(run_id);
        let status = if was_stopped {
            PluginStatus::Stopped
        } else if spawn_failed {
            PluginStatus::Error
        } else {
            PluginStatus::Stopped
        };
        p.set_process_alive(false);
        p.add_output(note.clone());
        p.set_status(status);
        p.set_api_token(None);
        p.clear_webui();
        p.set_enabled(!was_stopped);
        let ghost np = p;
        self.plugins.insert(i, p);
        proof {
            lemma_remove_insert(old(self).plugins@, i as int, np);
            lemma_update_wf(old(self).plugins@, i as int, np);
        }
        Some((
            PluginOutputEvent { plugin_id: owned(id), line: note },
            PluginStatusEvent { plugin_id: owned(id), status, enabled: !was_stopped, webui_url: None },
        ))
    }

    /// Asks the current generation of `id` to stop. A user's stop also disables the record
    /// and drops its credential and WebUI; the result then says to drop `id` from the
    /// enabled set.
    pub fn stop_plugin(&mut self, id: &str, is_user_action: bool) -> (r: Result<bool, ManagerError>)
        requires
            old(self).wf(),
        ensures
            final(self).wf(),
            !old(self).has(id@) ==> r == Err::<bool, ManagerError>(ManagerError::NotFound) && *final(self) == *old(self),
            old(self).has(id@) ==> {
                let rec = old(self).record(id@);
                &&& r == Ok::<bool, ManagerError>(is_user_action)
                &&& final(self).updated(old(self), id@, Plugin {
                    stop_run_id: rec.run_id,
                    state: if is_user_action { user_stopped(rec.state) } else { rec.state },
                    ..rec
                })
            },
    {
        let i = match self.find(id) {
            Some(i) => i,
            None => return Err(ManagerError::NotFound),
        };
        let mut p = self.plugins.remove(i);
        let stop_run_id = p.request_stop_current_run();
        if is_user_action && p.is_current_run(stop_run_id) {
            p.set_enabled(false);
            p.set_api_token(None);
            p.clear_webui();
        }
        let ghost np = p;
        self.plugins.insert(i, p);
        proof {
            lemma_remove_insert(old(self).plugins@, i as int, np);
            lemma_update_wf(old(self).plugins@, i as int, np);
        }
        Ok(is_user_action)
    }

    /// Drops the record of `id` unless it is running; its directories are the caller's.
    pub fn delete_plugin(&mut self, id: &str) -> (r: Result<(), ManagerError>)
        requires
            old(self).wf(),
        ensures
            final(self).wf(),
            !old(self).has(id@) ==> r == Err::<(), ManagerError>(ManagerError::NotFound) && *final(self) == *old(self),
            old(self).has(id@) && old(self).record(id@).state.status == PluginStatus::Running
                ==> r == Err::<(), ManagerError>(ManagerError::State) && *final(self) == *old(self),
            old(self).has(id@) && old(self).record(id@).state.status != PluginStatus::Running ==> {
                &&& r == Ok::<(), ManagerError>(())
                &&& final(self).plugins@ == old(self).plugins@.remove(old(self).index_of(id@))
                &&& !final(self).has(id@)
                &&& *final(self) == (PluginManager { plugins: final(self).plugins, ..*old(self) })
            },
    {
        let i = match self.find(id) {
            Some(i) => i,
            None => return Err(ManagerError::NotFound),
        };
        if self.plugins[i].get_status() == PluginStatus::Running {
            return Err(ManagerError::State);
        }
        let _gone = self.plugins.remove(i);
        proof {
            lemma_remove_wf(old(self).plugins@, i as int);
        }
        Ok(())
    }
}

/// The pids of the records whose process is present and known, in order.
pub open spec fn alive_pid_seq(ps: Seq<Plugin>) -> Seq<u32>
    decreases ps.len(),
{
    if ps.len() == 0 {
        Seq::empty()
    } else {
        let r = alive_pid_seq(ps.drop_last());
        if ps.last().state.is_alive && ps.last().state.pid != 0 {
            r.push(ps.last().state.pid)
        } else {
            r
        }
    }
}

/// Whether `x` is among the ids of `ps`.
pub open spec fn in_registry(ps: Seq<Plugin>) -> spec_fn(Seq<char>) -> bool {
    |x: Seq<char>| registry_has(ps, x)
}

/// Whether `x` is among the ids of `ps` or names a directory in `dirs`.
pub open spec fn installed(ps: Seq<Plugin>, dirs: Seq<Seq<char>>) -> spec_fn(Seq<char>) -> bool {
    |x: Seq<char>| registry_has(ps, x) || dirs.contains(x)
}

/// Whether `x` is in `s`.
fn contains_text(s: &Vec<String>, x: &str) -> (r: bool)
    ensures
        r == ids_view(s@).contains(x@),
{
    let mut i: usize = 0;
    while i < s.len()
        invariant
            i <= s@.len(),
            forall|j: int| 0 <= j < i ==> s@[j]@ != x@,
        decreases s@.len() - i,
    {
        if same_text(s[i].as_str(), x) {
            assert(ids_view(s@)[i as int] == x@);
            return true;
        }
        i = i + 1;
    }
    proof {
        if ids_view(s@).contains(x@) {
            let j = choose|j: int| 0 <= j < ids_view(s@).len() && ids_view(s@)[j] == x@;
            assert(s@[j]@ == x@);
        }
    }
    false
}

/// What a read of the enabled set gives.
pub struct EnabledPlugins {
    /// Enabled ids that have a record, in the set's order.
    pub loaded: Vec<String>,
    /// The set with the ids of plugins no longer installed pruned.
    pub healed: PluginConfig,
    /// Whether anything was pruned, so that the set is to be written back.
    pub changed: bool,
}

impl PluginManager {
    /// Reads the enabled set against the registry and the directories installed (`dirs`,
    /// by name): ids with a record are the ones to start; ids with neither a record nor a
    /// directory are pruned.
    pub fn get_enabled_plugins(&self, config: &PluginConfig, dirs: &Vec<String>) -> (r: EnabledPlugins)
        requires
            self.wf(),
        ensures
            ids_view(r.loaded@) == select(config.view(), in_registry(self.plugins@)),
            r.healed.view() == select(config.view(), installed(self.plugins@, ids_view(dirs@))),
            r.changed == (r.healed.view().len() != config.view().len()),
    {
        let mut loaded: Vec<String> = Vec::new();
        let mut kept: Vec<String> = Vec::new();
        let ghost s = config.view();
        let ghost d = ids_view(dirs@);
        let mut i: usize = 0;
        while i < config.enabled_plugins.len()
            invariant
                self.wf(),
                i <= config.enabled_plugins@.len(),
                s == config.view(),
                d == ids_view(dirs@),
                ids_view(loaded@) == select(s.subrange(0, i as int), in_registry(self.plugins@)),
                ids_view(kept@) == select(s.subrange(0, i as int), installed(self.plugins@, d)),
            decreases config.enabled_plugins@.len() - i,
        {
            assert(s.subrange(0, i as int + 1).drop_last() =~= s.subrange(0, i as int));
            let id = config.enabled_plugins[i].as_str();
            assert(s[i as int] == id@);
            if self.find(id).is_some() {
                loaded.push(config.enabled_plugins[i].clone());
                kept.push(config.enabled_plugins[i].clone());
            } else if contains_text(dirs, id) {
                kept.push(config.enabled_plugins[i].clone());
            }
            assert(ids_view(loaded@) =~= select(s.subrange(0, i as int + 1), in_registry(self.plugins@)));
            assert(ids_view(kept@) =~= select(s.subrange(0, i as int + 1), installed(self.plugins@, d)));
            i = i + 1;
        }
        assert(s.subrange(0, i as int) =~= s);
        let changed = kept.len() != config.enabled_plugins.len();
        EnabledPlugins { loaded, healed: PluginConfig { enabled_plugins: kept }, changed }
    }

    /// Drops `id` from the enabled set only when its directory is gone (`dir_exists` says
    /// whether it is there); says whether it did.
    pub fn purge_enabled_plugin_if_absent(&self, config: &mut PluginConfig, plugin_id: &str, dir_exists: bool) -> (r: bool)
        ensures
            r == !dir_exists,
            final(config).view() == if dir_exists { old(config).view() } else { without_enabled(old(config).view(), plugin_id@) },
    {
        if dir_exists {
            return false;
        }
        config.remove_enabled_plugin(plugin_id);
        true
    }

    /// One row per record, in the registry's order.
    pub fn list_plugins(&self) -> (r: Vec<PluginInfo>)
        ensures
            r@.len() == self.plugins@.len(),
            forall|i: int| 0 <= i < r@.len() ==> info_matches(#[trigger] r@[i], self.plugins@[i]),
    {
        let mut r: Vec<PluginInfo> = Vec::new();
        let mut i: usize = 0;
        while i < self.plugins.len()
            invariant
                i <= self.plugins@.len(),
                r@.len() == i,
                forall|j: int| 0 <= j < i ==> info_matches(#[trigger] r@[j], self.plugins@[j]),
            decreases self.plugins@.len() - i,
        {
            let p = &self.plugins[i];
            let info = PluginInfo {
                id: p.id.clone(),
                name: p.manifest.name.clone(),
                description: p.manifest.description.clone(),
                version: p.manifest.version.clone(),
                author: clone_opt(&p.manifest.author),
                status: p.get_status(),
                enabled: p.is_enabled(),
                output: p.get_output(),
                webui_url: p.get_webui_url(),
            };
            let ghost before = r@;
            r.push(info);
            assert forall|j: int| 0 <= j < i + 1 implies info_matches(#[trigger] r@[j], self.plugins@[j]) by {
                if j < i {
                    assert(r@[j] == before[j]);
                }
            }
            i = i + 1;
        }
        r
    }

    /// The ids of all records, in the registry's order.
    pub fn plugin_ids(&self) -> (r: Vec<String>)
        ensures
            r@.len() == self.plugins@.len(),
            forall|i: int| 0 <= i < r@.len() ==> #[trigger] r@[i] == self.plugins@[i].id,
    {
        let mut r: Vec<String> = Vec::new();
        let mut i: usize = 0;
        while i < self.plugins.len()
            invariant
                i <= self.plugins@.len(),
                r@.len() == i,
                forall|j: int| 0 <= j < i ==> #[trigger] r@[j] == self.plugins@[j].id,
            decreases self.plugins@.len() - i,
        {
            r.push(self.plugins[i].id.clone());
            i = i + 1;
        }
        r
    }

    /// Whether any record's process is present.
    pub fn any_alive(&self) -> (r: bool)
        ensures
            r == exists|i: int| 0 <= i < self.plugins@.len() && #[trigger] self.plugins@[i].state.is_alive,
    {
        let mut i: usize = 0;
        while i < self.plugins.len()
            invariant
                i <= self.plugins@.len(),
                forall|j: int| 0 <= j < i ==> !#[trigger] self.plugins@[j].state.is_alive,
            decreases self.plugins@.len() - i,
        {
            if self.plugins[i].is_process_alive() {
                return true;
            }
            i = i + 1;
        }
        false
    }

    /// The known pids of the processes still present, in the registry's order.
    pub fn alive_pids(&self) -> (r: Vec<u32>)
        ensures
            r@ == alive_pid_seq(self.plugins@),
    {
        let mut r: Vec<u32> = Vec::new();
        let mut i: usize = 0;
        while i < self.plugins.len()
            invariant
                i <= self.plugins@.len(),
                r@ == alive_pid_seq(self.plugins@.subrange(0, i as int)),
            decreases self.plugins@.len() - i,
        {
            assert(self.plugins@.subrange(0, i as int + 1).drop_last() =~= self.plugins@.subrange(0, i as int));
            let p = &self.plugins[i];
            if p.is_process_alive() && p.get_pid() != 0 {
                r.push(p.get_pid());
            }
            i = i + 1;
        }
        assert(self.plugins@.subrange(0, i as int) =~= self.plugins@);
        r
    }

    /// The record's buffered output.
    pub fn get_plugin_output(&self, id: &str) -> (r: Result<Vec<String>, ManagerError>)
        requires
            self.wf(),
        ensures
            !self.has(id@) ==> r == Err::<Vec<String>, ManagerError>(ManagerError::NotFound),
            self.has(id@) ==> r.is_ok() && r.unwrap()@ == self.record(id@).state.output@,
    {
        match self.find(id) {
            Some(i) => Ok(self.plugins[i].get_output()),
            None => Err(ManagerError::NotFound),
        }
    }

    pub fn get_plugin_name(&self, id: &str) -> (r: Option<String>)
        requires
            self.wf(),
        ensures
            !self.has(id@) ==> r.is_none(),
            self.has(id@) ==> r == Some(self.record(id@).manifest.name),
    {
        match self.find(id) {
            Some(i) => Some(self.plugins[i].manifest.name.clone()),
            None => None,
        }
    }

    pub fn get_plugin_dir(&self, id: &str) -> (r: Option<String>)
        requires
            self.wf(),
        ensures
            !self.has(id@) ==> r.is_none(),
            self.has(id@) ==> r == Some(self.record(id@).plugin_dir),
    {
        match self.find(id) {
            Some(i) => Some(self.plugins[i].plugin_dir.clone()),
            None => None,
        }
    }

    /// Empties the record's output buffer.
    pub fn clear_plugin_output(&mut self, id: &str) -> (r: Result<(), ManagerError>)
        requires
            old(self).wf(),
        ensures
            final(self).wf(),
            !old(self).has(id@) ==> r == Err::<(), ManagerError>(ManagerError::NotFound) && *final(self) == *old(self),
            old(self).has(id@) ==> {
                let rec = old(self).record(id@);
                let np = final(self).plugins@[old(self).index_of(id@)];
                &&& r == Ok::<(), ManagerError>(())
                &&& final(self).updated(old(self), id@, np)
                &&& np.same_frame(&rec)
                &&& np.state.output@.len() == 0
                &&& np.state == (PluginState { output: np.state.output, ..rec.state })
            },
    {
        let i = match self.find(id) {
            Some(i) => i,
            None => return Err(ManagerError::NotFound),
        };
        let mut p = self.plugins.remove(i);
        p.clear_output();
        let ghost np = p;
        self.plugins.insert(i, p);
        proof {
            lemma_remove_insert(old(self).plugins@, i as int, np);
            lemma_update_wf(old(self).plugins@, i as int, np);
        }
        Ok(())
    }

    /// The id of a record holding credential `token`.
    pub fn get_plugin_id_by_api_token(&self, token: &str) -> (r: Option<String>)
        ensures
            match r {
                Some(x) => exists|i: int| 0 <= i < self.plugins@.len() && self.plugins@[i].id == x
                    && #[trigger] self.plugins@[i].token_view() == Some(token@),
                None => forall|i: int| 0 <= i < self.plugins@.len() ==> #[trigger] self.plugins@[i].token_view() != Some(token@),
            },
    {
        let mut i: usize = 0;
        while i < self.plugins.len()
            invariant
                i <= self.plugins@.len(),
                forall|j: int| 0 <= j < i ==> #[trigger] self.plugins@[j].token_view() != Some(token@),
            decreases self.plugins@.len() - i,
        {
            match &self.plugins[i].state.api_token {
                Some(t) => {
                    if same_text(t.as_str(), token) {
                        assert(self.plugins@[i as int].token_view() == Some(token@));
                        return Some(self.plugins[i].id.clone());
                    }
                },
                None => {},
            }
            i = i + 1;
        }
        None
    }

    /// Stores the WebUI path a plugin registered, normalised, and gives the event that
    /// publishes the record's state.
    pub fn set_plugin_webui(&mut self, id: &str, webui: &str) -> (r: Result<PluginStatusEvent, ManagerError>)
        requires
            old(self).wf(),
        ensures
            final(self).wf(),
            !old(self).has(id@) ==> r.is_err() && r == Err::<PluginStatusEvent, ManagerError>(ManagerError::NotFound)
                && *final(self) == *old(self),
            old(self).has(id@) ==> {
                let rec = old(self).record(id@);
                let np = final(self).plugins@[old(self).index_of(id@)];
                &&& final(self).updated(old(self), id@, np)
                &&& np.same_frame(&rec)
                &&& np.webui_url_view() == Some(normalize_webui(webui@))
                &&& np.state == (PluginState { webui: np.state.webui, ..rec.state })
                &&& r.is_ok()
                &&& status_event_view(r.unwrap()) == (id@, rec.state.status, rec.state.enabled, Some(normalize_webui(webui@)))
            },
    {
        let i = match self.find(id) {
            Some(i) => i,
            None => return Err(ManagerError::NotFound),
        };
        let cs = crate::text::chars_of(webui);
        let url = if cs.len() == 0 {
            owned("/")
        } else if cs[0] == '/' {
            owned(webui)
        } else {
            let mut u = owned("/");
            crate::runner::append_str(&mut u, webui);
            u
        };
        proof {
            reveal_strlit("/");
            assert(url@ =~= normalize_webui(webui@));
        }
        let mut p = self.plugins.remove(i);
        p.set_webui(url);
        let event = PluginStatusEvent {
            plugin_id: owned(id),
            status: p.get_status(),
            enabled: p.is_enabled(),
            webui_url: p.get_webui_url(),
        };
        let ghost np = p;
        self.plugins.insert(i, p);
        proof {
            lemma_remove_insert(old(self).plugins@, i as int, np);
            lemma_update_wf(old(self).plugins@, i as int, np);
        }
        Ok(event)
    }
}

/// A start followed by a user's stop: once the run closes, the record is stopped and
/// disabled, holds no credential and no WebUI, and its process is gone.
pub proof fn lemma_start_then_user_stop(p: Plugin, token: String, workspace: String, spawn_failed: bool)
    requires
        p.wf(),
        p.run_id < u64::MAX,
    ensures
        ({
            let run_id = (p.run_id + 1) as u64;
            let stopped = Plugin {
                run_id,
                stop_run_id: run_id,
                state: user_stopped(started(p.state, token, workspace)),
                ..p
            };
            let st = terminal(stopped.state, stopped.stop_pending(run_id), spawn_failed);
            &&& stopped.stop_pending(run_id)
            &&& st.status == PluginStatus::Stopped
            &&& !st.enabled
            &&& st.api_token.is_none()
            &&& st.webui.is_none()
            &&& !st.is_alive
            &&& st.workspace.is_none()
        }),
{
}

/// A stop aimed at one run does not reach the next: a start that follows it drops the
/// request, and the earlier run is no longer the record's generation, so its closing
/// (`finish_run`) leaves the record as it is.
pub proof fn lemma_restart_supersedes_stop(p: Plugin)
    requires
        p.wf(),
        p.run_id + 2 <= u64::MAX,
    ensures
        ({
            let first = (p.run_id + 1) as u64;
            let second = (p.run_id + 2) as u64;
            let restarted = Plugin { run_id: second, stop_run_id: 0, ..p };
            &&& restarted.wf()
            &&& restarted.run_id != first
            &&& !restarted.stop_pending(first)
            &&& !restarted.stop_pending(second)
        }),
{
}

/// Whatever the end of a run, its closing leaves the process gone, the workspace removed,
/// and the credential and WebUI cleared; only a user's stop disables the record, and only a failed spawn ends in
/// error.
pub proof fn lemma_terminal_state(st: PluginState, was_stopped: bool, spawn_failed: bool)
    ensures
        ({
            let t = terminal(st, was_stopped, spawn_failed);
            &&& !t.is_alive
            &&& t.workspace.is_none()
            &&& t.api_token.is_none()
            &&& t.webui.is_none()
            &&& t.enabled == !was_stopped
            &&& (t.status == PluginStatus::Error) == (!was_stopped && spawn_failed)
            &&& t.status != PluginStatus::Running
        }),
{
}


/// A record whose process is gone holds no workspace: a run marks its process gone only
/// together with the removal of its workspace.
pub proof fn lemma_gone_means_workspace_removed(m: PluginManager)
    requires
        m.wf(),
    ensures
        forall|i: int| 0 <= i < m.plugins@.len() && !(#[trigger] m.plugins@[i]).state.is_alive
            ==> m.plugins@[i].state.workspace.is_none(),
{
    assert forall|i: int| 0 <= i < m.plugins@.len() && !(#[trigger] m.plugins@[i]).state.is_alive
        implies m.plugins@[i].state.workspace.is_none() by {
        assert(m.plugins@[i].wf());
    }
}

} // verus!
