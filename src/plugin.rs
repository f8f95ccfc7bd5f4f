//! The in-memory record of one installed plugin.
use vstd::prelude::*;

verus! {

/// Most lines of output a plugin record keeps.
pub const MAX_OUTPUT_LINES: usize = 500;

/// The manifest of a plugin, as its `app.json` gives it.
#[derive(Clone, Debug)]
pub struct PluginManifest {
    pub name: String,
    /// Whitespace-separated command line: the program, then its arguments.
    pub entry: String,
    pub description: String,
    pub version: String,
    pub author: Option<String>,
}

#[derive(Clone, Copy, Debug, PartialEq, Eq, Structural)]
pub enum PluginStatus {
    Stopped,
    Running,
    Error,
}

impl PluginStatus {
    /// The lower-case name used on the wire.
    pub fn as_str(&self) -> (r: &'static str)
        ensures
            r@ == status_name(*self),
    {
        match self {
            PluginStatus::Stopped => "stopped",
            PluginStatus::Running => "running",
            PluginStatus::Error => "error",
        }
    }
}

pub open spec fn status_name(s: PluginStatus) -> Seq<char> {
    match s {
        PluginStatus::Stopped => "stopped"@,
        PluginStatus::Running => "running"@,
        PluginStatus::Error => "error"@,
    }
}

#[derive(Clone, Debug)]
pub struct PluginWebUi {
    pub url: String,
}

/// The mutable part of a plugin record.
pub struct PluginState {
    pub status: PluginStatus,
    pub is_alive: bool,
    pub pid: u32,
    pub output: Vec<String>,
    pub enabled: bool,
    pub api_token: Option<String>,
    pub webui: Option<PluginWebUi>,
    /// The working copy of the current run, until it has been removed.
    pub workspace: Option<String>,
}

/// One installed plugin, keyed by the name of its directory.
pub struct Plugin {
    pub id: String,
    pub manifest: PluginManifest,
    pub plugin_dir: String,
    pub tmp_dir: String,
    /// Generation of the latest start; 0 before the first.
    pub run_id: u64,
    /// Generation that a stop was asked for; 0 when none is pending.
    pub stop_run_id: u64,
    pub state: PluginState,
}

/// The lines of an output buffer.
pub open spec fn lines_view(v: Seq<String>) -> Seq<Seq<char>> {
    v.map_values(|s: String| s@)
}

/// The buffer after one line is added: appended, then the oldest dropped past the cap.
pub open spec fn output_after(old: Seq<Seq<char>>, line: Seq<char>) -> Seq<Seq<char>> {
    if old.len() + 1 > MAX_OUTPUT_LINES {
        old.push(line).drop_first()
    } else {
        old.push(line)
    }
}

pub open spec fn opt_view(o: Option<String>) -> Option<Seq<char>> {
    match o {
        Some(s) => Some(s@),
        None => None,
    }
}

pub open spec fn webui_view(o: Option<PluginWebUi>) -> Option<Seq<char>> {
    match o {
        Some(w) => Some(w.url@),
        None => None,
    }
}

/// The record after `begin_run`: the next generation, with no stop pending.
pub open spec fn begun(p: Plugin) -> Plugin {
    Plugin { run_id: (p.run_id + 1) as u64, stop_run_id: 0, ..p }
}

/// The record after `request_stop_current_run`.
pub open spec fn stop_requested(p: Plugin) -> Plugin {
    Plugin { stop_run_id: p.run_id, ..p }
}

/// Once `begin_run` has returned `r`, no stop is pending for `r` in any later state that
/// kept the run counters (every method but `begin_run` and `request_stop_current_run` keeps
/// them); a stop request then makes it pending.
pub proof fn lemma_stop_pending_only_on_request(p: Plugin, q: Plugin)
    requires
        p.wf(),
        p.run_id < u64::MAX,
        q.same_frame(&begun(p)),
    ensures
        q.run_id == p.run_id + 1,
        !q.stop_pending((p.run_id + 1) as u64),
        stop_requested(q).stop_pending((p.run_id + 1) as u64),
        stop_requested(q).run_id == q.run_id,
{
}

impl Plugin {
    /// The record's invariant: a pending stop never names a generation that has not begun,
    /// the output buffer holds at most its cap, and a record whose process is gone has no
    /// workspace left.
    pub open spec fn wf(&self) -> bool {
        &&& (self.stop_run_id == 0 || self.stop_run_id <= self.run_id)
        &&& self.state.output@.len() <= MAX_OUTPUT_LINES
        &&& (!self.state.is_alive ==> self.state.workspace.is_none())
    }

    pub open spec fn output_view(&self) -> Seq<Seq<char>> {
        lines_view(self.state.output@)
    }

    pub open spec fn token_view(&self) -> Option<Seq<char>> {
        opt_view(self.state.api_token)
    }

    pub open spec fn webui_url_view(&self) -> Option<Seq<char>> {
        webui_view(self.state.webui)
    }

    /// Everything but the run counters is as in `o`.
    pub open spec fn same_state(&self, o: &Plugin) -> bool {
        &&& self.id == o.id
        &&& self.manifest == o.manifest
        &&& self.plugin_dir == o.plugin_dir
        &&& self.tmp_dir == o.tmp_dir
        &&& self.state == o.state
    }

    /// Everything but the mutable state is as in `o`.
    pub open spec fn same_frame(&self, o: &Plugin) -> bool {
        &&& self.id == o.id
        &&& self.manifest == o.manifest
        &&& self.plugin_dir == o.plugin_dir
        &&& self.tmp_dir == o.tmp_dir
        &&& self.run_id == o.run_id
        &&& self.stop_run_id == o.stop_run_id
    }

    /// Whether a stop is pending for generation `run_id`.
    pub open spec fn stop_pending(&self, run_id: u64) -> bool {
        run_id != 0 && self.stop_run_id == run_id
    }

    /// A stopped, disabled record with no generation begun.
    pub fn new(id: String, manifest: PluginManifest, plugin_dir: String, tmp_dir: String) -> (r: Self)
        ensures
            r.wf(),
            r.id == id,
            r.manifest == manifest,
            r.plugin_dir == plugin_dir,
            r.tmp_dir == tmp_dir,
            r.run_id == 0,
            r.stop_run_id == 0,
            r.state.status == PluginStatus::Stopped,
            !r.state.is_alive,
            r.state.pid == 0,
            r.state.output@.len() == 0,
            !r.state.enabled,
            r.state.api_token.is_none(),
            r.state.webui.is_none(),
            r.state.workspace.is_none(),
    {
        Plugin {
            id,
            manifest,
            plugin_dir,
            tmp_dir,
            run_id: 0,
            stop_run_id: 0,
            state: PluginState {
                status: PluginStatus::Stopped,
                is_alive: false,
                pid: 0,
                output: Vec::new(),
                enabled: false,
                api_token: None,
                webui: None,
                workspace: None,
            },
        }
    }

    /// Starts a new generation and drops any pending stop.
    pub fn begin_run(&mut self) -> (r: u64)
        requires
            old(self).wf(),
            old(self).run_id < u64::MAX,
        ensures
            final(self).wf(),
            *final(self) == begun(*old(self)),
            r == old(self).run_id + 1,
            final(self).run_id == r,
            final(self).stop_run_id == 0,
            !final(self).stop_pending(r),
            final(self).same_state(old(self)),
    {
        self.run_id = self.run_id + 1;
        self.stop_run_id = 0;
        self.run_id
    }

    pub fn current_run_id(&self) -> (r: u64)
        ensures
            r == self.run_id,
    {
        self.run_id
    }

    pub fn is_current_run(&self, run_id: u64) -> (r: bool)
        ensures
            r == (run_id == self.run_id),
    {
        self.run_id == run_id
    }

    /// Asks the current generation to stop and returns it.
    pub fn request_stop_current_run(&mut self) -> (r: u64)
        requires
            old(self).wf(),
        ensures
            final(self).wf(),
            *final(self) == stop_requested(*old(self)),
            r == old(self).run_id,
            final(self).run_id == old(self).run_id,
            final(self).stop_run_id == r,
            final(self).same_state(old(self)),
    {
        self.stop_run_id = self.run_id;
        self.run_id
    }

    /// Whether a stop is pending for generation `run_id`.
    pub fn should_stop_run(&self, run_id: u64) -> (r: bool)
        ensures
            r == self.stop_pending(run_id),
    {
        run_id != 0 && self.stop_run_id == run_id
    }

    pub fn get_status(&self) -> (r: PluginStatus)
        ensures
            r == self.state.status,
    {
        self.state.status
    }

    pub fn set_status(&mut self, status: PluginStatus)
        requires
            old(self).wf(),
        ensures
            final(self).wf(),
            final(self).same_frame(old(self)),
            final(self).state == (PluginState { status, ..old(self).state }),
    {
        self.state.status = status;
    }

    /// Records whether the process is present. A run marks its process gone only once its
    /// workspace has been removed, so a process that is gone has no pid and no workspace.
    pub fn set_process_alive(&mut self, alive: bool)
        requires
            old(self).wf(),
        ensures
            final(self).wf(),
            final(self).same_frame(old(self)),
            final(self).state == (PluginState {
                is_alive: alive,
                pid: if alive { old(self).state.pid } else { 0 },
                workspace: if alive { old(self).state.workspace } else { None },
                ..old(self).state
            }),
    {
        self.state.is_alive = alive;
        if !alive {
            self.state.pid = 0;
            self.state.workspace = None;
        }
    }

    /// Records the working copy of the current run; only a live process has one.
    pub fn set_workspace(&mut self, workspace: Option<String>)
        requires
            old(self).wf(),
            workspace.is_some() ==> old(self).state.is_alive,
        ensures
            final(self).wf(),
            final(self).same_frame(old(self)),
            final(self).state == (PluginState { workspace, ..old(self).state }),
    {
        self.state.workspace = workspace;
    }

    pub fn get_workspace(&self) -> (r: Option<String>)
        ensures
            r == self.state.workspace,
    {
        match &self.state.workspace {
            Some(w) => Some(w.clone()),
            None => None,
        }
    }

    pub fn get_pid(&self) -> (r: u32)
        ensures
            r == self.state.pid,
    {
        self.state.pid
    }

    pub fn set_pid(&mut self, pid: u32)
        requires
            old(self).wf(),
        ensures
            final(self).wf(),
            final(self).same_frame(old(self)),
            final(self).state == (PluginState { pid, ..old(self).state }),
    {
        self.state.pid = pid;
    }

    pub fn is_process_alive(&self) -> (r: bool)
        ensures
            r == self.state.is_alive,
    {
        self.state.is_alive
    }

    pub fn is_enabled(&self) -> (r: bool)
        ensures
            r == self.state.enabled,
    {
        self.state.enabled
    }

    pub fn set_enabled(&mut self, enabled: bool)
        requires
            old(self).wf(),
        ensures
            final(self).wf(),
            final(self).same_frame(old(self)),
            final(self).state == (PluginState { enabled, ..old(self).state }),
    {
        self.state.enabled = enabled;
    }

    pub fn get_output(&self) -> (r: Vec<String>)
        ensures
            r@ == self.state.output@,
            lines_view(r@) == self.output_view(),
    {
        let mut r: Vec<String> = Vec::new();
        let mut i: usize = 0;
        while i < self.state.output.len()
            invariant
                i <= self.state.output@.len(),
                r@ == self.state.output@.subrange(0, i as int),
            decreases self.state.output@.len() - i,
        {
            r.push(self.state.output[i].clone());
            assert(r@ =~= self.state.output@.subrange(0, i as int + 1));
            i = i + 1;
        }
        assert(self.state.output@.subrange(0, i as int) =~= self.state.output@);
        r
    }

    /// Appends a line; past the cap the oldest line is dropped.
    pub fn add_output(&mut self, line: String)
        requires
            old(self).wf(),
        ensures
            final(self).wf(),
            final(self).same_frame(old(self)),
            final(self).output_view() == output_after(old(self).output_view(), line@),
            final(self).state == (PluginState { output: final(self).state.output, ..old(self).state }),
    {
        let ghost before = self.state.output@;
        self.state.output.push(line);
        if self.state.output.len() > MAX_OUTPUT_LINES {
            self.state.output.remove(0);
            assert(lines_view(self.state.output@) =~= lines_view(before).push(line@).drop_first());
        } else {
            assert(lines_view(self.state.output@) =~= lines_view(before).push(line@));
        }
    }

    pub fn clear_output(&mut self)
        requires
            old(self).wf(),
        ensures
            final(self).wf(),
            final(self).same_frame(old(self)),
            final(self).output_view() == Seq::<Seq<char>>::empty(),
            final(self).state.output@.len() == 0,
            final(self).state == (PluginState { output: final(self).state.output, ..old(self).state }),
    {
        self.state.output.clear();
        assert(lines_view(self.state.output@) =~= Seq::<Seq<char>>::empty());
    }

    pub fn set_api_token(&mut self, token: Option<String>)
        requires
            old(self).wf(),
        ensures
            final(self).wf(),
            final(self).same_frame(old(self)),
            final(self).state == (PluginState { api_token: token, ..old(self).state }),
    {
        self.state.api_token = token;
    }

    pub fn get_api_token(&self) -> (r: Option<String>)
        ensures
            opt_view(r) == self.token_view(),
    {
        match &self.state.api_token {
            Some(t) => Some(t.clone()),
            None => None,
        }
    }

    pub fn set_webui(&mut self, url: String)
        requires
            old(self).wf(),
        ensures
            final(self).wf(),
            final(self).same_frame(old(self)),
            final(self).state == (PluginState { webui: Some(PluginWebUi { url }), ..old(self).state }),
    {
        self.state.webui = Some(PluginWebUi { url });
    }

    pub fn clear_webui(&mut self)
        requires
            old(self).wf(),
        ensures
            final(self).wf(),
            final(self).same_frame(old(self)),
            final(self).state == (PluginState { webui: None, ..old(self).state }),
    {
        self.state.webui = None;
    }

    pub fn get_webui_url(&self) -> (r: Option<String>)
        ensures
            opt_view(r) == self.webui_url_view(),
    {
        match &self.state.webui {
            Some(w) => Some(w.url.clone()),
            None => None,
        }
    }
}

} // verus!
