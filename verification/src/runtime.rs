//! The state of the Codex backend: the user-visible status, the usage
//! snapshot, the session links, and the JSON-RPC bookkeeping with the
//! app-server. The process and its pipes stay with the caller, which hands
//! every decoded app-server message to `CodexRuntime` and performs the
//! returned actions.
use vstd::prelude::*;

use crate::json::{member, object, opt_chars, or_null, JsonValue};
use crate::session::{
    copy_opt, queues_wf, CodexSessionEvent, CodexSessionLink, PendingServerRequest,
};
use crate::strmap::StrMap;
use crate::text::str_eq;
use crate::usage::CodexUsageSnapshot;
use crate::validate::{CODEX_CLI_VERSION, DSH_VERSION};

verus! {

broadcast use vstd::string::group_string_axioms;

/// What the desktop reports about the Codex backend.
#[derive(Debug)]
pub struct CodexStatus {
    pub backend: String,
    pub phase: String,
    pub installed: bool,
    pub exact_version: bool,
    pub version: Option<String>,
    pub required_version: String,
    pub dsh_version: String,
    pub executable: Option<String>,
    pub managed_install: bool,
    pub app_server_running: bool,
    pub auth_mode: Option<String>,
    pub plan_type: Option<String>,
    pub account_email: Option<String>,
    pub auth_url: Option<String>,
    pub error: Option<String>,
}

impl Default for CodexStatus {
    /// The status before anything was detected: dsh selected and idle.
    fn default() -> (r: CodexStatus)
        ensures
            r.backend@ == "dsh"@,
            r.phase@ == "idle"@,
            !r.installed,
            !r.exact_version,
            r.version is None,
            r.required_version@ == CODEX_CLI_VERSION@,
            r.dsh_version@ == DSH_VERSION@,
            r.executable is None,
            !r.managed_install,
            !r.app_server_running,
            r.auth_mode is None,
            r.plan_type is None,
            r.account_email is None,
            r.auth_url is None,
            r.error is None,
    {
        CodexStatus {
            backend: "dsh".to_string(),
            phase: "idle".to_string(),
            installed: false,
            exact_version: false,
            version: None,
            required_version: CODEX_CLI_VERSION.to_string(),
            dsh_version: DSH_VERSION.to_string(),
            executable: None,
            managed_install: false,
            app_server_running: false,
            auth_mode: None,
            plan_type: None,
            account_email: None,
            auth_url: None,
            error: None,
        }
    }
}

/// A Codex CLI found on this machine.
#[derive(Debug)]
pub struct CodexBinary {
    pub program: String,
    pub version: String,
    pub managed: bool,
}

/// Records the detected CLI (or its absence) in the status.
pub fn apply_binary_status(status: &mut CodexStatus, binary: Option<&CodexBinary>)
    ensures
        final(status).installed == binary is Some,
        final(status).exact_version == (match binary {
            Some(b) => b.version@ == CODEX_CLI_VERSION@,
            None => false,
        }),
        final(status).version == (match binary {
            Some(b) => Some(b.version),
            None => None,
        }),
        final(status).executable == (match binary {
            Some(b) => Some(b.program),
            None => None,
        }),
        final(status).managed_install == (match binary {
            Some(b) => b.managed,
            None => false,
        }),
        *final(status) == (CodexStatus {
            installed: final(status).installed,
            exact_version: final(status).exact_version,
            version: final(status).version,
            executable: final(status).executable,
            managed_install: final(status).managed_install,
            ..*old(status)
        }),
{
    match binary {
        Some(b) => {
            status.installed = true;
            status.exact_version = str_eq(b.version.as_str(), CODEX_CLI_VERSION);
            status.version = Some(b.version.clone());
            status.executable = Some(b.program.clone());
            status.managed_install = b.managed;
        },
        None => {
            status.installed = false;
            status.exact_version = false;
            status.version = None;
            status.executable = None;
            status.managed_install = false;
        },
    }
}

/// The persisted backend choice: which backend, which CLI, which model.
#[derive(Debug)]
pub struct BackendConfig {
    pub backend: Option<String>,
    pub codex_executable: Option<String>,
    pub codex_version: Option<String>,
    pub selected_model: Option<String>,
    pub selected_effort: Option<String>,
}

impl BackendConfig {
    /// An empty configuration (nothing chosen yet).
    pub fn empty() -> (r: BackendConfig)
        ensures
            r.backend is None && r.codex_executable is None && r.codex_version is None
                && r.selected_model is None && r.selected_effort is None,
    {
        BackendConfig {
            backend: None,
            codex_executable: None,
            codex_version: None,
            selected_model: None,
            selected_effort: None,
        }
    }

    /// The configuration after selecting `backend`, with the CLI if one is given.
    pub fn with_backend(&self, backend: &str, binary: Option<&CodexBinary>) -> (r: BackendConfig)
        ensures
            opt_chars(r.backend) == Some(backend@),
            r.codex_executable == (match binary {
                Some(b) => Some(b.program),
                None => self.codex_executable,
            }),
            r.codex_version == (match binary {
                Some(b) => Some(b.version),
                None => self.codex_version,
            }),
            r.selected_model == self.selected_model,
            r.selected_effort == self.selected_effort,
    {
        BackendConfig {
            backend: Some(backend.to_string()),
            codex_executable: match binary {
                Some(b) => Some(b.program.clone()),
                None => copy_opt(&self.codex_executable),
            },
            codex_version: match binary {
                Some(b) => Some(b.version.clone()),
                None => copy_opt(&self.codex_version),
            },
            selected_model: copy_opt(&self.selected_model),
            selected_effort: copy_opt(&self.selected_effort),
        }
    }

    /// The configuration after choosing a model and reasoning effort.
    pub fn with_model(&self, model: &str, effort: Option<&str>) -> (r: BackendConfig)
        ensures
            r.backend == self.backend,
            r.codex_executable == self.codex_executable,
            r.codex_version == self.codex_version,
            opt_chars(r.selected_model) == Some(model@),
            opt_chars(r.selected_effort) == crate::json::opt_str_chars(effort),
    {
        BackendConfig {
            backend: copy_opt(&self.backend),
            codex_executable: copy_opt(&self.codex_executable),
            codex_version: copy_opt(&self.codex_version),
            selected_model: Some(model.to_string()),
            selected_effort: match effort {
                Some(e) => Some(e.to_string()),
                None => None,
            },
        }
    }
}

/// The Codex backend state shared by the desktop's commands.
#[derive(Debug)]
pub struct CodexRuntime {
    pub status: CodexStatus,
    pub usage: CodexUsageSnapshot,
    pub links: StrMap<CodexSessionLink>,
    pub events: StrMap<Vec<CodexSessionEvent>>,
    pub event_seq: u64,
    pub buffers: StrMap<String>,
    pub server_requests: StrMap<PendingServerRequest>,
    /// Ids of the requests sent to the app-server and not yet answered.
    pub pending: Vec<u64>,
    pub next_id: u64,
    pub busy: bool,
}

/// Pending request ids are distinct and below the next id to be issued.
pub open spec fn pending_wf(pending: Seq<u64>, next_id: u64) -> bool {
    &&& forall|i: int, j: int| 0 <= i < j < pending.len() ==> pending[i] != pending[j]
    &&& forall|i: int| 0 <= i < pending.len() ==> pending[i] < next_id
}

impl CodexRuntime {
    /// The runtime's invariant.
    pub open spec fn wf(&self) -> bool {
        &&& self.usage.wf()
        &&& self.links.wf()
        &&& queues_wf(self.events, self.event_seq)
        &&& self.buffers.wf()
        &&& self.server_requests.wf()
        &&& pending_wf(self.pending@, self.next_id)
    }

    /// A runtime with nothing linked, nothing pending, and the initial status.
    pub fn new() -> (r: CodexRuntime)
        ensures
            r.wf(),
            r.links.view() == Map::<Seq<char>, CodexSessionLink>::empty(),
            r.events.view() == Map::<Seq<char>, Vec<CodexSessionEvent>>::empty(),
            r.event_seq == 0,
            r.pending@.len() == 0,
            r.next_id == 1,
            !r.busy,
            r.status.backend@ == "dsh"@,
            r.status.phase@ == "idle"@,
    {
        CodexRuntime {
            status: CodexStatus::default(),
            usage: CodexUsageSnapshot::default(),
            links: StrMap::new(),
            events: StrMap::new(),
            event_seq: 0,
            buffers: StrMap::new(),
            server_requests: StrMap::new(),
            pending: Vec::new(),
            next_id: 1,
            busy: false,
        }
    }

    /// Copies the status's runtime fields into the usage snapshot (before
    /// it is published).
    pub fn sync_usage(&mut self)
        requires
            old(self).wf(),
        ensures
            final(self).wf(),
            final(self).usage.backend == old(self).status.backend,
            final(self).usage.phase == old(self).status.phase,
            final(self).usage.cli_version == old(self).status.version,
            final(self).usage.required_cli_version == old(self).status.required_version,
            final(self).usage.app_server_running == old(self).status.app_server_running,
            final(self).usage.auth_mode == old(self).status.auth_mode,
            final(self).usage.managed_install == old(self).status.managed_install,
            final(self).usage.state == old(self).usage.state,
            final(self).usage.buckets == old(self).usage.buckets,
            final(self).status == old(self).status,
            final(self).links == old(self).links,
            final(self).events == old(self).events,
    {
        let backend = self.status.backend.clone();
        let phase = self.status.phase.clone();
        let version = copy_opt(&self.status.version);
        let required = self.status.required_version.clone();
        let auth = copy_opt(&self.status.auth_mode);
        self.usage.set_runtime(
            backend,
            phase,
            version,
            required,
            self.status.app_server_running,
            auth,
            self.status.managed_install,
        );
    }

    /// Issues a JSON-RPC request: the message to write, under a fresh id
    /// that is now awaited. `null` parameters are left out.
    pub fn begin_request(&mut self, method: &str, params: JsonValue) -> (r: (u64, JsonValue))
        requires
            old(self).wf(),
            old(self).next_id < u64::MAX,
        ensures
            final(self).wf(),
            r.0 == old(self).next_id,
            final(self).next_id == old(self).next_id + 1,
            final(self).pending@ == old(self).pending@.push(r.0),
            r.1 is Object,
            r.1->Object_0.pairs()[0] == ("method"@, JsonValue::Str(r.1->Object_0.pairs()[0].1->Str_0)),
            r.1->Object_0.pairs()[0].1->Str_0@ == method@,
            r.1->Object_0.pairs()[1].0 == "id"@,
            r.1->Object_0.pairs()[1].1.u64_value() == Some(r.0),
            params is Null ==> r.1->Object_0.pairs().len() == 2,
            !(params is Null) ==> r.1->Object_0.pairs().len() == 3 && r.1->Object_0.pairs()[2]
                == ("params"@, params),
            final(self).status == old(self).status,
            final(self).links == old(self).links,
            final(self).events == old(self).events,
            final(self).event_seq == old(self).event_seq,
    {
        let id = self.next_id;
        self.next_id = self.next_id + 1;
        self.pending.push(id);
        let message = if params.is_null() {
            object(vec![member("method", JsonValue::string(method)), member("id", JsonValue::uint(id))])
        } else {
            object(
                vec![
                    member("method", JsonValue::string(method)),
                    member("id", JsonValue::uint(id)),
                    member("params", params),
                ],
            )
        };
        (id, message)
    }

    /// A JSON-RPC notification to the app-server.
    pub fn notification(method: &str, params: JsonValue) -> (r: JsonValue)
        ensures
            r is Object,
            r->Object_0.pairs().len() == 2,
            r->Object_0.pairs()[0].0 == "method"@,
            r->Object_0.pairs()[0].1.str_value() == Some(method@),
            r->Object_0.pairs()[1] == ("params"@, params),
    {
        object(vec![member("method", JsonValue::string(method)), member("params", params)])
    }

    /// Stops awaiting the request `id` (its write failed or it timed out).
    pub fn cancel_request(&mut self, id: u64)
        requires
            old(self).wf(),
        ensures
            final(self).wf(),
            !final(self).pending@.contains(id),
            forall|x: u64| x != id ==> (final(self).pending@.contains(x) <==> old(self).pending@.contains(x)),
            *final(self) == (CodexRuntime { pending: final(self).pending, ..*old(self) }),
    {
        let ghost s = self.pending@;
        let mut kept: Vec<u64> = Vec::new();
        let mut i: usize = 0;
        while i < self.pending.len()
            invariant
                i <= self.pending@.len(),
                self.pending@ == s,
                pending_wf(s, self.next_id),
                forall|x: u64| kept@.contains(x) <==> (x != id && s.take(i as int).contains(x)),
                forall|a: int, b: int| 0 <= a < b < kept@.len() ==> kept@[a] != kept@[b],
                forall|a: int| 0 <= a < kept@.len() ==> kept@[a] < self.next_id,
            decreases self.pending.len() - i,
        {
            let x = self.pending[i];
            let ghost k0 = kept@;
            proof {
                assert(s.take((i + 1) as int) =~= s.take(i as int).push(x));
                if k0.contains(x) {
                    let j = choose|j: int| 0 <= j < i && s.take(i as int)[j] == x;
                    assert(s[j] == s[i as int]);
                }
            }
            if x != id {
                kept.push(x);
            }
            proof {
                assert forall|y: u64| kept@.contains(y) <==> (y != id && s.take(i + 1).contains(y)) by {
                    if kept@.contains(y) {
                        let j = choose|j: int| 0 <= j < kept@.len() && kept@[j] == y;
                        if j < k0.len() {
                            assert(k0[j] == y);
                            assert(k0.contains(y));
                            let m = choose|m: int| 0 <= m < i && s.take(i as int)[m] == y;
                            assert(s.take(i + 1)[m] == y);
                        } else {
                            assert(s.take(i + 1)[i as int] == y);
                        }
                    }
                    if y != id && s.take(i + 1).contains(y) {
                        let j = choose|j: int| 0 <= j < i + 1 && #[trigger] s.take(i + 1)[j] == y;
                        if j == i {
                            assert(kept@[kept@.len() - 1] == y);
                        } else {
                            assert(s.take(i as int)[j] == y);
                            assert(k0.contains(y));
                            let m = choose|m: int| 0 <= m < k0.len() && k0[m] == y;
                            assert(kept@[m] == y);
                        }
                    }
                }
            }
            i = i + 1;
        }
        assert(s.take(s.len() as int) =~= s);
        self.pending = kept;
    }

    /// Whether `id` is awaited; if so it is no longer.
    pub fn take_pending(&mut self, id: u64) -> (r: bool)
        requires
            old(self).wf(),
        ensures
            final(self).wf(),
            r == old(self).pending@.contains(id),
            !final(self).pending@.contains(id),
            forall|x: u64| x != id ==> (final(self).pending@.contains(x) <==> old(self).pending@.contains(x)),
            *final(self) == (CodexRuntime { pending: final(self).pending, ..*old(self) }),
            !r ==> *final(self) == *old(self),
    {
        let mut found = false;
        let mut i: usize = 0;
        while i < self.pending.len()
            invariant
                i <= self.pending@.len(),
                found == self.pending@.take(i as int).contains(id),
            decreases self.pending.len() - i,
        {
            let ghost t = self.pending@.take(i as int);
            assert(self.pending@.take((i + 1) as int) =~= t.push(self.pending@[i as int]));
            if self.pending[i] == id {
                found = true;
                assert(self.pending@.take((i + 1) as int)[i as int] == id);
            } else {
                proof {
                    if self.pending@.take((i + 1) as int).contains(id) {
                        let j = choose|j: int| 0 <= j < i + 1 && #[trigger] self.pending@.take((i + 1) as int)[j] == id;
                        assert(t[j] == id);
                    }
                    if t.contains(id) {
                        let j = choose|j: int| 0 <= j < i && t[j] == id;
                        assert(self.pending@.take((i + 1) as int)[j] == id);
                    }
                }
            }
            i = i + 1;
        }
        assert(self.pending@.take(self.pending@.len() as int) =~= self.pending@);
        if found {
            self.cancel_request(id);
        }
        found
    }

    /// Fails every awaited request; the ids to answer with an error.
    pub fn drain_pending(&mut self) -> (r: Vec<u64>)
        requires
            old(self).wf(),
        ensures
            final(self).wf(),
            r@ == old(self).pending@,
            final(self).pending@.len() == 0,
            *final(self) == (CodexRuntime { pending: final(self).pending, ..*old(self) }),
    {
        let mut drained: Vec<u64> = Vec::new();
        std::mem::swap(&mut drained, &mut self.pending);
        drained
    }
}

} // verus!
