//! The backend's life cycle as the status shows it: configuring, logging in
//! and out, refreshing the usage, stopping the app-server, and switching
//! back to the dsh backend.
use vstd::prelude::*;

use crate::json::{member, object, opt_chars, JsonValue};
use crate::runtime::{BackendConfig, CodexBinary, CodexRuntime, CodexStatus};
use crate::session::CodexSessionLink;
use crate::strmap::StrMap;
use crate::text::{concat, str_eq};
use crate::usage::{rate_limits_applied, CodexUsageSnapshot};
use crate::validate::CODEX_CLI_VERSION;

verus! {

broadcast use vstd::string::group_string_axioms;

/// A link once the app-server that loaded its thread has stopped.
pub open spec fn unloaded(link: CodexSessionLink) -> CodexSessionLink {
    CodexSessionLink { loaded: false, active_turn_id: None, ..link }
}

/// What `account/read` reports, as the status keeps it.
pub open spec fn account_recorded(old: CodexStatus, new: CodexStatus, account: JsonValue) -> bool {
    &&& opt_chars(new.auth_mode) == account.field2_str("account"@, "type"@)
    &&& opt_chars(new.plan_type) == account.field2_str("account"@, "planType"@)
    &&& opt_chars(new.account_email) == account.field2_str("account"@, "email"@)
    &&& new == (CodexStatus {
        auth_mode: new.auth_mode,
        plan_type: new.plan_type,
        account_email: new.account_email,
        ..old
    })
}

impl CodexRuntime {
    /// Marks every link as no longer loaded in the app-server, with no
    /// active turn.
    fn unload_links(&mut self)
        requires
            old(self).wf(),
        ensures
            final(self).wf(),
            final(self).links.view() == old(self).links.view().map_values(
                |l: CodexSessionLink| unloaded(l),
            ),
            *final(self) == (CodexRuntime { links: final(self).links, ..*old(self) }),
    {
        let keys = self.links.keys();
        proof {
            self.links.lemma_keys();
        }
        let ghost ks = self.links.key_seq();
        let ghost before = self.links.view();
        let ghost start = *self;
        let mut i: usize = 0;
        while i < keys.len()
            invariant
                *self == (CodexRuntime { links: self.links, ..start }),
                self.links.wf(),
                i <= keys@.len(),
                keys@.map_values(|k: String| k@) == ks,
                forall|k: Seq<char>| before.contains_key(k) <==> ks.contains(k),
                forall|a: int, b: int| 0 <= a < b < ks.len() ==> crate::order::lex_lt(ks[a], ks[b]),
                self.links.view().dom() == before.dom(),
                forall|k: Seq<char>|
                    #[trigger] before.contains_key(k) ==> self.links.view()[k] == (if ks.take(
                        i as int,
                    ).contains(k) {
                        unloaded(before[k])
                    } else {
                        before[k]
                    }),
            decreases keys.len() - i,
        {
            let ghost k = keys@[i as int]@;
            assert(keys@.map_values(|k: String| k@)[i as int] == k);
            assert(ks.contains(k));
            assert(ks.take((i + 1) as int) =~= ks.take(i as int).push(k));
            proof {
                if ks.take(i as int).contains(k) {
                    let j = choose|j: int| 0 <= j < i && #[trigger] ks.take(i as int)[j] == k;
                    assert(ks[j] == k);
                    crate::order::lemma_lex_irreflexive(k);
                }
            }
            let ghost v0 = self.links.view();
            let mut link = self.links.remove(keys[i].as_str()).unwrap();
            link.loaded = false;
            link.active_turn_id = None;
            self.links.insert(keys[i].clone(), link);
            proof {
                assert forall|x: Seq<char>| #[trigger] before.contains_key(x) implies self.links.view()[x] == (if ks.take(
                    i + 1,
                ).contains(x) {
                    unloaded(before[x])
                } else {
                    before[x]
                }) by {
                    if x != k {
                        if ks.take(i + 1).contains(x) {
                            let j = choose|j: int| 0 <= j < i + 1 && #[trigger] ks.take(i + 1)[j] == x;
                            assert(ks.take(i as int)[j] == x);
                        }
                        if ks.take(i as int).contains(x) {
                            let j = choose|j: int| 0 <= j < i && #[trigger] ks.take(i as int)[j] == x;
                            assert(ks.take(i + 1)[j] == x);
                        }
                    } else {
                        assert(ks.take(i + 1)[i as int] == k);
                    }
                }
                assert(self.links.view().dom() =~= before.dom());
            }
            i = i + 1;
        }
        proof {
            assert(ks.take(ks.len() as int) =~= ks);
            assert(self.links.view() =~= before.map_values(|l: CodexSessionLink| unloaded(l)));
        }
    }

    /// The app-server stopped (its output ended) with `message`: pending
    /// approvals and buffered text are dropped, links are unloaded, a Codex
    /// backend not already in error reports `message`, and the usage becomes
    /// unavailable. Returns the awaited requests, which fail with `message`.
    pub fn mark_stopped(&mut self, message: &str, now: u64) -> (failed: Vec<u64>)
        requires
            old(self).wf(),
        ensures
            final(self).wf(),
            failed@ == old(self).pending@,
            final(self).pending@.len() == 0,
            final(self).server_requests.view() == Map::<
                Seq<char>,
                crate::session::PendingServerRequest,
            >::empty(),
            final(self).buffers.view() == Map::<Seq<char>, String>::empty(),
            final(self).links.view() == old(self).links.view().map_values(
                |l: CodexSessionLink| unloaded(l),
            ),
            !final(self).status.app_server_running,
            if old(self).status.backend@ == "codex"@ && old(self).status.phase@ != "error"@ {
                &&& final(self).status.phase@ == "error"@
                &&& opt_chars(final(self).status.error) == Some(message@)
                &&& final(self).status == (CodexStatus {
                    app_server_running: false,
                    phase: final(self).status.phase,
                    error: final(self).status.error,
                    ..old(self).status
                })
            } else {
                final(self).status == (CodexStatus {
                    app_server_running: false,
                    ..old(self).status
                })
            },
            final(self).usage.state@ == "unavailable"@,
            opt_chars(final(self).usage.error) == Some(message@),
            final(self).usage == (CodexUsageSnapshot {
                state: final(self).usage.state,
                error: final(self).usage.error,
                updated_at: now,
                ..old(self).usage
            }),
            final(self).events == old(self).events,
            final(self).event_seq == old(self).event_seq,
            final(self).next_id == old(self).next_id,
            final(self).busy == old(self).busy,
    {
        self.server_requests = StrMap::new();
        self.buffers = StrMap::new();
        self.unload_links();
        self.status.app_server_running = false;
        if str_eq(self.status.backend.as_str(), "codex") && !str_eq(self.status.phase.as_str(), "error") {
            self.status.phase = "error".to_string();
            self.status.error = Some(message.to_string());
        }
        let failed = self.drain_pending();
        self.usage.set_unavailable(Some(message.to_string()), now);
        failed
    }

    /// The app-server is being stopped: it no longer runs, and the awaited
    /// requests (returned) fail.
    pub fn shutdown(&mut self) -> (failed: Vec<u64>)
        requires
            old(self).wf(),
        ensures
            final(self).wf(),
            failed@ == old(self).pending@,
            final(self).pending@.len() == 0,
            final(self).status == (CodexStatus { app_server_running: false, ..old(self).status }),
            *final(self) == (CodexRuntime {
                status: final(self).status,
                pending: final(self).pending,
                ..*old(self)
            }),
    {
        self.status.app_server_running = false;
        let mut failed: Vec<u64> = Vec::new();
        std::mem::swap(&mut failed, &mut self.pending);
        failed
    }

    /// Switches back to the dsh backend: the app-server stops, the status is
    /// idle, and the usage is unavailable without an error.
    pub fn select_dsh(&mut self, now: u64) -> (failed: Vec<u64>)
        requires
            old(self).wf(),
        ensures
            final(self).wf(),
            failed@ == old(self).pending@,
            final(self).pending@.len() == 0,
            final(self).status.backend@ == "dsh"@,
            final(self).status.phase@ == "idle"@,
            final(self).status == (CodexStatus {
                backend: final(self).status.backend,
                phase: final(self).status.phase,
                app_server_running: false,
                error: None,
                auth_url: None,
                ..old(self).status
            }),
            final(self).usage.state@ == "unavailable"@,
            final(self).usage == (CodexUsageSnapshot {
                state: final(self).usage.state,
                error: None,
                updated_at: now,
                ..old(self).usage
            }),
            *final(self) == (CodexRuntime {
                status: final(self).status,
                usage: final(self).usage,
                pending: final(self).pending,
                ..*old(self)
            }),
    {
        let failed = self.shutdown();
        self.status.backend = "dsh".to_string();
        self.status.phase = "idle".to_string();
        self.status.error = None;
        self.status.auth_url = None;
        self.usage.set_unavailable(None, now);
        failed
    }

    /// Enters a phase of the backend's life cycle.
    pub fn set_phase(&mut self, phase: &str)
        requires
            old(self).wf(),
        ensures
            final(self).wf(),
            final(self).status.phase@ == phase@,
            final(self).status == (CodexStatus { phase: final(self).status.phase, ..old(self).status }),
            *final(self) == (CodexRuntime { status: final(self).status, ..*old(self) }),
    {
        self.status.phase = phase.to_string();
    }

    /// Reports a failure: the backend is in error and the usage unavailable
    /// with the same message.
    pub fn set_error(&mut self, error: &str, now: u64)
        requires
            old(self).wf(),
        ensures
            final(self).wf(),
            final(self).status.phase@ == "error"@,
            opt_chars(final(self).status.error) == Some(error@),
            final(self).status == (CodexStatus {
                phase: final(self).status.phase,
                error: final(self).status.error,
                ..old(self).status
            }),
            final(self).usage.state@ == "unavailable"@,
            opt_chars(final(self).usage.error) == Some(error@),
            final(self).usage == (CodexUsageSnapshot {
                state: final(self).usage.state,
                error: final(self).usage.error,
                updated_at: now,
                ..old(self).usage
            }),
            *final(self) == (CodexRuntime {
                status: final(self).status,
                usage: final(self).usage,
                ..*old(self)
            }),
    {
        self.status.phase = "error".to_string();
        self.status.error = Some(error.to_string());
        self.usage.set_unavailable(Some(error.to_string()), now);
    }

    /// Starts configuring the Codex backend unless a configuration or
    /// logout is already running; whether it started.
    pub fn begin_configure(&mut self, now: u64) -> (started: bool)
        requires
            old(self).wf(),
        ensures
            final(self).wf(),
            started == !old(self).busy,
            !started ==> *final(self) == *old(self),
            started ==> {
                &&& final(self).busy
                &&& final(self).status.backend@ == "codex"@
                &&& final(self).status.phase@ == "detecting"@
                &&& final(self).status == (CodexStatus {
                    backend: final(self).status.backend,
                    phase: final(self).status.phase,
                    error: None,
                    ..old(self).status
                })
                &&& final(self).usage.state@ == "loading"@
                &&& final(self).usage == (CodexUsageSnapshot {
                    state: final(self).usage.state,
                    error: None,
                    updated_at: now,
                    ..old(self).usage
                })
                &&& *final(self) == (CodexRuntime {
                    busy: true,
                    status: final(self).status,
                    usage: final(self).usage,
                    ..*old(self)
                })
            },
    {
        if self.busy {
            return false;
        }
        self.busy = true;
        self.status.backend = "codex".to_string();
        self.status.phase = "detecting".to_string();
        self.status.error = None;
        self.usage.set_loading(now);
        true
    }

    /// A configuration or logout finished.
    pub fn end_busy(&mut self)
        requires
            old(self).wf(),
        ensures
            final(self).wf(),
            *final(self) == (CodexRuntime { busy: false, ..*old(self) }),
    {
        self.busy = false;
    }

    /// Records the CLI that will run the app-server: the status shows it and
    /// the app-server is being started.
    pub fn use_binary(&mut self, binary: &CodexBinary)
        requires
            old(self).wf(),
        ensures
            final(self).wf(),
            final(self).status.installed,
            final(self).status.exact_version == (binary.version@ == CODEX_CLI_VERSION@),
            final(self).status.version == Some(binary.version),
            final(self).status.executable == Some(binary.program),
            final(self).status.managed_install == binary.managed,
            final(self).status.phase@ == "startingAppServer"@,
            final(self).status == (CodexStatus {
                installed: true,
                exact_version: final(self).status.exact_version,
                version: final(self).status.version,
                executable: final(self).status.executable,
                managed_install: final(self).status.managed_install,
                phase: final(self).status.phase,
                ..old(self).status
            }),
            *final(self) == (CodexRuntime { status: final(self).status, ..*old(self) }),
    {
        crate::runtime::apply_binary_status(&mut self.status, Some(binary));
        self.status.phase = "startingAppServer".to_string();
    }

    /// The app-server process started: it runs, without an error.
    pub fn app_server_started(&mut self)
        requires
            old(self).wf(),
        ensures
            final(self).wf(),
            *final(self) == (CodexRuntime {
                status: CodexStatus { app_server_running: true, error: None, ..old(self).status },
                ..*old(self)
            }),
    {
        self.status.app_server_running = true;
        self.status.error = None;
    }

    /// Records the account that `account/read` returned, in the status and
    /// the usage; whether it is a ChatGPT login.
    pub fn record_account(&mut self, account: &JsonValue, now: u64) -> (chatgpt: bool)
        requires
            old(self).wf(),
        ensures
            final(self).wf(),
            chatgpt == (account.field2_str("account"@, "type"@) == Some("chatgpt"@)),
            account_recorded(old(self).status, final(self).status, *account),
            opt_chars(final(self).usage.plan_type) == account.field2_str("account"@, "planType"@),
            opt_chars(final(self).usage.email) == account.field2_str("account"@, "email"@),
            final(self).usage.state@ == (if chatgpt {
                "loading"@
            } else {
                "unauthenticated"@
            }),
            final(self).usage == (CodexUsageSnapshot {
                plan_type: final(self).usage.plan_type,
                email: final(self).usage.email,
                state: final(self).usage.state,
                error: None,
                updated_at: now,
                ..old(self).usage
            }),
            *final(self) == (CodexRuntime {
                status: final(self).status,
                usage: final(self).usage,
                ..*old(self)
            }),
    {
        let auth = account.get2_string("account", "type");
        let chatgpt = match &auth {
            Some(a) => str_eq(a.as_str(), "chatgpt"),
            None => false,
        };
        self.status.auth_mode = auth;
        self.status.plan_type = account.get2_string("account", "planType");
        self.status.account_email = account.get2_string("account", "email");
        self.usage.set_account(account, now);
        chatgpt
    }

    /// Starts signing out unless the app-server is not running or a
    /// configuration or logout is already running; whether it started.
    pub fn begin_logout(&mut self) -> (started: bool)
        requires
            old(self).wf(),
        ensures
            final(self).wf(),
            started == (!old(self).busy && old(self).status.app_server_running),
            !started ==> *final(self) == *old(self),
            started ==> final(self).status.phase@ == "signingOut"@ && *final(self) == (CodexRuntime {
                busy: true,
                status: CodexStatus { phase: final(self).status.phase, error: None, ..old(self).status },
                ..*old(self)
            }),
    {
        if self.busy || !self.status.app_server_running {
            return false;
        }
        self.busy = true;
        self.status.phase = "signingOut".to_string();
        self.status.error = None;
        true
    }

    /// The app-server confirmed the logout: no account, and the usage is
    /// unauthenticated.
    pub fn finish_logout(&mut self)
        requires
            old(self).wf(),
        ensures
            final(self).wf(),
            final(self).status.phase@ == "signedOut"@,
            final(self).status == (CodexStatus {
                phase: final(self).status.phase,
                auth_mode: None,
                plan_type: None,
                account_email: None,
                auth_url: None,
                error: None,
                ..old(self).status
            }),
            final(self).usage.state@ == "unauthenticated"@,
            final(self).usage == (CodexUsageSnapshot {
                state: final(self).usage.state,
                error: None,
                ..old(self).usage
            }),
            *final(self) == (CodexRuntime {
                status: final(self).status,
                usage: final(self).usage,
                ..*old(self)
            }),
    {
        self.status.phase = "signedOut".to_string();
        self.status.auth_mode = None;
        self.status.plan_type = None;
        self.status.account_email = None;
        self.status.auth_url = None;
        self.status.error = None;
        self.usage.state = "unauthenticated".to_string();
        self.usage.error = None;
    }

    /// The parameters of `account/login/start` for the managed ChatGPT login.
    pub fn login_params() -> (r: JsonValue)
        ensures
            r is Object,
            r->Object_0.pairs().len() == 3,
            r->Object_0.pairs()[0].0 == "type"@,
            r->Object_0.pairs()[0].1.str_value() == Some("chatgpt"@),
            r->Object_0.pairs()[1] == ("useHostedLoginSuccessPage"@, JsonValue::Bool(true)),
            r->Object_0.pairs()[2].0 == "appBrand"@,
            r->Object_0.pairs()[2].1.str_value() == Some("chatgpt"@),
    {
        object(
            vec![
                member("type", JsonValue::string("chatgpt")),
                member("useHostedLoginSuccessPage", JsonValue::Bool(true)),
                member("appBrand", JsonValue::string("chatgpt")),
            ],
        )
    }

    /// Records the OAuth URL of a started login: the user is now expected to
    /// log in there. Fails when the reply has no `authUrl` string.
    pub fn login_started(&mut self, result: &JsonValue) -> (r: Result<String, String>)
        requires
            old(self).wf(),
        ensures
            final(self).wf(),
            match r {
                Ok(url) => {
                    &&& result.field_str("authUrl"@) == Some(url@)
                    &&& final(self).status.phase@ == "waitingForLogin"@
                    &&& final(self).status.auth_url == Some(url)
                    &&& *final(self) == (CodexRuntime {
                        status: CodexStatus {
                            phase: final(self).status.phase,
                            auth_url: Some(url),
                            ..old(self).status
                        },
                        ..*old(self)
                    })
                },
                Err(e) => {
                    &&& result.field_str("authUrl"@) is None
                    &&& e@ == "Codex app-server did not return an OAuth URL"@
                    &&& *final(self) == *old(self)
                },
            },
    {
        let url = match result.get_string("authUrl") {
            Some(u) => u,
            None => return Err("Codex app-server did not return an OAuth URL".to_string()),
        };
        self.status.phase = "waitingForLogin".to_string();
        self.status.auth_url = Some(url.clone());
        Ok(url)
    }

    /// Starts a usage refresh: without a ChatGPT login the usage is
    /// unauthenticated and nothing is read; otherwise it is loading.
    /// Whether to read the account and rate limits.
    pub fn begin_usage_refresh(&mut self, now: u64) -> (read: bool)
        requires
            old(self).wf(),
        ensures
            final(self).wf(),
            read == (opt_chars(old(self).status.auth_mode) == Some("chatgpt"@)),
            !read ==> final(self).usage.state@ == "unauthenticated"@ && final(self).usage == (
            CodexUsageSnapshot { state: final(self).usage.state, error: None, ..old(self).usage }),
            read ==> final(self).usage.state@ == "loading"@ && final(self).usage == (
            CodexUsageSnapshot {
                state: final(self).usage.state,
                error: None,
                updated_at: now,
                ..old(self).usage
            }),
            *final(self) == (CodexRuntime { usage: final(self).usage, ..*old(self) }),
    {
        let chatgpt = match &self.status.auth_mode {
            Some(a) => str_eq(a.as_str(), "chatgpt"),
            None => false,
        };
        if !chatgpt {
            self.usage.state = "unauthenticated".to_string();
            self.usage.error = None;
            return false;
        }
        self.usage.set_loading(now);
        true
    }

    /// Records the reply to `account/rateLimits/read`: the limits, or the
    /// usage is unavailable with the error. Whether to read the account
    /// usage next.
    pub fn record_rate_limits(&mut self, reply: Result<JsonValue, String>, now: u64) -> (read_usage: bool)
        requires
            old(self).wf(),
        ensures
            final(self).wf(),
            read_usage == reply is Ok,
            *final(self) == (CodexRuntime { usage: final(self).usage, ..*old(self) }),
            match reply {
                Ok(limits) => rate_limits_applied(old(self).usage, final(self).usage, limits, now),
                Err(e) => final(self).usage.state@ == "unavailable"@ && final(self).usage.error
                    == Some(e) && final(self).usage == (CodexUsageSnapshot {
                    state: final(self).usage.state,
                    error: Some(e),
                    updated_at: now,
                    ..old(self).usage
                }),
            },
    {
        match reply {
            Ok(limits) => {
                self.usage.apply_rate_limits(&limits, now);
                true
            },
            Err(e) => {
                self.usage.set_unavailable(Some(e), now);
                false
            },
        }
    }

    /// Loads the persisted state: the chosen backend, the CLI last
    /// configured, and the session links.
    pub fn load(&mut self, config: &BackendConfig, links: StrMap<CodexSessionLink>)
        requires
            old(self).wf(),
            links.wf(),
        ensures
            final(self).wf(),
            final(self).links == links,
            final(self).status.backend == (match config.backend {
                Some(b) => b,
                None => old(self).status.backend,
            }),
            (config.codex_executable is Some && config.codex_version is Some) ==> {
                &&& final(self).status.executable == config.codex_executable
                &&& final(self).status.version == config.codex_version
                &&& final(self).status.installed
                &&& final(self).status.exact_version == (config.codex_version->0@ == CODEX_CLI_VERSION@)
                &&& final(self).status == (CodexStatus {
                    backend: final(self).status.backend,
                    executable: final(self).status.executable,
                    version: final(self).status.version,
                    installed: true,
                    exact_version: final(self).status.exact_version,
                    ..old(self).status
                })
            },
            !(config.codex_executable is Some && config.codex_version is Some) ==> final(self).status
                == (CodexStatus { backend: final(self).status.backend, ..old(self).status }),
            *final(self) == (CodexRuntime {
                status: final(self).status,
                links: final(self).links,
                ..*old(self)
            }),
    {
        match &config.backend {
            Some(b) => self.status.backend = b.clone(),
            None => {},
        }
        match (&config.codex_executable, &config.codex_version) {
            (Some(program), Some(version)) => {
                self.status.executable = Some(program.clone());
                self.status.version = Some(version.clone());
                self.status.installed = true;
                self.status.exact_version = str_eq(version.as_str(), CODEX_CLI_VERSION);
            },
            _ => {},
        }
        self.links = links;
    }

    /// A request that got no reply in time is no longer awaited; the error
    /// to report.
    pub fn request_timed_out(&mut self, id: u64, method: &str) -> (e: String)
        requires
            old(self).wf(),
        ensures
            final(self).wf(),
            e@ == "Codex app-server request timed out: "@ + method@,
            !final(self).pending@.contains(id),
            forall|x: u64|
                x != id ==> (final(self).pending@.contains(x) <==> old(self).pending@.contains(x)),
            *final(self) == (CodexRuntime { pending: final(self).pending, ..*old(self) }),
    {
        self.cancel_request(id);
        concat("Codex app-server request timed out: ", method)
    }
}

} // verus!
