//! The decisions taken on every line the app-server writes: replies are
//! matched to the awaited requests, approval requests are routed to their
//! session or declined, and notifications update the account, the usage
//! snapshot and the session adapter.
use vstd::prelude::*;

use crate::json::{member, object, opt_chars, or_null, pairs_lookup, JsonNumber, JsonValue};
use crate::jsontext::{json_serialized_len, json_text_len, json_text_value, parse_json};
use crate::notify::{notification_applied, notification_persists, completed_buffer};
use crate::runtime::{CodexRuntime, CodexStatus};
use crate::session::{
    approval_kind, push_session_event, queue_after_push, sanitize_server_request,
    PendingServerRequest,
};
use crate::text::str_eq;
use crate::usage::{rate_limit_notification_effect, thread_usage_effect, CodexUsageSnapshot};
use crate::validate::{
    extract_thread_id, request_id_key, request_key_of, session_notification, thread_id_of,
};

verus! {

broadcast use vstd::string::group_string_axioms;

/// The app-server requests that the session adapter shows to the user.
pub open spec fn approval_method(method: Seq<char>) -> bool {
    method == "item/commandExecution/requestApproval"@ || method
        == "item/fileChange/requestApproval"@
}

/// Some linked session has the thread `thread`.
pub open spec fn thread_linked(rt: CodexRuntime, thread: Seq<char>) -> bool {
    exists|k: Seq<char>|
        #[trigger] rt.links.view().contains_key(k) && rt.links.view()[k].thread_id@ == thread
}

/// The answer that declines an app-server request the adapter cannot show.
pub open spec fn decline_response(response: JsonValue, id: JsonValue) -> bool {
    &&& response is Object
    &&& response->Object_0.pairs().len() == 2
    &&& response->Object_0.pairs()[0] == ("id"@, id)
    &&& response->Object_0.pairs()[1].0 == "error"@
    &&& response->Object_0.pairs()[1].1 is Object
    &&& response->Object_0.pairs()[1].1->Object_0.pairs().len() == 2
    &&& response->Object_0.pairs()[1].1.field_i64("code"@) == Some(-32601i64)
    &&& response->Object_0.pairs()[1].1.field_str("message"@) == Some(
        "This request is not supported by the DSH Desktop session adapter"@,
    )
}

/// The payload routed for an approval request: the request id, its kind and
/// the request's display fields (`null` where absent), in that order.
pub open spec fn approval_payload(
    payload: JsonValue,
    method: Seq<char>,
    id: JsonValue,
    params: JsonValue,
) -> bool {
    &&& payload is Object
    &&& payload->Object_0.pairs() == seq![
        ("requestId"@, id),
        ("kind"@, JsonValue::Str(payload->Object_0.pairs()[1].1->Str_0)),
        ("threadId"@, or_null(params.field("threadId"@))),
        ("turnId"@, or_null(params.field("turnId"@))),
        ("itemId"@, or_null(params.field("itemId"@))),
        ("reason"@, or_null(params.field("reason"@))),
        ("command"@, or_null(params.field("command"@))),
        ("cwd"@, or_null(params.field("cwd"@))),
        ("grantRoot"@, or_null(params.field("grantRoot"@))),
        ("availableDecisions"@, or_null(params.field("availableDecisions"@))),
    ]
    &&& payload->Object_0.pairs()[1].1->Str_0@ == approval_kind(method)
}

/// The payload shown for an approval request answers each display field by
/// its own name with the request's field of that name (`null` when it has
/// none), `requestId` with the request's id, and `kind` with `command` for a
/// command execution and `fileChange` otherwise.
pub proof fn law_approval_payload_fields(payload: JsonValue, method: Seq<char>, id: JsonValue, params: JsonValue)
    requires
        approval_payload(payload, method, id, params),
    ensures
        payload.field("requestId"@) == Some(id),
        payload.field_str("kind"@) == Some(
            if crate::text::occurs_in("commandExecution"@, method) {
                "command"@
            } else {
                "fileChange"@
            },
        ),
        forall|k: Seq<char>|
            #![trigger params.field(k)]
            k == "threadId"@ || k == "turnId"@ || k == "itemId"@ || k == "reason"@ || k == "command"@
                || k == "cwd"@ || k == "grantRoot"@ || k == "availableDecisions"@ ==> payload.field(k)
                == Some(or_null(params.field(k))),
{
    let ps = payload->Object_0.pairs();
    let keys = seq![
        "requestId"@,
        "kind"@,
        "threadId"@,
        "turnId"@,
        "itemId"@,
        "reason"@,
        "command"@,
        "cwd"@,
        "grantRoot"@,
        "availableDecisions"@,
    ];
    reveal_strlit("requestId");
    reveal_strlit("kind");
    reveal_strlit("threadId");
    reveal_strlit("turnId");
    reveal_strlit("itemId");
    reveal_strlit("reason");
    reveal_strlit("command");
    reveal_strlit("cwd");
    reveal_strlit("grantRoot");
    reveal_strlit("availableDecisions");
    assert("requestId"@.len() == 9 && "kind"@.len() == 4 && "threadId"@.len() == 8);
    assert("turnId"@.len() == 6 && "itemId"@.len() == 6 && "reason"@.len() == 6);
    assert("command"@.len() == 7 && "cwd"@.len() == 3 && "grantRoot"@.len() == 9);
    assert("availableDecisions"@.len() == 18);
    assert("requestId"@[0] == 'r' && "grantRoot"@[0] == 'g');
    assert("turnId"@[0] == 't' && "itemId"@[0] == 'i' && "reason"@[0] == 'r');
    assert forall|i: int| 0 <= i < 10 implies #[trigger] ps[i].0 == keys[i] by {}
    assert forall|i: int, j: int| 0 <= j < i < 10 implies #[trigger] keys[j] != #[trigger] keys[i] by {}
    assert forall|i: int| 0 <= i < 10 implies payload.field(#[trigger] keys[i]) == Some(ps[i].1) by {
        payload->Object_0.lemma_lookup_pairs(keys[i]);
        crate::session::lemma_lookup_at(ps, keys[i], i);
    }
    assert(payload.field(keys[0]) == Some(ps[0].1));
    assert(payload.field(keys[1]) == Some(ps[1].1));
    assert forall|k: Seq<char>|
        #![trigger params.field(k)]
        k == "threadId"@ || k == "turnId"@ || k == "itemId"@ || k == "reason"@ || k == "command"@
            || k == "cwd"@ || k == "grantRoot"@ || k == "availableDecisions"@ implies payload.field(k)
            == Some(or_null(params.field(k))) by {
        if k == "threadId"@ {
            assert(payload.field(keys[2]) == Some(ps[2].1));
        } else if k == "turnId"@ {
            assert(payload.field(keys[3]) == Some(ps[3].1));
        } else if k == "itemId"@ {
            assert(payload.field(keys[4]) == Some(ps[4].1));
        } else if k == "reason"@ {
            assert(payload.field(keys[5]) == Some(ps[5].1));
        } else if k == "command"@ {
            assert(payload.field(keys[6]) == Some(ps[6].1));
        } else if k == "cwd"@ {
            assert(payload.field(keys[7]) == Some(ps[7].1));
        } else if k == "grantRoot"@ {
            assert(payload.field(keys[8]) == Some(ps[8].1));
        } else {
            assert(payload.field(keys[9]) == Some(ps[9].1));
        }
    }
}

/// What became of an app-server request.
#[derive(Debug)]
pub enum ServerRequestOutcome {
    /// Shown to the user of this session, who answers it later.
    Routed(String),
    /// Its id cannot be tracked; the message says why.
    InvalidId(String),
    /// Declined at once with this response.
    Declined(JsonValue),
}

/// What became of an app-server message.
#[derive(Debug)]
pub enum MessageOutcome {
    /// The reply to the awaited request with this id.
    Reply(u64, Result<JsonValue, String>),
    /// A request from the app-server.
    ServerRequest(ServerRequestOutcome),
    /// A notification: the session it was routed to (and whether its link
    /// should be persisted), and whether the usage should be refreshed.
    Notification(Option<(String, bool)>, bool),
    /// Neither an awaited reply, nor a request, nor a notification.
    Ignored,
    /// A line that is not JSON, with the parser's message.
    Unreadable(String),
}

/// The error message of a failed reply.
pub open spec fn reply_error(message: JsonValue) -> Seq<char> {
    match message.field("error"@) {
        Some(e) => match e.field_str("message"@) {
            Some(m) => m,
            None => "Codex app-server request failed"@,
        },
        None => Seq::empty(),
    }
}

/// How `account/updated` changes the status and the usage snapshot.
pub open spec fn account_updated_effect(
    old_status: CodexStatus,
    old_usage: CodexUsageSnapshot,
    status: CodexStatus,
    usage: CodexUsageSnapshot,
    params: JsonValue,
    now: u64,
) -> bool {
    let auth = params.field_str("authMode"@);
    let plan = params.field_str("planType"@);
    &&& opt_chars(status.auth_mode) == auth
    &&& opt_chars(usage.plan_type) == plan
    &&& if auth == Some("chatgpt"@) {
        &&& opt_chars(status.plan_type) == plan
        &&& status.phase@ == "ready"@
        &&& status == (CodexStatus {
            auth_mode: status.auth_mode,
            plan_type: status.plan_type,
            phase: status.phase,
            auth_url: None,
            error: None,
            ..old_status
        })
        &&& usage.state@ == "loading"@
        &&& usage == (CodexUsageSnapshot {
            plan_type: usage.plan_type,
            state: usage.state,
            error: None,
            updated_at: now,
            ..old_usage
        })
    } else if auth is None {
        &&& status.phase@ == "signedOut"@
        &&& status == (CodexStatus {
            auth_mode: None,
            plan_type: None,
            phase: status.phase,
            account_email: None,
            auth_url: None,
            error: None,
            ..old_status
        })
        &&& usage.state@ == "unauthenticated"@
        &&& usage == (CodexUsageSnapshot {
            plan_type: usage.plan_type,
            state: usage.state,
            updated_at: now,
            ..old_usage
        })
    } else {
        &&& opt_chars(status.plan_type) == plan
        &&& status == (CodexStatus {
            auth_mode: status.auth_mode,
            plan_type: status.plan_type,
            ..old_status
        })
        &&& usage.state@ == "unauthenticated"@
        &&& usage == (CodexUsageSnapshot {
            plan_type: usage.plan_type,
            state: usage.state,
            updated_at: now,
            ..old_usage
        })
    }
}

/// The error a failed ChatGPT login reports.
pub open spec fn login_error(params: JsonValue) -> Seq<char> {
    match params.field_str("error"@) {
        Some(e) => e,
        None => "ChatGPT login failed"@,
    }
}

/// How a notification changes the status and the usage snapshot, before it
/// is routed to a session.
pub open spec fn account_notification_effect(
    old_status: CodexStatus,
    old_usage: CodexUsageSnapshot,
    status: CodexStatus,
    usage: CodexUsageSnapshot,
    method: Seq<char>,
    params: JsonValue,
    now: u64,
) -> bool {
    if method == "account/updated"@ {
        account_updated_effect(old_status, old_usage, status, usage, params, now)
    } else if method == "account/login/completed"@ && params.field_bool("success"@) == Some(false) {
        &&& status.phase@ == "error"@
        &&& opt_chars(status.error) == Some(login_error(params))
        &&& status == (CodexStatus { phase: status.phase, error: status.error, ..old_status })
        &&& usage == old_usage
    } else if method == "account/rateLimits/updated"@ {
        status == old_status && rate_limit_notification_effect(old_usage, usage, params, now)
    } else if method == "thread/tokenUsage/updated"@ {
        status == old_status && thread_usage_effect(old_usage, usage, params, now)
    } else {
        status == old_status && usage == old_usage
    }
}

/// Whether a notification calls for a usage refresh.
pub open spec fn refreshes_usage(method: Seq<char>, params: JsonValue) -> bool {
    ||| method == "account/updated"@ && params.field_str("authMode"@) == Some("chatgpt"@)
    ||| method == "turn/completed"@
}

/// The account and usage notifications are distinct names.
proof fn lemma_account_methods_distinct()
    ensures
        "account/updated"@ != "account/login/completed"@,
        "account/updated"@ != "account/rateLimits/updated"@,
        "account/updated"@ != "thread/tokenUsage/updated"@,
        "account/login/completed"@ != "account/rateLimits/updated"@,
        "account/login/completed"@ != "thread/tokenUsage/updated"@,
        "account/rateLimits/updated"@ != "thread/tokenUsage/updated"@,
        "account/updated"@ != "turn/completed"@,
        "account/login/completed"@ != "turn/completed"@,
        "account/rateLimits/updated"@ != "turn/completed"@,
        "thread/tokenUsage/updated"@ != "turn/completed"@,
{
    reveal_strlit("account/updated");
    reveal_strlit("account/login/completed");
    reveal_strlit("account/rateLimits/updated");
    reveal_strlit("thread/tokenUsage/updated");
    reveal_strlit("turn/completed");
    assert("account/updated"@.len() == 15);
    assert("account/login/completed"@.len() == 23);
    assert("account/rateLimits/updated"@.len() == 26);
    assert("thread/tokenUsage/updated"@.len() == 25);
    assert("turn/completed"@.len() == 14);
}

/// What handling an app-server request did: routed an approval request to
/// the session linked to its thread, or left everything as it was.
pub open spec fn server_request_effect(
    old: CodexRuntime,
    new: CodexRuntime,
    id: JsonValue,
    method: Seq<char>,
    params: JsonValue,
    r: ServerRequestOutcome,
) -> bool {
    match r {
        ServerRequestOutcome::Routed(session) => {
            let key = request_key_of(id)->0;
            let q = new.events.view()[session@]@;
            let old_q = if old.events.view().contains_key(session@) {
                old.events.view()[session@]@
            } else {
                Seq::empty()
            };
            &&& approval_method(method)
            &&& thread_id_of(params) is Some
            &&& old.links.view().contains_key(session@)
            &&& old.links.view()[session@].thread_id@ == thread_id_of(params)->0
            &&& request_key_of(id) is Some
            &&& new.server_requests.view() == old.server_requests.view().insert(
                key,
                PendingServerRequest { id: id, session_id: session },
            )
            &&& new.event_seq == (if old.event_seq == u64::MAX {
                u64::MAX
            } else {
                (old.event_seq + 1) as u64
            })
            &&& new.events.view().dom() == old.events.view().dom().insert(
                session@,
            )
            &&& forall|k: Seq<char>|
                k != session@ && #[trigger] old.events.view().contains_key(k)
                    ==> new.events.view()[k] == old.events.view()[k]
            &&& q == queue_after_push(old_q, q.last())
            &&& q.last().seq == new.event_seq
            &&& q.last().method@ == method
            &&& approval_payload(q.last().params, method, id, params)
            &&& new == (CodexRuntime {
                server_requests: new.server_requests,
                events: new.events,
                event_seq: new.event_seq,
                ..old
            })
        },
        ServerRequestOutcome::InvalidId(e) => {
            &&& approval_method(method)
            &&& thread_id_of(params) is Some
            &&& thread_linked(old, thread_id_of(params)->0)
            &&& request_key_of(id) is None
            &&& e@ == "Invalid Codex server request id"@
            &&& new == old
        },
        ServerRequestOutcome::Declined(response) => {
            &&& !(approval_method(method) && thread_id_of(params) is Some
                && thread_linked(old, thread_id_of(params)->0))
            &&& decline_response(response, id)
            &&& new == old
        },
    }
}

/// What handling one app-server message did (`params_len` is the length
/// of the JSON text of its `params`): an awaited reply is taken with its
/// result; a request is routed or declined; a notification updates the
/// status and usage and is routed to the session linked to its thread.
pub open spec fn message_handled(
    old: CodexRuntime,
    new: CodexRuntime,
    message: JsonValue,
    params_len: usize,
    now: u64,
    r: MessageOutcome,
) -> bool {
    let id = message.field("id"@);
    let method = message.field_str("method"@);
    let p = or_null(message.field("params"@));
    let awaited = id is Some && id->0.u64_value() is Some && old.pending@.contains(
        id->0.u64_value()->0,
    );
    match r {
        MessageOutcome::Reply(n, result) => {
            &&& awaited
            &&& id->0.u64_value() == Some(n)
            &&& !new.pending@.contains(n)
            &&& forall|x: u64|
                x != n ==> (new.pending@.contains(x) <==> old.pending@.contains(x))
            &&& new == (CodexRuntime { pending: new.pending, ..old })
            &&& match result {
                Ok(v) => message.field("error"@) is None && v == or_null(
                    message.field("result"@),
                ),
                Err(e) => message.field("error"@) is Some && e@ == reply_error(message),
            }
        },
        MessageOutcome::ServerRequest(o) => {
            &&& id is Some
            &&& !awaited
            &&& method is Some
            &&& server_request_effect(old, new, id->0, method->0, p, o)
        },
        MessageOutcome::Notification(routed, refresh) => {
            let mid = CodexRuntime {
                status: new.status,
                usage: new.usage,
                ..old
            };
            &&& id is None
            &&& method is Some
            &&& refresh == refreshes_usage(method->0, p)
            &&& account_notification_effect(
                old.status,
                old.usage,
                new.status,
                new.usage,
                method->0,
                p,
                now,
            )
            &&& match routed {
                None => {
                    &&& new == mid
                    &&& !(session_notification(method->0) && thread_id_of(p) is Some
                        && thread_linked(mid, thread_id_of(p)->0))
                },
                Some((session, persist)) => {
                    &&& session_notification(method->0)
                    &&& thread_id_of(p) is Some
                    &&& mid.links.view().contains_key(session@)
                    &&& mid.links.view()[session@].thread_id@ == thread_id_of(p)->0
                    &&& persist == notification_persists(
                        method->0,
                        p,
                        completed_buffer(mid, p),
                    )
                    &&& notification_applied(
                        mid,
                        new,
                        session@,
                        method->0,
                        p,
                        params_len,
                        now,
                    )
                },
            }
        },
        MessageOutcome::Ignored => {
            &&& new == old
            &&& !awaited
            &&& method is None
        },
        MessageOutcome::Unreadable(_) => false,
    }
}

impl CodexRuntime {
    /// Records an `account/updated` notification; whether the usage should
    /// be refreshed (a ChatGPT login became active).
    fn apply_account_updated(&mut self, params: &JsonValue, now: u64) -> (refresh: bool)
        requires
            old(self).wf(),
        ensures
            final(self).wf(),
            refresh == (params.field_str("authMode"@) == Some("chatgpt"@)),
            account_updated_effect(
                old(self).status,
                old(self).usage,
                final(self).status,
                final(self).usage,
                *params,
                now,
            ),
            *final(self) == (CodexRuntime {
                status: final(self).status,
                usage: final(self).usage,
                ..*old(self)
            }),
    {
        let auth = params.get_string("authMode");
        let plan = params.get_string("planType");
        let is_chatgpt = match &auth {
            Some(a) => str_eq(a.as_str(), "chatgpt"),
            None => false,
        };
        let signed_out = auth.is_none();
        self.status.auth_mode = auth;
        self.status.plan_type = crate::session::copy_opt(&plan);
        self.usage.set_plan_type(plan, now);
        if is_chatgpt {
            self.status.phase = "ready".to_string();
            self.status.auth_url = None;
            self.status.error = None;
            self.usage.state = "loading".to_string();
            self.usage.error = None;
        } else {
            self.usage.state = "unauthenticated".to_string();
            if signed_out {
                self.status.phase = "signedOut".to_string();
                self.status.plan_type = None;
                self.status.account_email = None;
                self.status.auth_url = None;
                self.status.error = None;
            }
        }
        is_chatgpt
    }

    /// Records an `account/login/completed` notification: a failed login
    /// puts the backend in the error phase with the login's error.
    fn apply_login_completed(&mut self, params: &JsonValue)
        requires
            old(self).wf(),
        ensures
            final(self).wf(),
            params.field_bool("success"@) == Some(false) ==> {
                &&& final(self).status.phase@ == "error"@
                &&& opt_chars(final(self).status.error) == Some(login_error(*params))
                &&& final(self).status == (CodexStatus {
                    phase: final(self).status.phase,
                    error: final(self).status.error,
                    ..old(self).status
                })
            },
            params.field_bool("success"@) != Some(false) ==> final(self).status == old(self).status,
            *final(self) == (CodexRuntime { status: final(self).status, ..*old(self) }),
    {
        if params.get_bool("success") == Some(false) {
            let error = match params.get_string("error") {
                Some(e) => e,
                None => "ChatGPT login failed".to_string(),
            };
            self.status.phase = "error".to_string();
            self.status.error = Some(error);
        }
    }

    /// Updates the status and the usage for a notification; whether the
    /// usage should be refreshed.
    fn apply_account_notification(&mut self, method: &str, params: &JsonValue, now: u64) -> (refresh: bool)
        requires
            old(self).wf(),
        ensures
            final(self).wf(),
            refresh == refreshes_usage(method@, *params),
            account_notification_effect(
                old(self).status,
                old(self).usage,
                final(self).status,
                final(self).usage,
                method@,
                *params,
                now,
            ),
            *final(self) == (CodexRuntime {
                status: final(self).status,
                usage: final(self).usage,
                ..*old(self)
            }),
    {
        proof {
            lemma_account_methods_distinct();
        }
        if str_eq(method, "account/updated") {
            self.apply_account_updated(params, now)
        } else if str_eq(method, "account/login/completed") {
            self.apply_login_completed(params);
            false
        } else if str_eq(method, "account/rateLimits/updated") {
            self.usage.apply_rate_limit_notification(params, now);
            false
        } else if str_eq(method, "thread/tokenUsage/updated") {
            self.usage.apply_thread_usage(params, now);
            false
        } else {
            str_eq(method, "turn/completed")
        }
    }

    /// Handles a request from the app-server: an approval request about a
    /// linked session's thread is routed to that session (and awaits its
    /// answer); any other request is declined.
    pub fn route_server_request(&mut self, id: &JsonValue, method: &str, params: &JsonValue) -> (r:
        ServerRequestOutcome)
        requires
            old(self).wf(),
        ensures
            final(self).wf(),
            server_request_effect(*old(self), *final(self), *id, method@, *params, r),
    {
        let thread = extract_thread_id(params);
        let session = match &thread {
            Some(t) => self.session_for_thread(t.as_str()),
            None => None,
        };
        let supported = str_eq(method, "item/commandExecution/requestApproval") || str_eq(
            method,
            "item/fileChange/requestApproval",
        );
        match session {
            Some(session_id) => {
                if supported {
                    let payload = sanitize_server_request(method, id, params);
                    let key = match request_id_key(id) {
                        Ok(k) => k,
                        Err(e) => return ServerRequestOutcome::InvalidId(e),
                    };
                    self.server_requests.insert(
                        key,
                        PendingServerRequest { id: id.duplicate(), session_id: session_id.clone() },
                    );
                    push_session_event(
                        &mut self.events,
                        &mut self.event_seq,
                        session_id.as_str(),
                        method,
                        payload,
                    );
                    return ServerRequestOutcome::Routed(session_id);
                }
            },
            None => {},
        }
        let code = JsonValue::Number(
            JsonNumber { signed: Some(-32601i64), unsigned: None, text: "-32601".to_string() },
        );
        let error = object(
            vec![
                member("code", code),
                member(
                    "message",
                    JsonValue::string(
                        "This request is not supported by the DSH Desktop session adapter",
                    ),
                ),
            ],
        );
        proof {
            reveal_strlit("code");
            reveal_strlit("message");
            let ps = error->Object_0.pairs();
            assert("code"@.len() == 4 && "message"@.len() == 7);
            assert(ps[0].0 != "message"@);
            assert(ps.drop_first()[0] == ps[1]);
            assert(pairs_lookup(ps.drop_first(), "message"@) == Some(ps[1].1));
            assert(ps[0].0 == "code"@);
        }
        ServerRequestOutcome::Declined(object(vec![member("id", id.duplicate()), member("error", error)]))
    }
    /// Handles one message from the app-server (`params_len` is the length of
    /// the JSON text of its `params`). A message with an id is the reply to
    /// an awaited request, or else a request from the app-server; a message
    /// without one is a notification.
    pub fn handle_message(&mut self, message: &JsonValue, params_len: usize, now: u64) -> (r:
        MessageOutcome)
        requires
            old(self).wf(),
        ensures
            final(self).wf(),
            message_handled(*old(self), *final(self), *message, params_len, now, r),
    {
        let null = JsonValue::Null;
        let params = match message.get("params") {
            Some(p) => p,
            None => &null,
        };
        let method = message.get_string("method");
        match message.get("id") {
            Some(id_value) => {
                match id_value.as_u64() {
                    Some(n) => {
                        if self.take_pending(n) {
                            let result = match message.get("error") {
                                Some(error) => Err(
                                    match error.get_string("message") {
                                        Some(m) => m,
                                        None => "Codex app-server request failed".to_string(),
                                    },
                                ),
                                None => Ok(
                                    match message.get("result") {
                                        Some(v) => v.duplicate(),
                                        None => JsonValue::Null,
                                    },
                                ),
                            };
                            assert(*self == (CodexRuntime { pending: self.pending, ..*old(self) }));
                            return MessageOutcome::Reply(n, result);
                        }
                    },
                    None => {},
                }
                match method {
                    Some(m) => MessageOutcome::ServerRequest(
                        self.route_server_request(id_value, m.as_str(), params),
                    ),
                    None => MessageOutcome::Ignored,
                }
            },
            None => match method {
                Some(m) => {
                    let refresh = self.apply_account_notification(m.as_str(), params, now);
                    let routed = self.handle_session_notification(m.as_str(), params, params_len, now);
                    MessageOutcome::Notification(routed, refresh)
                },
                None => MessageOutcome::Ignored,
            },
        }
    }

    /// Handles one line of the app-server's output: the JSON message it
    /// holds, handled as `handle_message` does with the length of its
    /// `params` text; a line that holds no JSON changes nothing and yields
    /// the parser's message.
    pub fn handle_line(&mut self, line: &str, now: u64) -> (r: MessageOutcome)
        requires
            old(self).wf(),
        ensures
            final(self).wf(),
            match json_text_value(line@) {
                None => r is Unreadable && *final(self) == *old(self),
                Some(m) => message_handled(
                    *old(self),
                    *final(self),
                    m,
                    json_serialized_len(or_null(m.field("params"@))),
                    now,
                    r,
                ),
            },
    {
        let message = match parse_json(line) {
            Ok(m) => m,
            Err(e) => return MessageOutcome::Unreadable(e),
        };
        let null = JsonValue::Null;
        let params = match message.get("params") {
            Some(p) => p,
            None => &null,
        };
        let len = json_text_len(params);
        self.handle_message(&message, len, now)
    }
}

} // verus!
