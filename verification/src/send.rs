//! Sending a prompt from a dsh session to Codex: the checks before anything
//! is sent, which thread the turn goes to, the link of a new thread, and
//! what is recorded once the turn started.
use vstd::prelude::*;

use crate::json::{member, object, opt_chars, opt_str_chars, JsonValue};
use crate::runtime::{CodexRuntime, CodexStatus};
use crate::session::{
    messages_after_push, push_message, push_session_event, queue_after_push, CodexSessionLink,
    CodexSessionMessage,
};
use crate::text::{concat, str_eq, trim, trimmed};
use crate::validate::{
    clean_title, clean_title_of, cwd_problem, text_problem, valid_session_id, validate_cwd,
    validate_session_id, validate_text, MAX_CONTEXT_LEN, MAX_PROMPT_LEN,
};

verus! {

broadcast use vstd::string::group_string_axioms;

/// A file the user attached to a prompt, as the web UI sends it.
#[derive(Debug)]
pub struct CodexSessionAttachment {
    pub name: String,
    pub mime_type: String,
    pub data_base64: String,
}

/// A prompt sent from a dsh session.
#[derive(Debug)]
pub struct CodexSessionSendRequest {
    pub session_id: String,
    pub cwd: String,
    pub prompt: String,
    pub context: Option<String>,
    pub title: Option<String>,
    pub model: Option<String>,
    pub effort: Option<String>,
    pub collaboration_mode: Option<String>,
    pub attachments: Vec<CodexSessionAttachment>,
}

/// The thread and turn a prompt started.
#[derive(Debug)]
pub struct CodexSessionSendResult {
    pub thread_id: String,
    pub turn_id: String,
}

/// Whether the backend takes turns: Codex selected, its app-server running,
/// a ChatGPT login, and the ready phase.
pub open spec fn ready_for_turns(s: CodexStatus) -> bool {
    &&& s.backend@ == "codex"@
    &&& s.app_server_running
    &&& opt_chars(s.auth_mode) == Some("chatgpt"@)
    &&& s.phase@ == "ready"@
}

/// Why a prompt is refused before anything is sent, if it is: the first
/// check that fails, in the order the checks are made.
pub open spec fn send_problem(
    status: CodexStatus,
    request: CodexSessionSendRequest,
    cwd_is_absolute: bool,
    cwd_is_dir: Option<bool>,
) -> Option<Seq<char>> {
    let prompt = text_problem(
        "prompt"@,
        request.prompt@,
        MAX_PROMPT_LEN,
        request.attachments@.len() > 0,
    );
    let context = match request.context {
        Some(c) => text_problem("context"@, c@, MAX_CONTEXT_LEN, true),
        None => None,
    };
    if !valid_session_id(request.session_id@) {
        Some("Invalid dsh session id"@)
    } else if prompt is Some {
        prompt
    } else if context is Some {
        context
    } else if cwd_problem(request.cwd@, cwd_is_absolute, cwd_is_dir) is Some {
        cwd_problem(request.cwd@, cwd_is_absolute, cwd_is_dir)
    } else if !ready_for_turns(status) {
        Some(
            "Codex is not ready. Open dsh Settings → Codex and complete ChatGPT login first."@,
        )
    } else {
        None
    }
}

/// Where a prompt's turn goes.
#[derive(Debug)]
pub enum ThreadPlan {
    /// The linked thread, which the app-server must first resume with these parameters.
    Resume(String, JsonValue),
    /// The linked thread, already loaded.
    Continue(String),
    /// A new thread, started with these parameters.
    Start(JsonValue),
}

/// The error when a linked session is used from another workspace.
pub open spec fn other_workspace_error() -> Seq<char> {
    "This dsh session is already linked to a Codex thread in another workspace. Start a new Codex thread first."@
}

/// The parameters that resume a thread in a workspace.
pub open spec fn resume_params(p: JsonValue, thread: Seq<char>, cwd: Seq<char>) -> bool {
    &&& p is Object
    &&& p->Object_0.pairs().len() == 4
    &&& p->Object_0.pairs()[0].0 == "threadId"@
    &&& p->Object_0.pairs()[0].1.str_value() == Some(thread)
    &&& p->Object_0.pairs()[1].0 == "cwd"@
    &&& p->Object_0.pairs()[1].1.str_value() == Some(cwd)
    &&& p->Object_0.pairs()[2].0 == "approvalPolicy"@
    &&& p->Object_0.pairs()[2].1.str_value() == Some("untrusted"@)
    &&& p->Object_0.pairs()[3].0 == "sandbox"@
    &&& p->Object_0.pairs()[3].1.str_value() == Some("workspace-write"@)
}

/// The parameters that start a thread in a workspace with a model.
pub open spec fn start_params(p: JsonValue, cwd: Seq<char>, model: Seq<char>) -> bool {
    &&& p is Object
    &&& p->Object_0.pairs().len() == 5
    &&& p->Object_0.pairs()[0].0 == "cwd"@
    &&& p->Object_0.pairs()[0].1.str_value() == Some(cwd)
    &&& p->Object_0.pairs()[1].0 == "model"@
    &&& p->Object_0.pairs()[1].1.str_value() == Some(model)
    &&& p->Object_0.pairs()[2].0 == "approvalPolicy"@
    &&& p->Object_0.pairs()[2].1.str_value() == Some("untrusted"@)
    &&& p->Object_0.pairs()[3].0 == "sandbox"@
    &&& p->Object_0.pairs()[3].1.str_value() == Some("workspace-write"@)
    &&& p->Object_0.pairs()[4].0 == "serviceName"@
    &&& p->Object_0.pairs()[4].1.str_value() == Some("dsh_desktop"@)
}

/// Resuming names the thread under `threadId` and the workspace under `cwd`;
/// starting names the workspace under `cwd` and the model under `model`.
/// Both ask for the `untrusted` approval policy and the `workspace-write`
/// sandbox, and a start names this application under `serviceName`.
pub proof fn law_thread_params_name_their_members(
    p: JsonValue,
    q: JsonValue,
    thread: Seq<char>,
    cwd: Seq<char>,
    model: Seq<char>,
)
    requires
        resume_params(p, thread, cwd),
        start_params(q, cwd, model),
    ensures
        p.field_str("threadId"@) == Some(thread),
        p.field_str("cwd"@) == Some(cwd),
        p.field_str("approvalPolicy"@) == Some("untrusted"@),
        p.field_str("sandbox"@) == Some("workspace-write"@),
        q.field_str("cwd"@) == Some(cwd),
        q.field_str("model"@) == Some(model),
        q.field_str("approvalPolicy"@) == Some("untrusted"@),
        q.field_str("sandbox"@) == Some("workspace-write"@),
        q.field_str("serviceName"@) == Some("dsh_desktop"@),
{
    reveal_strlit("threadId");
    reveal_strlit("cwd");
    reveal_strlit("approvalPolicy");
    reveal_strlit("sandbox");
    reveal_strlit("model");
    reveal_strlit("serviceName");
    assert("threadId"@.len() == 8 && "cwd"@.len() == 3 && "approvalPolicy"@.len() == 14);
    assert("sandbox"@.len() == 7 && "model"@.len() == 5 && "serviceName"@.len() == 11);
    crate::json::lemma_field_at(p, 0);
    crate::json::lemma_field_at(p, 1);
    crate::json::lemma_field_at(p, 2);
    crate::json::lemma_field_at(p, 3);
    crate::json::lemma_field_at(q, 0);
    crate::json::lemma_field_at(q, 1);
    crate::json::lemma_field_at(q, 2);
    crate::json::lemma_field_at(q, 3);
    crate::json::lemma_field_at(q, 4);
}

/// An object of string members with the given keys and values, in order.
pub open spec fn string_object(p: JsonValue, keys: Seq<Seq<char>>, values: Seq<Seq<char>>) -> bool {
    &&& p is Object
    &&& p->Object_0.pairs().len() == keys.len()
    &&& keys.len() == values.len()
    &&& forall|i: int|
        0 <= i < keys.len() ==> p->Object_0.pairs()[i].0 == keys[i]
            && (#[trigger] p->Object_0.pairs()[i]).1.str_value() == Some(values[i])
}

/// The link a new thread gets.
pub open spec fn new_link(
    link: CodexSessionLink,
    thread: Seq<char>,
    cwd: Seq<char>,
    title: Option<Seq<char>>,
    mode: Seq<char>,
) -> bool {
    &&& link.thread_id@ == thread
    &&& link.cwd@ == cwd
    &&& opt_chars(link.title) == clean_title_of(title)
    &&& link.messages@.len() == 0
    &&& link.collaboration_mode@ == mode
    &&& link.goal is None
    &&& link.loaded
    &&& link.active_turn_id is None
}

impl CodexRuntime {
    /// The checks made before a prompt is sent, given what the file system
    /// reports of its workspace; the workspace path when they pass.
    pub fn check_send(
        &self,
        request: &CodexSessionSendRequest,
        cwd_is_absolute: bool,
        cwd_is_dir: Option<bool>,
    ) -> (r: Result<String, String>)
        ensures
            match r {
                Ok(cwd) => send_problem(self.status, *request, cwd_is_absolute, cwd_is_dir) is None
                    && cwd@ == request.cwd@,
                Err(e) => send_problem(self.status, *request, cwd_is_absolute, cwd_is_dir) == Some(
                    e@,
                ),
            },
    {
        validate_session_id(request.session_id.as_str())?;
        validate_text(
            "prompt",
            request.prompt.as_str(),
            MAX_PROMPT_LEN,
            request.attachments.len() > 0,
        )?;
        match &request.context {
            Some(c) => {
                validate_text("context", c.as_str(), MAX_CONTEXT_LEN, true)?;
            },
            None => {},
        }
        let cwd = validate_cwd(request.cwd.as_str(), cwd_is_absolute, cwd_is_dir)?;
        let chatgpt = match &self.status.auth_mode {
            Some(a) => str_eq(a.as_str(), "chatgpt"),
            None => false,
        };
        if !str_eq(self.status.backend.as_str(), "codex") || !self.status.app_server_running
            || !chatgpt || !str_eq(self.status.phase.as_str(), "ready") {
            return Err(
                "Codex is not ready. Open dsh Settings → Codex and complete ChatGPT login first.".to_string(),
            );
        }
        Ok(cwd)
    }

    /// Which thread a prompt from `session_id` in workspace `cwd` goes to:
    /// the linked thread (resumed first when the app-server has not loaded
    /// it), or a new thread with `model`. A link to another workspace is
    /// refused.
    pub fn plan_thread(&self, session_id: &str, cwd: &str, model: &str) -> (r: Result<
        ThreadPlan,
        String,
    >)
        requires
            self.links.wf(),
        ensures
            ({
                let linked = self.links.view().contains_key(session_id@);
                let link = self.links.view()[session_id@];
                match r {
                    Ok(ThreadPlan::Resume(thread, params)) => {
                        &&& linked && link.cwd@ == cwd@ && !link.loaded
                        &&& thread == link.thread_id
                        &&& resume_params(params, link.thread_id@, cwd@)
                    },
                    Ok(ThreadPlan::Continue(thread)) => {
                        &&& linked && link.cwd@ == cwd@ && link.loaded
                        &&& thread == link.thread_id
                    },
                    Ok(ThreadPlan::Start(params)) => !linked && start_params(params, cwd@, model@),
                    Err(e) => linked && link.cwd@ != cwd@ && e@ == other_workspace_error(),
                }
            }),
    {
        match self.links.get(session_id) {
            Some(link) => {
                if !str_eq(link.cwd.as_str(), cwd) {
                    return Err(
                        "This dsh session is already linked to a Codex thread in another workspace. Start a new Codex thread first.".to_string(),
                    );
                }
                if link.loaded {
                    Ok(ThreadPlan::Continue(link.thread_id.clone()))
                } else {
                    let params = object(
                        vec![
                            member("threadId", JsonValue::Str(link.thread_id.clone())),
                            member("cwd", JsonValue::string(cwd)),
                            member("approvalPolicy", JsonValue::string("untrusted")),
                            member("sandbox", JsonValue::string("workspace-write")),
                        ],
                    );
                    Ok(ThreadPlan::Resume(link.thread_id.clone(), params))
                }
            },
            None => {
                let params = object(
                    vec![
                        member("cwd", JsonValue::string(cwd)),
                        member("model", JsonValue::string(model)),
                        member("approvalPolicy", JsonValue::string("untrusted")),
                        member("sandbox", JsonValue::string("workspace-write")),
                        member("serviceName", JsonValue::string("dsh_desktop")),
                    ],
                );
                Ok(ThreadPlan::Start(params))
            },
        }
    }

    /// The app-server resumed the session's thread: its link is loaded.
    pub fn mark_loaded(&mut self, session_id: &str)
        requires
            old(self).wf(),
        ensures
            final(self).wf(),
            old(self).links.view().contains_key(session_id@) ==> final(self).links.view()
                == old(self).links.view().insert(
                session_id@,
                CodexSessionLink { loaded: true, ..old(self).links.view()[session_id@] },
            ),
            !old(self).links.view().contains_key(session_id@) ==> final(self).links.view()
                == old(self).links.view(),
            *final(self) == (CodexRuntime { links: final(self).links, ..*old(self) }),
    {
        match self.links.remove(session_id) {
            Some(link) => {
                let updated = CodexSessionLink { loaded: true, ..link };
                self.links.insert(session_id.to_string(), updated);
            },
            None => {},
        }
    }

    /// Links a session to the thread that `thread/start` returned, routes a
    /// `desktop/session-linked` event, and returns the thread id with the
    /// parameters that name the thread after the session's title, if it has
    /// one. Fails when the reply carries no thread id.
    pub fn link_new_thread(
        &mut self,
        session_id: &str,
        result: &JsonValue,
        cwd: &str,
        title: Option<&str>,
        mode: &str,
    ) -> (r: Result<(String, Option<JsonValue>), String>)
        requires
            old(self).wf(),
        ensures
            final(self).wf(),
            match r {
                Ok((thread, name_params)) => {
                    let q = final(self).events.view()[session_id@]@;
                    let old_q = if old(self).events.view().contains_key(session_id@) {
                        old(self).events.view()[session_id@]@
                    } else {
                        Seq::empty()
                    };
                    &&& result.field2_str("thread"@, "id"@) == Some(thread@)
                    &&& final(self).links.view().dom() == old(self).links.view().dom().insert(
                        session_id@,
                    )
                    &&& forall|k: Seq<char>|
                        k != session_id@ && #[trigger] old(self).links.view().contains_key(k)
                            ==> final(self).links.view()[k] == old(self).links.view()[k]
                    &&& new_link(
                        final(self).links.view()[session_id@],
                        thread@,
                        cwd@,
                        opt_str_chars(title),
                        mode@,
                    )
                    &&& final(self).event_seq == (if old(self).event_seq == u64::MAX {
                        u64::MAX
                    } else {
                        (old(self).event_seq + 1) as u64
                    })
                    &&& q == queue_after_push(old_q, q.last())
                    &&& q.last().method@ == "desktop/session-linked"@
                    &&& string_object(
                        q.last().params,
                        seq!["threadId"@, "cwd"@],
                        seq![thread@, cwd@],
                    )
                    &&& final(self).events.view().dom() == old(self).events.view().dom().insert(
                        session_id@,
                    )
                    &&& forall|k: Seq<char>|
                        k != session_id@ && #[trigger] old(self).events.view().contains_key(k)
                            ==> final(self).events.view()[k] == old(self).events.view()[k]
                    &&& match name_params {
                        Some(p) => clean_title_of(opt_str_chars(title)) is Some && string_object(
                            p,
                            seq!["threadId"@, "name"@],
                            seq![thread@, clean_title_of(opt_str_chars(title))->0],
                        ),
                        None => clean_title_of(opt_str_chars(title)) is None,
                    }
                    &&& *final(self) == (CodexRuntime {
                        links: final(self).links,
                        events: final(self).events,
                        event_seq: final(self).event_seq,
                        ..*old(self)
                    })
                },
                Err(e) => {
                    &&& result.field2_str("thread"@, "id"@) is None
                    &&& e@ == "Codex app-server did not return a thread id"@
                    &&& *final(self) == *old(self)
                },
            },
    {
        let thread = match result.get2_string("thread", "id") {
            Some(t) => t,
            None => return Err("Codex app-server did not return a thread id".to_string()),
        };
        let ghost old_links = self.links.view();
        let link = CodexSessionLink {
            thread_id: thread.clone(),
            cwd: cwd.to_string(),
            title: clean_title(title),
            messages: Vec::new(),
            collaboration_mode: mode.to_string(),
            goal: None,
            loaded: true,
            active_turn_id: None,
        };
        self.links.insert(session_id.to_string(), link);
        let payload = object(
            vec![member("threadId", JsonValue::Str(thread.clone())), member("cwd", JsonValue::string(cwd))],
        );
        push_session_event(
            &mut self.events,
            &mut self.event_seq,
            session_id,
            "desktop/session-linked",
            payload,
        );
        let name_params = match clean_title(title) {
            Some(t) => Some(
                object(vec![member("threadId", JsonValue::Str(thread.clone())), member("name", JsonValue::Str(t))]),
            ),
            None => None,
        };
        Ok((thread, name_params))
    }

    /// Records the turn that `turn/start` returned for a session's prompt:
    /// the link's active turn and mode, the user's message (trimmed), and a
    /// `desktop/user-message` event. Fails when the reply has no turn id.
    pub fn record_turn(
        &mut self,
        session_id: &str,
        thread_id: &str,
        result: &JsonValue,
        mode: &str,
        prompt: &str,
        now: u64,
    ) -> (r: Result<CodexSessionSendResult, String>)
        requires
            old(self).wf(),
        ensures
            final(self).wf(),
            match r {
                Ok(sent) => {
                    let q = final(self).events.view()[session_id@]@;
                    let old_q = if old(self).events.view().contains_key(session_id@) {
                        old(self).events.view()[session_id@]@
                    } else {
                        Seq::empty()
                    };
                    let old_link = old(self).links.view()[session_id@];
                    let link = final(self).links.view()[session_id@];
                    &&& result.field2_str("turn"@, "id"@) == Some(sent.turn_id@)
                    &&& sent.thread_id@ == thread_id@
                    &&& final(self).links.view().dom() == old(self).links.view().dom()
                    &&& forall|k: Seq<char>|
                        k != session_id@ && #[trigger] old(self).links.view().contains_key(k)
                            ==> final(self).links.view()[k] == old(self).links.view()[k]
                    &&& old(self).links.view().contains_key(session_id@) ==> {
                        &&& opt_chars(link.active_turn_id) == Some(sent.turn_id@)
                        &&& link.collaboration_mode@ == mode@
                        &&& exists|m: CodexSessionMessage|
                            {
                                &&& m.id@ == "user-"@ + sent.turn_id@
                                &&& m.role@ == "user"@
                                &&& m.text@ == trimmed(prompt@)
                                &&& m.created_at == now
                                &&& link.messages@ == messages_after_push(old_link.messages@, m)
                            }
                        &&& link == (CodexSessionLink {
                            active_turn_id: link.active_turn_id,
                            collaboration_mode: link.collaboration_mode,
                            messages: link.messages,
                            ..old_link
                        })
                    }
                    &&& final(self).event_seq == (if old(self).event_seq == u64::MAX {
                        u64::MAX
                    } else {
                        (old(self).event_seq + 1) as u64
                    })
                    &&& q == queue_after_push(old_q, q.last())
                    &&& q.last().method@ == "desktop/user-message"@
                    &&& string_object(
                        q.last().params,
                        seq!["threadId"@, "turnId"@],
                        seq![thread_id@, sent.turn_id@],
                    )
                    &&& final(self).events.view().dom() == old(self).events.view().dom().insert(
                        session_id@,
                    )
                    &&& forall|k: Seq<char>|
                        k != session_id@ && #[trigger] old(self).events.view().contains_key(k)
                            ==> final(self).events.view()[k] == old(self).events.view()[k]
                    &&& *final(self) == (CodexRuntime {
                        links: final(self).links,
                        events: final(self).events,
                        event_seq: final(self).event_seq,
                        ..*old(self)
                    })
                },
                Err(e) => {
                    &&& result.field2_str("turn"@, "id"@) is None
                    &&& e@ == "Codex app-server did not return a turn id"@
                    &&& *final(self) == *old(self)
                },
            },
    {
        let turn = match result.get2_string("turn", "id") {
            Some(t) => t,
            None => return Err("Codex app-server did not return a turn id".to_string()),
        };
        let ghost old_links = self.links.view();
        match self.links.remove(session_id) {
            Some(link) => {
                let mut link = link;
                let ghost old_link = link;
                link.active_turn_id = Some(turn.clone());
                link.collaboration_mode = mode.to_string();
                let message = CodexSessionMessage {
                    id: concat("user-", turn.as_str()),
                    role: "user".to_string(),
                    text: trim(prompt),
                    created_at: now,
                };
                push_message(&mut link.messages, message);
                let ghost new_link = link;
                self.links.insert(session_id.to_string(), link);
                assert(self.links.view() =~= old_links.insert(session_id@, new_link));
            },
            None => {
                assert(self.links.view() =~= old_links);
            },
        }
        let payload = object(
            vec![member("threadId", JsonValue::string(thread_id)), member("turnId", JsonValue::Str(turn.clone()))],
        );
        push_session_event(
            &mut self.events,
            &mut self.event_seq,
            session_id,
            "desktop/user-message",
            payload,
        );
        Ok(CodexSessionSendResult { thread_id: thread_id.to_string(), turn_id: turn })
    }
}

} // verus!
