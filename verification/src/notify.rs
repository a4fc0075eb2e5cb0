//! What the runtime does with the app-server's notifications about a
//! linked session: streamed text is buffered per item, completed agent
//! messages and plans are recorded, turns and goals are tracked, resolved
//! approvals are forgotten, and every notification is routed to the
//! session's event queue in a display-safe form.
use vstd::prelude::*;

use crate::json::{opt_chars, or_null, JsonValue};
use crate::runtime::CodexRuntime;
use crate::session::{
    goal_fields, goal_matches, messages_after_push, parse_thread_goal, push_message,
    push_session_event, queue_after_push, sanitize_session_params, sanitized_params,
    CodexSessionLink, CodexSessionMessage, CodexThreadGoal,
};
use crate::strmap::StrMap;
use crate::text::{append_str, chars_of, str_eq, take_chars, trim, trimmed, utf8_len};
use crate::validate::{
    extract_thread_id, is_session_notification, request_id_key, request_key_of,
    session_notification, thread_id_of, MAX_PROMPT_LEN,
};

verus! {

broadcast use vstd::string::group_string_axioms;

/// The text buffered for an item, empty when nothing is buffered yet.
pub open spec fn buffered_text(buffers: Map<Seq<char>, String>, item: Seq<char>) -> Seq<char> {
    if buffers.contains_key(item) {
        buffers[item]@
    } else {
        Seq::empty()
    }
}

/// A buffer after a streamed delta: while the buffer holds fewer than
/// 200,000 bytes, as many characters of the delta are appended as there are
/// bytes left.
pub open spec fn buffer_after_delta(buffer: Seq<char>, delta: Seq<char>) -> Seq<char> {
    let used = utf8_len(buffer) as int;
    if used < MAX_PROMPT_LEN {
        let room = MAX_PROMPT_LEN - used;
        buffer + delta.take(if room < delta.len() { room } else { delta.len() as int })
    } else {
        buffer
    }
}

/// The deltas whose text is buffered until the item completes.
pub open spec fn buffered_delta_method(method: Seq<char>) -> bool {
    method == "item/agentMessage/delta"@ || method == "item/plan/delta"@
}

/// The item of an `item/completed` notification (`null` when absent).
pub open spec fn completed_item(params: JsonValue) -> JsonValue {
    or_null(params.field("item"@))
}

/// Whether the completed item is an agent message or a plan.
pub open spec fn completes_message_item(params: JsonValue) -> bool {
    let t = completed_item(params).field_str("type"@);
    t == Some("agentMessage"@) || t == Some("plan"@)
}

/// The id under which a completed item is recorded: its `id`, else `assistant`.
pub open spec fn completed_item_id(params: JsonValue) -> Seq<char> {
    match completed_item(params).field_str("id"@) {
        Some(id) => id,
        None => "assistant"@,
    }
}

/// The text of a completed item: its own `text`, else what was buffered.
pub open spec fn completed_text(params: JsonValue, buffered: Option<Seq<char>>) -> Seq<char> {
    match completed_item(params).field_str("text"@) {
        Some(t) => t,
        None => match buffered {
            Some(b) => b,
            None => Seq::empty(),
        },
    }
}

/// The role a completed item is recorded with.
pub open spec fn completed_role(params: JsonValue) -> Seq<char> {
    if completed_item(params).field_str("type"@) == Some("plan"@) {
        "plan"@
    } else {
        "assistant"@
    }
}

/// Whether a completed item becomes a message: an agent message or plan
/// whose text is not blank.
pub open spec fn records_message(params: JsonValue, buffered: Option<Seq<char>>) -> bool {
    completes_message_item(params) && trimmed(completed_text(params, buffered)).len() > 0
}

/// The goal a notification carries: `None` when it is malformed (nothing
/// changes), `Some(None)` when absent or `null`.
pub open spec fn carried_goal(v: Option<JsonValue>) -> Option<
    Option<(Seq<char>, Seq<char>, Seq<char>, Option<u64>, u64, u64, u64, u64)>,
> {
    match v {
        None => Some(None),
        Some(x) => if x is Null {
            Some(None)
        } else {
            match goal_fields(x) {
                Some(f) => Some(Some(f)),
                None => None,
            }
        },
    }
}

/// `g` is the goal with the fields `f` (or no goal when `f` is none).
pub open spec fn goal_is(
    g: Option<CodexThreadGoal>,
    f: Option<(Seq<char>, Seq<char>, Seq<char>, Option<u64>, u64, u64, u64, u64)>,
) -> bool {
    match (g, f) {
        (None, None) => true,
        (Some(g), Some(f)) => goal_matches(g, f),
        _ => false,
    }
}

/// How a notification changes the link of its session. `buffered` is the
/// text buffered for the completed item, if any.
pub open spec fn link_after_notification(
    old: CodexSessionLink,
    new: CodexSessionLink,
    method: Seq<char>,
    params: JsonValue,
    buffered: Option<Seq<char>>,
    now: u64,
) -> bool {
    if method == "item/completed"@ && records_message(params, buffered) {
        exists|m: CodexSessionMessage|
            {
                &&& m.id@ == completed_item_id(params)
                &&& m.role@ == completed_role(params)
                &&& m.text@ == completed_text(params, buffered)
                &&& m.created_at == now
                &&& new.messages@ == messages_after_push(old.messages@, m)
                &&& new == CodexSessionLink { messages: new.messages, ..old }
            }
    } else if method == "turn/started"@ && params.field2_str("turn"@, "id"@) is Some {
        &&& opt_chars(new.active_turn_id) == params.field2_str("turn"@, "id"@)
        &&& new == CodexSessionLink { active_turn_id: new.active_turn_id, ..old }
    } else if method == "turn/completed"@ {
        new == CodexSessionLink { active_turn_id: None, ..old }
    } else if method == "thread/goal/updated"@ && carried_goal(params.field("goal"@)) is Some {
        &&& goal_is(new.goal, carried_goal(params.field("goal"@))->0)
        &&& new == CodexSessionLink { goal: new.goal, ..old }
    } else if method == "thread/goal/cleared"@ {
        new == CodexSessionLink { goal: None, ..old }
    } else {
        new == old
    }
}

/// Whether a notification changed what is persisted of the links.
pub open spec fn notification_persists(
    method: Seq<char>,
    params: JsonValue,
    buffered: Option<Seq<char>>,
) -> bool {
    ||| method == "item/completed"@ && records_message(params, buffered)
    ||| method == "turn/completed"@
    ||| method == "thread/goal/updated"@ && carried_goal(params.field("goal"@)) is Some
    ||| method == "thread/goal/cleared"@
}

/// How a notification changes the item buffers.
pub open spec fn buffers_after_notification(
    old: Map<Seq<char>, String>,
    new: Map<Seq<char>, String>,
    method: Seq<char>,
    params: JsonValue,
) -> bool {
    if buffered_delta_method(method) && params.field_str("itemId"@) is Some && params.field_str(
        "delta"@,
    ) is Some {
        let item = params.field_str("itemId"@)->0;
        &&& new.dom() == old.dom().insert(item)
        &&& new[item]@ == buffer_after_delta(buffered_text(old, item), params.field_str("delta"@)->0)
        &&& forall|k: Seq<char>| k != item && #[trigger] old.contains_key(k) ==> new[k] == old[k]
    } else if method == "item/completed"@ && completes_message_item(params) {
        new == old.remove(completed_item_id(params))
    } else {
        new == old
    }
}

/// How a notification changes the pending approvals.
pub open spec fn requests_after_notification<V>(
    old: Map<Seq<char>, V>,
    new: Map<Seq<char>, V>,
    method: Seq<char>,
    params: JsonValue,
) -> bool {
    if method == "serverRequest/resolved"@ && params.field("requestId"@) is Some && request_key_of(
        params.field("requestId"@)->0,
    ) is Some {
        new == old.remove(request_key_of(params.field("requestId"@)->0)->0)
    } else {
        new == old
    }
}

/// The text buffered for the item that `params` completes, if any.
pub open spec fn completed_buffer(rt: CodexRuntime, params: JsonValue) -> Option<Seq<char>> {
    let id = completed_item_id(params);
    if rt.buffers.view().contains_key(id) {
        Some(rt.buffers.view()[id]@)
    } else {
        None
    }
}

/// The whole effect of a notification routed to `session`: the link, the
/// buffers and the approvals change as above, and the event is queued with
/// the next number, in its display-safe form.
pub open spec fn notification_applied(
    old: CodexRuntime,
    new: CodexRuntime,
    session: Seq<char>,
    method: Seq<char>,
    params: JsonValue,
    serialized_len: usize,
    now: u64,
) -> bool {
    let q = new.events.view()[session]@;
    let old_q = if old.events.view().contains_key(session) {
        old.events.view()[session]@
    } else {
        Seq::empty()
    };
    &&& new.links.view().dom() == old.links.view().dom()
    &&& forall|k: Seq<char>|
        k != session && #[trigger] old.links.view().contains_key(k) ==> new.links.view()[k]
            == old.links.view()[k]
    &&& link_after_notification(
        old.links.view()[session],
        new.links.view()[session],
        method,
        params,
        completed_buffer(old, params),
        now,
    )
    &&& buffers_after_notification(old.buffers.view(), new.buffers.view(), method, params)
    &&& requests_after_notification(
        old.server_requests.view(),
        new.server_requests.view(),
        method,
        params,
    )
    &&& new.event_seq == (if old.event_seq == u64::MAX {
        u64::MAX
    } else {
        (old.event_seq + 1) as u64
    })
    &&& new.events.view().dom() == old.events.view().dom().insert(session)
    &&& forall|k: Seq<char>|
        k != session && #[trigger] old.events.view().contains_key(k) ==> new.events.view()[k]
            == old.events.view()[k]
    &&& q == queue_after_push(old_q, q.last())
    &&& q.last().seq == new.event_seq
    &&& q.last().method@ == method
    &&& sanitized_params(method, params, serialized_len, q.last().params)
    &&& new.status == old.status
    &&& new.usage == old.usage
    &&& new.pending == old.pending
    &&& new.next_id == old.next_id
    &&& new.busy == old.busy
}


/// The notification methods the runtime tells apart are distinct names.
proof fn lemma_method_names_distinct()
    ensures
        "item/completed"@ != "turn/started"@,
        "item/completed"@ != "turn/completed"@,
        "item/completed"@ != "thread/goal/updated"@,
        "item/completed"@ != "thread/goal/cleared"@,
        "item/completed"@ != "item/agentMessage/delta"@,
        "item/completed"@ != "item/plan/delta"@,
        "item/completed"@ != "serverRequest/resolved"@,
        "item/completed"@ != "item/commandExecution/outputDelta"@,
        "item/completed"@ != "item/reasoning/summaryTextDelta"@,
        "turn/started"@ != "turn/completed"@,
        "turn/started"@ != "thread/goal/updated"@,
        "turn/started"@ != "thread/goal/cleared"@,
        "turn/started"@ != "item/agentMessage/delta"@,
        "turn/started"@ != "item/plan/delta"@,
        "turn/started"@ != "serverRequest/resolved"@,
        "turn/started"@ != "item/commandExecution/outputDelta"@,
        "turn/started"@ != "item/reasoning/summaryTextDelta"@,
        "turn/completed"@ != "thread/goal/updated"@,
        "turn/completed"@ != "thread/goal/cleared"@,
        "turn/completed"@ != "item/agentMessage/delta"@,
        "turn/completed"@ != "item/plan/delta"@,
        "turn/completed"@ != "serverRequest/resolved"@,
        "turn/completed"@ != "item/commandExecution/outputDelta"@,
        "turn/completed"@ != "item/reasoning/summaryTextDelta"@,
        "thread/goal/updated"@ != "thread/goal/cleared"@,
        "thread/goal/updated"@ != "item/agentMessage/delta"@,
        "thread/goal/updated"@ != "item/plan/delta"@,
        "thread/goal/updated"@ != "serverRequest/resolved"@,
        "thread/goal/updated"@ != "item/commandExecution/outputDelta"@,
        "thread/goal/updated"@ != "item/reasoning/summaryTextDelta"@,
        "thread/goal/cleared"@ != "item/agentMessage/delta"@,
        "thread/goal/cleared"@ != "item/plan/delta"@,
        "thread/goal/cleared"@ != "serverRequest/resolved"@,
        "thread/goal/cleared"@ != "item/commandExecution/outputDelta"@,
        "thread/goal/cleared"@ != "item/reasoning/summaryTextDelta"@,
        "item/agentMessage/delta"@ != "item/plan/delta"@,
        "item/agentMessage/delta"@ != "serverRequest/resolved"@,
        "item/agentMessage/delta"@ != "item/commandExecution/outputDelta"@,
        "item/agentMessage/delta"@ != "item/reasoning/summaryTextDelta"@,
        "item/plan/delta"@ != "serverRequest/resolved"@,
        "item/plan/delta"@ != "item/commandExecution/outputDelta"@,
        "item/plan/delta"@ != "item/reasoning/summaryTextDelta"@,
        "serverRequest/resolved"@ != "item/commandExecution/outputDelta"@,
        "serverRequest/resolved"@ != "item/reasoning/summaryTextDelta"@,
        "item/commandExecution/outputDelta"@ != "item/reasoning/summaryTextDelta"@,
{
    reveal_strlit("item/completed");
    reveal_strlit("turn/started");
    reveal_strlit("turn/completed");
    reveal_strlit("thread/goal/updated");
    reveal_strlit("thread/goal/cleared");
    reveal_strlit("item/agentMessage/delta");
    reveal_strlit("item/plan/delta");
    reveal_strlit("serverRequest/resolved");
    reveal_strlit("item/commandExecution/outputDelta");
    reveal_strlit("item/reasoning/summaryTextDelta");
    assert("item/completed"@.len() == 14);
    assert("turn/started"@.len() == 12);
    assert("turn/completed"@.len() == 14);
    assert("thread/goal/updated"@.len() == 19);
    assert("thread/goal/cleared"@.len() == 19);
    assert("item/agentMessage/delta"@.len() == 23);
    assert("item/plan/delta"@.len() == 15);
    assert("serverRequest/resolved"@.len() == 22);
    assert("item/commandExecution/outputDelta"@.len() == 33);
    assert("item/reasoning/summaryTextDelta"@.len() == 31);
    assert("item/completed"@[0] == 'i' && "turn/completed"@[0] == 't');
    assert("thread/goal/updated"@[12] == 'u' && "thread/goal/cleared"@[12] == 'c');
}

impl CodexRuntime {
    /// Appends a streamed delta to the buffer of its item.
    fn buffer_delta(&mut self, item_id: &str, delta: &str)
        requires
            old(self).wf(),
        ensures
            final(self).wf(),
            final(self).buffers.view().dom() == old(self).buffers.view().dom().insert(item_id@),
            final(self).buffers.view()[item_id@]@ == buffer_after_delta(
                buffered_text(old(self).buffers.view(), item_id@),
                delta@,
            ),
            forall|k: Seq<char>|
                k != item_id@ && #[trigger] old(self).buffers.view().contains_key(k)
                    ==> final(self).buffers.view()[k] == old(self).buffers.view()[k],
            *final(self) == (CodexRuntime { buffers: final(self).buffers, ..*old(self) }),
    {
        let mut buffer = match self.buffers.remove(item_id) {
            Some(b) => b,
            None => String::new(),
        };
        let used = buffer.as_str().len();
        if used < MAX_PROMPT_LEN {
            let room = MAX_PROMPT_LEN - used;
            let cs = chars_of(delta);
            let piece = take_chars(&cs, room);
            append_str(&mut buffer, piece.as_str());
        }
        self.buffers.insert(item_id.to_string(), buffer);
    }

    /// Takes the link of `session_id` out of the runtime.
    fn take_link(&mut self, session_id: &str) -> (link: CodexSessionLink)
        requires
            old(self).wf(),
            old(self).links.view().contains_key(session_id@),
        ensures
            final(self).wf(),
            link == old(self).links.view()[session_id@],
            final(self).links.view() == old(self).links.view().remove(session_id@),
            *final(self) == (CodexRuntime { links: final(self).links, ..*old(self) }),
    {
        self.links.remove(session_id).unwrap()
    }

    /// Puts a link for `session_id` into the runtime.
    fn replace_link(&mut self, session_id: &str, link: CodexSessionLink)
        requires
            old(self).wf(),
        ensures
            final(self).wf(),
            final(self).links.view() == old(self).links.view().insert(session_id@, link),
            *final(self) == (CodexRuntime { links: final(self).links, ..*old(self) }),
    {
        self.links.insert(session_id.to_string(), link);
    }

    /// Records a completed agent message or plan in the session's transcript;
    /// whether the links changed.
    fn complete_item(&mut self, session_id: &str, params: &JsonValue, now: u64) -> (persist: bool)
        requires
            old(self).wf(),
            old(self).links.view().contains_key(session_id@),
        ensures
            final(self).wf(),
            persist == records_message(*params, completed_buffer(*old(self), *params)),
            final(self).links.view().dom() == old(self).links.view().dom(),
            forall|k: Seq<char>|
                k != session_id@ && #[trigger] old(self).links.view().contains_key(k)
                    ==> final(self).links.view()[k] == old(self).links.view()[k],
            link_after_notification(
                old(self).links.view()[session_id@],
                final(self).links.view()[session_id@],
                "item/completed"@,
                *params,
                completed_buffer(*old(self), *params),
                now,
            ),
            buffers_after_notification(
                old(self).buffers.view(),
                final(self).buffers.view(),
                "item/completed"@,
                *params,
            ),
            *final(self) == (CodexRuntime {
                links: final(self).links,
                buffers: final(self).buffers,
                ..*old(self)
            }),
    {
        let ghost old_links = self.links.view();
        proof {
            lemma_method_names_distinct();
        }
        let null = JsonValue::Null;
        let item = match params.get("item") {
            Some(i) => i,
            None => &null,
        };
        assert(*item == completed_item(*params));
        let item_type = item.get_string("type");
        let is_plan = match &item_type {
            Some(t) => str_eq(t.as_str(), "plan"),
            None => false,
        };
        let is_message = match &item_type {
            Some(t) => str_eq(t.as_str(), "agentMessage") || is_plan,
            None => false,
        };
        if !is_message {
            assert(self.links.view() =~= old_links);
            return false;
        }
        let item_id = match item.get_string("id") {
            Some(id) => id,
            None => "assistant".to_string(),
        };
        assert(item_id@ == completed_item_id(*params));
        let buffered = self.buffers.remove(item_id.as_str());
        let ghost b = completed_buffer(*old(self), *params);
        assert(opt_chars(buffered) == b);
        let text = match item.get_string("text") {
            Some(t) => t,
            None => match buffered {
                Some(x) => x,
                None => String::new(),
            },
        };
        assert(text@ == completed_text(*params, b));
        let t = trim(text.as_str());
        if t.as_str().is_empty() {
            assert(self.links.view() =~= old_links);
            return false;
        }
        let mut link = self.links.remove(session_id).unwrap();
        let ghost old_link = link;
        let role = if is_plan {
            "plan".to_string()
        } else {
            "assistant".to_string()
        };
        let message = CodexSessionMessage { id: item_id, role, text, created_at: now };
        let ghost m = message;
        push_message(&mut link.messages, message);
        let ghost new_link = link;
        assert(old_links.contains_key(session_id@));
        self.links.insert(session_id.to_string(), link);
        proof {
            assert(self.links.view() =~= old_links.insert(session_id@, new_link));
            assert(new_link == CodexSessionLink { messages: new_link.messages, ..old_link });
            assert(m.id@ == completed_item_id(*params));
        }
        true
    }
    /// Routes an app-server notification to the session linked to its
    /// thread (`params` is `null` when the notification has none, and
    /// `serialized_len` is the length of its JSON text). Returns the session
    /// and whether its link changed in a way worth persisting; `None` when
    /// the notification is not about a linked session, and then nothing
    /// changes.
    pub fn handle_session_notification(
        &mut self,
        method: &str,
        params: &JsonValue,
        serialized_len: usize,
        now: u64,
    ) -> (r: Option<(String, bool)>)
        requires
            old(self).wf(),
        ensures
            final(self).wf(),
            match r {
                None => {
                    &&& *final(self) == *old(self)
                    &&& !(session_notification(method@) && thread_id_of(*params) is Some && exists|
                        k: Seq<char>,
                    |
                        #[trigger] old(self).links.view().contains_key(k) && old(
                            self,
                        ).links.view()[k].thread_id@ == thread_id_of(*params)->0)
                },
                Some((session, persist)) => {
                    &&& session_notification(method@)
                    &&& thread_id_of(*params) is Some
                    &&& old(self).links.view().contains_key(session@)
                    &&& old(self).links.view()[session@].thread_id@ == thread_id_of(*params)->0
                    &&& persist == notification_persists(
                        method@,
                        *params,
                        completed_buffer(*old(self), *params),
                    )
                    &&& notification_applied(
                        *old(self),
                        *final(self),
                        session@,
                        method@,
                        *params,
                        serialized_len,
                        now,
                    )
                },
            },
    {
        if !is_session_notification(method) {
            return None;
        }
        let thread_id = match extract_thread_id(params) {
            Some(t) => t,
            None => return None,
        };
        let session_id = match self.session_for_thread(thread_id.as_str()) {
            Some(s) => s,
            None => return None,
        };
        proof {
            lemma_method_names_distinct();
        }
        let ghost start = *self;
        let ghost sid = session_id@;
        let ghost buffered = completed_buffer(start, *params);
        let mut persist = false;
        if str_eq(method, "item/agentMessage/delta") || str_eq(method, "item/plan/delta") {
            match (params.get_string("itemId"), params.get_string("delta")) {
                (Some(item), Some(delta)) => self.buffer_delta(item.as_str(), delta.as_str()),
                _ => {},
            }
            assert(self.links.view() =~= start.links.view());
        } else if str_eq(method, "item/completed") {
            persist = self.complete_item(session_id.as_str(), params, now);
        } else if str_eq(method, "turn/started") {
            match params.get2_string("turn", "id") {
                Some(turn) => {
                    let mut link = self.take_link(session_id.as_str());
                    link.active_turn_id = Some(turn);
                    self.replace_link(session_id.as_str(), link);
                },
                None => {},
            }
            assert(self.links.view() =~= start.links.view().insert(sid, self.links.view()[sid]));
        } else if str_eq(method, "turn/completed") {
            let mut link = self.take_link(session_id.as_str());
            link.active_turn_id = None;
            self.replace_link(session_id.as_str(), link);
            assert(self.links.view() =~= start.links.view().insert(sid, self.links.view()[sid]));
            persist = true;
        } else if str_eq(method, "thread/goal/updated") {
            match parse_thread_goal(params.get("goal")) {
                Ok(goal) => {
                    let mut link = self.take_link(session_id.as_str());
                    link.goal = goal;
                    self.replace_link(session_id.as_str(), link);
                    persist = true;
                },
                Err(_) => {},
            }
            assert(self.links.view() =~= start.links.view().insert(sid, self.links.view()[sid]));
        } else if str_eq(method, "thread/goal/cleared") {
            let mut link = self.take_link(session_id.as_str());
            link.goal = None;
            self.replace_link(session_id.as_str(), link);
            assert(self.links.view() =~= start.links.view().insert(sid, self.links.view()[sid]));
            persist = true;
        } else if str_eq(method, "serverRequest/resolved") {
            match params.get("requestId") {
                Some(request_id) => match request_id_key(request_id) {
                    Ok(key) => {
                        self.server_requests.remove(key.as_str());
                    },
                    Err(_) => {},
                },
                None => {},
            }
        }
        let ghost mid = *self;
        let safe = sanitize_session_params(method, params, serialized_len);
        push_session_event(&mut self.events, &mut self.event_seq, session_id.as_str(), method, safe);
        Some((session_id, persist))
    }
}

} // verus!
