//! The session adapter's commands over the runtime state: polling a
//! session, the session index, resetting a link, approvals, interrupts and
//! thread goals.
use vstd::prelude::*;

use crate::json::{member, object, opt_chars, JsonValue};
use crate::runtime::CodexRuntime;
use crate::session::{
    copy_goal, copy_messages, copy_opt, copy_opt_goal, events_after, goal_json,
    push_session_event, queues_wf, CodexSessionEvent, CodexSessionIndexEntry, CodexSessionLink,
    CodexSessionSnapshot, CodexThreadGoal, PendingServerRequest,
};
use crate::strmap::StrMap;
use crate::text::{str_eq, trimmed};
use crate::validate::{
    request_key_of, request_id_key, valid_session_id, validate_goal_objective,
    validate_session_id,
};

verus! {

broadcast use vstd::string::group_string_axioms;

/// A request to change the goal of a session's thread.
#[derive(Debug)]
pub struct CodexSessionGoalUpdateRequest {
    pub session_id: String,
    pub objective: Option<String>,
    pub status: Option<String>,
    pub token_budget: Option<u64>,
}

/// The approval decisions the app-server accepts.
pub open spec fn approval_decision(d: Seq<char>) -> bool {
    d == "accept"@ || d == "acceptForSession"@ || d == "decline"@ || d == "cancel"@
}

/// Copies the events of a queue numbered above `after`.
fn copy_events_after(queue: &Vec<CodexSessionEvent>, after: u64) -> (r: Vec<CodexSessionEvent>)
    ensures
        r@ == events_after(queue@, after),
{
    let mut out: Vec<CodexSessionEvent> = Vec::new();
    let mut i: usize = 0;
    while i < queue.len()
        invariant
            i <= queue@.len(),
            out@ == events_after(queue@.take(i as int), after),
        decreases queue.len() - i,
    {
        let e = &queue[i];
        assert(queue@.take((i + 1) as int).drop_last() =~= queue@.take(i as int));
        assert(queue@.take((i + 1) as int).last() == queue@[i as int]);
        if e.seq > after {
            out.push(CodexSessionEvent { seq: e.seq, method: e.method.clone(), params: e.params.duplicate() });
        }
        i = i + 1;
    }
    assert(queue@.take(queue@.len() as int) =~= queue@);
    out
}

impl CodexRuntime {
    /// The session linked to the Codex thread `thread_id`, the first in
    /// session-id order.
    pub fn session_for_thread(&self, thread_id: &str) -> (r: Option<String>)
        requires
            self.links.wf(),
        ensures
            match r {
                Some(k) => self.links.view().contains_key(k@) && self.links.view()[k@].thread_id@
                    == thread_id@,
                None => forall|k: Seq<char>|
                    #[trigger] self.links.view().contains_key(k) ==> self.links.view()[k].thread_id@
                        != thread_id@,
            },
    {
        let keys = self.links.keys();
        proof {
            self.links.lemma_keys();
        }
        let mut i: usize = 0;
        while i < keys.len()
            invariant
                self.links.wf(),
                i <= keys@.len(),
                keys@.map_values(|k: String| k@) == self.links.key_seq(),
                forall|k: Seq<char>|
                    self.links.view().contains_key(k) <==> self.links.key_seq().contains(k),
                forall|j: int|
                    0 <= j < i ==> self.links.view()[#[trigger] self.links.key_seq()[j]].thread_id@
                        != thread_id@,
            decreases keys.len() - i,
        {
            assert(keys@.map_values(|k: String| k@)[i as int] == keys@[i as int]@);
            assert(self.links.key_seq().contains(keys@[i as int]@));
            match self.links.get(keys[i].as_str()) {
                Some(link) => {
                    if str_eq(link.thread_id.as_str(), thread_id) {
                        return Some(keys[i].clone());
                    }
                },
                None => {},
            }
            i = i + 1;
        }
        proof {
            assert forall|k: Seq<char>| #[trigger]
                self.links.view().contains_key(k) implies self.links.view()[k].thread_id@
                != thread_id@ by {
                assert(self.links.key_seq().contains(k));
                let j = choose|j: int|
                    0 <= j < self.links.key_seq().len() && self.links.key_seq()[j] == k;
                assert(self.links.key_seq()[j] == k);
            }
        }
        None
    }

    /// What the dsh web UI polls for a session: its link, if any, and its
    /// events numbered above `after_seq`.
    pub fn session_snapshot(&self, session_id: &str, after_seq: u64) -> (r: Result<
        CodexSessionSnapshot,
        String,
    >)
        requires
            self.wf(),
        ensures
            r is Err <==> !valid_session_id(session_id@),
            match r {
                Ok(s) => {
                    let linked = self.links.view().contains_key(session_id@);
                    let link = self.links.view()[session_id@];
                    &&& s.linked == linked
                    &&& s.thread_id == (if linked {
                        Some(link.thread_id)
                    } else {
                        None
                    })
                    &&& s.cwd == (if linked {
                        Some(link.cwd)
                    } else {
                        None
                    })
                    &&& s.title == (if linked {
                        link.title
                    } else {
                        None
                    })
                    &&& s.active_turn_id == (if linked {
                        link.active_turn_id
                    } else {
                        None
                    })
                    &&& s.messages@ == (if linked {
                        link.messages@
                    } else {
                        Seq::empty()
                    })
                    &&& s.collaboration_mode@ == (if linked {
                        link.collaboration_mode@
                    } else {
                        "default"@
                    })
                    &&& s.goal == (if linked {
                        link.goal
                    } else {
                        None
                    })
                    &&& s.latest_seq == self.event_seq
                    &&& s.events@ == (if self.events.view().contains_key(session_id@) {
                        events_after(self.events.view()[session_id@]@, after_seq)
                    } else {
                        Seq::empty()
                    })
                },
                Err(e) => e@ == "Invalid dsh session id"@,
            },
    {
        validate_session_id(session_id)?;
        let events = match self.events.get(session_id) {
            Some(queue) => copy_events_after(queue, after_seq),
            None => Vec::new(),
        };
        match self.links.get(session_id) {
            Some(link) => Ok(
                CodexSessionSnapshot {
                    linked: true,
                    thread_id: Some(link.thread_id.clone()),
                    cwd: Some(link.cwd.clone()),
                    title: copy_opt(&link.title),
                    active_turn_id: copy_opt(&link.active_turn_id),
                    messages: copy_messages(&link.messages),
                    collaboration_mode: link.collaboration_mode.clone(),
                    goal: copy_opt_goal(&link.goal),
                    latest_seq: self.event_seq,
                    events,
                },
            ),
            None => Ok(
                CodexSessionSnapshot {
                    linked: false,
                    thread_id: None,
                    cwd: None,
                    title: None,
                    active_turn_id: None,
                    messages: Vec::new(),
                    collaboration_mode: crate::validate::default_collaboration_mode(),
                    goal: None,
                    latest_seq: self.event_seq,
                    events,
                },
            ),
        }
    }

    /// Every linked session, ordered by session id.
    pub fn session_index(&self) -> (r: Vec<CodexSessionIndexEntry>)
        requires
            self.links.wf(),
        ensures
            r@.len() == self.links.view().dom().len(),
            forall|i: int|
                0 <= i < r@.len() ==> {
                    let k = (#[trigger] r@[i]).session_id@;
                    let link = self.links.view()[k];
                    &&& self.links.view().contains_key(k)
                    &&& r@[i].thread_id == link.thread_id
                    &&& r@[i].cwd == link.cwd
                    &&& r@[i].title == link.title
                    &&& r@[i].collaboration_mode == link.collaboration_mode
                },
            forall|i: int, j: int|
                0 <= i < j < r@.len() ==> crate::order::lex_lt(r@[i].session_id@, r@[j].session_id@),
    {
        let keys = self.links.keys();
        proof {
            self.links.lemma_keys();
        }
        let mut out: Vec<CodexSessionIndexEntry> = Vec::new();
        let mut i: usize = 0;
        while i < keys.len()
            invariant
                self.links.wf(),
                i <= keys@.len(),
                keys@.map_values(|k: String| k@) == self.links.key_seq(),
                self.links.key_seq().len() == self.links.view().dom().len(),
                forall|k: Seq<char>|
                    self.links.view().contains_key(k) <==> self.links.key_seq().contains(k),
                out@.len() == i,
                forall|j: int|
                    0 <= j < i ==> (#[trigger] out@[j]).session_id@ == self.links.key_seq()[j],
                forall|j: int|
                    0 <= j < i ==> {
                        let k = (#[trigger] out@[j]).session_id@;
                        let link = self.links.view()[k];
                        &&& self.links.view().contains_key(k)
                        &&& out@[j].thread_id == link.thread_id
                        &&& out@[j].cwd == link.cwd
                        &&& out@[j].title == link.title
                        &&& out@[j].collaboration_mode == link.collaboration_mode
                    },
            decreases keys.len() - i,
        {
            assert(keys@.map_values(|k: String| k@)[i as int] == keys@[i as int]@);
            assert(self.links.key_seq().contains(keys@[i as int]@));
            let link = self.links.get(keys[i].as_str()).unwrap();
            out.push(
                CodexSessionIndexEntry {
                    session_id: keys[i].clone(),
                    thread_id: link.thread_id.clone(),
                    cwd: link.cwd.clone(),
                    title: copy_opt(&link.title),
                    collaboration_mode: link.collaboration_mode.clone(),
                },
            );
            i = i + 1;
        }
        out
    }

    /// Unlinks a session (the next send starts a new thread): drops its link,
    /// its events and its pending approvals. Refused while a turn is active.
    pub fn session_reset(&mut self, session_id: &str) -> (r: Result<(), String>)
        requires
            old(self).wf(),
        ensures
            final(self).wf(),
            match r {
                Ok(_) => {
                    &&& valid_session_id(session_id@)
                    &&& !(old(self).links.view().contains_key(session_id@) && old(self).links.view()[session_id@].active_turn_id is Some)
                    &&& final(self).links.view() == old(self).links.view().remove(session_id@)
                    &&& final(self).events.view() == old(self).events.view().remove(session_id@)
                    &&& forall|k: Seq<char>|
                        #[trigger] final(self).server_requests.view().contains_key(k) <==> (old(
                            self,
                        ).server_requests.view().contains_key(k) && old(self).server_requests.view()[k].session_id@ != session_id@)
                    &&& forall|k: Seq<char>|
                        #[trigger] final(self).server_requests.view().contains_key(k) ==> final(self).server_requests.view()[k] == old(self).server_requests.view()[k]
                    &&& final(self).status == old(self).status
                    &&& final(self).event_seq == old(self).event_seq
                },
                Err(e) => {
                    &&& *final(self) == *old(self)
                    &&& if !valid_session_id(session_id@) {
                        e@ == "Invalid dsh session id"@
                    } else {
                        &&& old(self).links.view().contains_key(session_id@)
                        &&& old(self).links.view()[session_id@].active_turn_id is Some
                        &&& e@ == "Stop the active Codex turn before starting a new thread"@
                    }
                },
            },
    {
        validate_session_id(session_id)?;
        let busy = match self.links.get(session_id) {
            Some(link) => link.active_turn_id.is_some(),
            None => false,
        };
        if busy {
            return Err("Stop the active Codex turn before starting a new thread".to_string());
        }
        let ghost old_events = self.events;
        let ghost old_seq = self.event_seq;
        self.links.remove(session_id);
        self.events.remove(session_id);
        proof {
            assert forall|k: Seq<char>| #[trigger] self.events.view().contains_key(k) implies {
                let q = self.events.view()[k]@;
                &&& q.len() <= crate::validate::MAX_SESSION_EVENTS
                &&& forall|i: int, j: int| 0 <= i < j < q.len() ==> q[i].seq <= q[j].seq
                &&& forall|i: int| 0 <= i < q.len() ==> q[i].seq <= self.event_seq
            } by {
                assert(old_events.view().contains_key(k));
            }
        }
        let keys = self.server_requests.keys();
        proof {
            self.server_requests.lemma_keys();
        }
        let ghost before = self.server_requests.view();
        let ghost ks = self.server_requests.key_seq();
        let ghost mid = *self;
        let mut i: usize = 0;
        while i < keys.len()
            invariant
                *self == (CodexRuntime { server_requests: self.server_requests, ..mid }),
                self.server_requests.wf(),
                i <= keys@.len(),
                keys@.map_values(|k: String| k@) == ks,
                forall|k: Seq<char>| before.contains_key(k) <==> ks.contains(k),
                forall|a: int, b: int| 0 <= a < b < ks.len() ==> crate::order::lex_lt(ks[a], ks[b]),
                forall|k: Seq<char>|
                    #[trigger] self.server_requests.view().contains_key(k) <==> (before.contains_key(
                        k,
                    ) && !(ks.take(i as int).contains(k) && before[k].session_id@ == session_id@)),
                forall|k: Seq<char>|
                    #[trigger] self.server_requests.view().contains_key(k)
                        ==> self.server_requests.view()[k] == before[k],
            decreases keys.len() - i,
        {
            let ghost k = keys@[i as int]@;
            let ghost v0 = self.server_requests.view();
            assert(keys@.map_values(|k: String| k@)[i as int] == k);
            assert(ks[i as int] == k);
            assert(ks.contains(k));
            assert(before.contains_key(k));
            assert(ks.take((i + 1) as int) =~= ks.take(i as int).push(k));
            proof {
                if ks.take(i as int).contains(k) {
                    let j = choose|j: int| 0 <= j < i && #[trigger] ks.take(i as int)[j] == k;
                    assert(ks[j] == k);
                    crate::order::lemma_lex_irreflexive(k);
                }
            }
            assert(v0.contains_key(k));
            let matches = match self.server_requests.get(keys[i].as_str()) {
                Some(p) => str_eq(p.session_id.as_str(), session_id),
                None => false,
            };
            if matches {
                self.server_requests.remove(keys[i].as_str());
            }
            proof {
                assert forall|x: Seq<char>|
                    #[trigger] self.server_requests.view().contains_key(x) <==> (before.contains_key(
                        x,
                    ) && !(ks.take(i + 1).contains(x) && before[x].session_id@ == session_id@)) by {
                    if x == k {
                        assert(ks.take(i + 1)[i as int] == k);
                    } else {
                        assert(v0.contains_key(x) == self.server_requests.view().contains_key(x));
                        if ks.take(i + 1).contains(x) {
                            let j = choose|j: int| 0 <= j < i + 1 && #[trigger] ks.take(i + 1)[j] == x;
                            assert(j < i);
                            assert(ks.take(i as int)[j] == x);
                        }
                        if ks.take(i as int).contains(x) {
                            let j = choose|j: int| 0 <= j < i && #[trigger] ks.take(i as int)[j] == x;
                            assert(ks.take(i + 1)[j] == x);
                        }
                    }
                }
                assert forall|x: Seq<char>| #[trigger] self.server_requests.view().contains_key(x)
                    implies self.server_requests.view()[x] == before[x] by {
                    assert(v0.contains_key(x));
                }
            }
            i = i + 1;
        }
        proof {
            assert(ks.take(keys@.len() as int) =~= ks);
        }
        Ok(())
    }

    /// Checks an approval of a pending server request and builds the
    /// response to write; the request stays pending until `approval_sent`.
    pub fn approval_response(&self, session_id: &str, request_id: &JsonValue, decision: &str) -> (r:
        Result<(String, JsonValue), String>)
        requires
            self.wf(),
        ensures
            match r {
                Ok((key, response)) => {
                    &&& valid_session_id(session_id@)
                    &&& approval_decision(decision@)
                    &&& request_key_of(*request_id) == Some(key@)
                    &&& self.server_requests.view().contains_key(key@)
                    &&& self.server_requests.view()[key@].session_id@ == session_id@
                    &&& self.status.app_server_running
                    &&& response is Object
                    &&& response->Object_0.pairs().len() == 2
                    &&& response->Object_0.pairs()[0] == ("id"@, self.server_requests.view()[key@].id)
                    &&& response->Object_0.pairs()[1].0 == "result"@
                    &&& response->Object_0.pairs()[1].1 is Object
                    &&& response->Object_0.pairs()[1].1->Object_0.pairs().len() == 1
                    &&& response->Object_0.pairs()[1].1.field_str("decision"@) == Some(decision@)
                },
                Err(e) => if !valid_session_id(session_id@) {
                    e@ == "Invalid dsh session id"@
                } else if !approval_decision(decision@) {
                    e@ == "Unsupported Codex approval decision"@
                } else {
                    match request_key_of(*request_id) {
                        None => e@ == "Invalid Codex server request id"@,
                        Some(key) => if !self.server_requests.view().contains_key(key) {
                            e@ == "Codex approval request is no longer pending"@
                        } else if self.server_requests.view()[key].session_id@ != session_id@ {
                            e@ == "Codex approval request belongs to another session"@
                        } else {
                            !self.status.app_server_running && e@ == "Codex app-server is not running"@
                        },
                    }
                },
            },
    {
        validate_session_id(session_id)?;
        if !(str_eq(decision, "accept") || str_eq(decision, "acceptForSession") || str_eq(
            decision,
            "decline",
        ) || str_eq(decision, "cancel")) {
            return Err("Unsupported Codex approval decision".to_string());
        }
        let key = request_id_key(request_id)?;
        let pending = match self.server_requests.get(key.as_str()) {
            Some(p) => p,
            None => return Err("Codex approval request is no longer pending".to_string()),
        };
        if !str_eq(pending.session_id.as_str(), session_id) {
            return Err("Codex approval request belongs to another session".to_string());
        }
        if !self.status.app_server_running {
            return Err("Codex app-server is not running".to_string());
        }
        let result = object(vec![member("decision", JsonValue::string(decision))]);
        proof {
            reveal_strlit("decision");
        }
        let response = object(vec![member("id", pending.id.duplicate()), member("result", result)]);
        Ok((key, response))
    }

    /// The approval with `key` was answered.
    pub fn approval_sent(&mut self, key: &str)
        requires
            old(self).wf(),
        ensures
            final(self).wf(),
            final(self).server_requests.view() == old(self).server_requests.view().remove(key@),
            final(self).links == old(self).links,
            final(self).status == old(self).status,
    {
        self.server_requests.remove(key);
    }

    /// The thread linked to a session.
    pub fn session_thread_id(&self, session_id: &str) -> (r: Result<String, String>)
        requires
            self.links.wf(),
        ensures
            match r {
                Ok(t) => valid_session_id(session_id@) && self.links.view().contains_key(session_id@)
                    && t == self.links.view()[session_id@].thread_id,
                Err(e) => if !valid_session_id(session_id@) {
                    e@ == "Invalid dsh session id"@
                } else {
                    !self.links.view().contains_key(session_id@) && e@
                        == "This dsh session is not linked to Codex"@
                },
            },
    {
        validate_session_id(session_id)?;
        match self.links.get(session_id) {
            Some(link) => Ok(link.thread_id.clone()),
            None => Err("This dsh session is not linked to Codex".to_string()),
        }
    }

    /// The parameters of `turn/interrupt` for the session's active turn.
    pub fn interrupt_params(&self, session_id: &str) -> (r: Result<JsonValue, String>)
        requires
            self.links.wf(),
        ensures
            match r {
                Ok(p) => {
                    let link = self.links.view()[session_id@];
                    &&& valid_session_id(session_id@)
                    &&& self.links.view().contains_key(session_id@)
                    &&& link.active_turn_id is Some
                    &&& p is Object
                    &&& p->Object_0.pairs() == seq![
                        ("threadId"@, JsonValue::Str(link.thread_id)),
                        ("turnId"@, JsonValue::Str(link.active_turn_id->0)),
                    ]
                },
                Err(e) => if !valid_session_id(session_id@) {
                    e@ == "Invalid dsh session id"@
                } else if !self.links.view().contains_key(session_id@) {
                    e@ == "This dsh session is not linked to Codex"@
                } else {
                    self.links.view()[session_id@].active_turn_id is None && e@
                        == "There is no active Codex turn"@
                },
            },
    {
        validate_session_id(session_id)?;
        let link = match self.links.get(session_id) {
            Some(l) => l,
            None => return Err("This dsh session is not linked to Codex".to_string()),
        };
        let turn = match &link.active_turn_id {
            Some(t) => t.clone(),
            None => return Err("There is no active Codex turn".to_string()),
        };
        let p = object(
            vec![
                member("threadId", JsonValue::Str(link.thread_id.clone())),
                member("turnId", JsonValue::Str(turn)),
            ],
        );
        assert(p->Object_0.pairs() =~= seq![
            ("threadId"@, JsonValue::Str(link.thread_id)),
            ("turnId"@, JsonValue::Str(link.active_turn_id->0)),
        ]);
        Ok(p)
    }

    /// Replaces the goal of a linked session (nothing happens for an unlinked one).
    pub fn set_link_goal(&mut self, session_id: &str, goal: Option<CodexThreadGoal>)
        requires
            old(self).wf(),
        ensures
            final(self).wf(),
            old(self).links.view().contains_key(session_id@) ==> final(self).links.view()
                == old(self).links.view().insert(
                session_id@,
                CodexSessionLink { goal: goal, ..old(self).links.view()[session_id@] },
            ),
            !old(self).links.view().contains_key(session_id@) ==> final(self).links.view()
                == old(self).links.view(),
            *final(self) == (CodexRuntime { links: final(self).links, ..*old(self) }),
    {
        match self.links.remove(session_id) {
            Some(link) => {
                let ghost old_links = old(self).links.view();
                let updated = CodexSessionLink { goal, ..link };
                self.links.insert(session_id.to_string(), updated);
                proof {
                    assert(self.links.view() =~= old_links.insert(session_id@, updated));
                }
            },
            None => {},
        }
    }

    /// Records a goal the app-server confirmed for a session, and routes a
    /// `desktop/goal-updated` event with it.
    pub fn record_goal_update(&mut self, session_id: &str, goal: CodexThreadGoal)
        requires
            old(self).wf(),
        ensures
            final(self).wf(),
            old(self).links.view().contains_key(session_id@) ==> final(self).links.view()
                == old(self).links.view().insert(
                session_id@,
                CodexSessionLink { goal: Some(goal), ..old(self).links.view()[session_id@] },
            ),
            !old(self).links.view().contains_key(session_id@) ==> final(self).links.view()
                == old(self).links.view(),
            final(self).event_seq == (if old(self).event_seq == u64::MAX { u64::MAX } else { (old(self).event_seq + 1) as u64 }),
            final(self).events.view()[session_id@]@.last().method@ == "desktop/goal-updated"@,
            final(self).events.view()[session_id@]@.last().seq == final(self).event_seq,
    {
        let payload = object(vec![member("goal", goal_json(&goal))]);
        self.set_link_goal(session_id, Some(goal));
        push_session_event(&mut self.events, &mut self.event_seq, session_id, "desktop/goal-updated", payload);
    }

    /// Records that a session's goal was cleared, and routes a
    /// `desktop/goal-cleared` event with the thread id.
    pub fn record_goal_cleared(&mut self, session_id: &str, thread_id: &str)
        requires
            old(self).wf(),
        ensures
            final(self).wf(),
            old(self).links.view().contains_key(session_id@) ==> final(self).links.view()
                == old(self).links.view().insert(
                session_id@,
                CodexSessionLink { goal: None, ..old(self).links.view()[session_id@] },
            ),
            !old(self).links.view().contains_key(session_id@) ==> final(self).links.view()
                == old(self).links.view(),
            final(self).event_seq == (if old(self).event_seq == u64::MAX { u64::MAX } else { (old(self).event_seq + 1) as u64 }),
            final(self).events.view()[session_id@]@.last().method@ == "desktop/goal-cleared"@,
            final(self).events.view()[session_id@]@.last().params->Object_0.pairs() == seq![
                ("threadId"@, JsonValue::Str(final(self).events.view()[session_id@]@.last().params->Object_0.pairs()[0].1->Str_0)),
            ],
            final(self).events.view()[session_id@]@.last().params->Object_0.pairs()[0].1->Str_0@ == thread_id@,
    {
        let payload = object(vec![member("threadId", JsonValue::string(thread_id))]);
        assert(payload->Object_0.pairs() =~= seq![
            ("threadId"@, JsonValue::Str(payload->Object_0.pairs()[0].1->Str_0)),
        ]);
        self.set_link_goal(session_id, None);
        push_session_event(&mut self.events, &mut self.event_seq, session_id, "desktop/goal-cleared", payload);
    }
}

/// The goal statuses a user may set.
pub open spec fn settable_goal_status(s: Seq<char>) -> bool {
    s == "active"@ || s == "paused"@
}

/// Why a goal objective is refused, if it is.
pub open spec fn objective_problem(value: Seq<char>) -> Option<Seq<char>> {
    if trimmed(value).len() == 0 {
        Some("Goal objective must not be empty"@)
    } else if trimmed(value).len() > crate::validate::MAX_GOAL_OBJECTIVE_LEN {
        Some("Goal objective cannot exceed 4,000 characters"@)
    } else {
        None
    }
}

/// Why a goal update is refused, if it is: it changes nothing, or its
/// objective, status or token budget is invalid (checked in that order).
pub open spec fn goal_update_problem(request: CodexSessionGoalUpdateRequest) -> Option<Seq<char>> {
    if request.objective is None && request.status is None && request.token_budget is None {
        Some("A goal update must change the objective, status, or token budget"@)
    } else if request.objective is Some && objective_problem(request.objective->0@) is Some {
        objective_problem(request.objective->0@)
    } else if request.status is Some && !settable_goal_status(request.status->0@) {
        Some("Goal status must be 'active' or 'paused'"@)
    } else if request.token_budget == Some(0u64) {
        Some("Goal token budget must be greater than zero"@)
    } else {
        None
    }
}

/// The members of `thread/goal/set` after the thread id: the trimmed
/// objective, the status and the token budget, each when the request has it.
pub open spec fn goal_update_members(ps: Seq<(Seq<char>, JsonValue)>, request: CodexSessionGoalUpdateRequest) -> bool {
    let n1: int = if request.objective is Some { 1 } else { 0 };
    let n2: int = if request.status is Some { 1 } else { 0 };
    let n3: int = if request.token_budget is Some { 1 } else { 0 };
    &&& ps.len() == 1 + n1 + n2 + n3
    &&& request.objective is Some ==> ps[1].0 == "objective"@ && ps[1].1.str_value() == Some(
        trimmed(request.objective->0@),
    )
    &&& request.status is Some ==> ps[1 + n1].0 == "status"@ && ps[1 + n1].1.str_value() == Some(
        request.status->0@,
    )
    &&& request.token_budget is Some ==> ps[1 + n1 + n2].0 == "tokenBudget"@
        && ps[1 + n1 + n2].1.u64_value() == request.token_budget
}

/// Checks a goal update and builds the `thread/goal/set` parameters:
/// the thread, then whichever of objective (trimmed), status and token
/// budget the request changes.
pub fn goal_update_params(thread_id: &str, request: &CodexSessionGoalUpdateRequest) -> (r: Result<
    JsonValue,
    String,
>)
    ensures
        match r {
            Ok(p) => {
                &&& goal_update_problem(*request) is None
                &&& p is Object
                &&& p->Object_0.pairs()[0].0 == "threadId"@
                &&& p->Object_0.pairs()[0].1.str_value() == Some(thread_id@)
                &&& goal_update_members(p->Object_0.pairs(), *request)
            },
            Err(e) => goal_update_problem(*request) == Some(e@),
        },
{
    if request.objective.is_none() && request.status.is_none() && request.token_budget.is_none() {
        return Err("A goal update must change the objective, status, or token budget".to_string());
    }
    let objective = match &request.objective {
        Some(o) => Some(validate_goal_objective(o.as_str())?),
        None => None,
    };
    match &request.status {
        Some(s) => {
            if !(str_eq(s.as_str(), "active") || str_eq(s.as_str(), "paused")) {
                return Err("Goal status must be 'active' or 'paused'".to_string());
            }
        },
        None => {},
    }
    if request.token_budget == Some(0u64) {
        return Err("Goal token budget must be greater than zero".to_string());
    }
    let mut members: Vec<(String, JsonValue)> = Vec::new();
    members.push(member("threadId", JsonValue::string(thread_id)));
    let ghost first = members@[0];
    let ghost n1: int = if request.objective is Some { 1 } else { 0 };
    let ghost n2: int = if request.status is Some { 1 } else { 0 };
    let ghost n3: int = if request.token_budget is Some { 1 } else { 0 };
    match objective {
        Some(o) => members.push(member("objective", JsonValue::Str(o))),
        None => {},
    }
    let ghost after_objective = members@;
    assert(members@.len() == 1 + n1 && members@[0] == first);
    assert(request.objective is Some ==> members@[1].0@ == "objective"@ && members@[1].1.str_value()
        == Some(trimmed(request.objective->0@)));
    match &request.status {
        Some(s) => members.push(member("status", JsonValue::Str(s.clone()))),
        None => {},
    }
    let ghost after_status = members@;
    assert(members@.len() == 1 + n1 + n2 && members@[0] == first);
    assert(forall|i: int| 0 <= i < 1 + n1 ==> members@[i] == after_objective[i]);
    assert(request.status is Some ==> members@[1 + n1].0@ == "status"@ && members@[1 + n1].1.str_value()
        == Some(request.status->0@));
    match request.token_budget {
        Some(b) => members.push(member("tokenBudget", JsonValue::uint(b))),
        None => {},
    }
    assert(members@.len() == 1 + n1 + n2 + n3 && members@[0] == first);
    assert(forall|i: int| 0 <= i < 1 + n1 + n2 ==> members@[i] == after_status[i]);
    assert(request.token_budget is Some ==> members@[1 + n1 + n2].0@ == "tokenBudget"@
        && members@[1 + n1 + n2].1.u64_value() == request.token_budget);
    let p = object(members);
    assert(goal_update_members(p->Object_0.pairs(), *request));
    Ok(p)
}

} // verus!
