//! The dsh session ↔ Codex thread links: their messages, goals and the
//! bounded per-session event queues that the dsh web UI polls.
use vstd::prelude::*;

use crate::json::{member, object, opt_chars, or_null, pairs_lookup, JsonValue};
use crate::strmap::StrMap;
use crate::text::str_eq;
use crate::validate::{
    request_key_of, valid_session_id, validate_session_id, MAX_SESSION_EVENTS,
    MAX_SESSION_MESSAGES,
};

verus! {

broadcast use vstd::string::group_string_axioms;

/// A persistent goal of a Codex thread.
#[derive(Debug)]
pub struct CodexThreadGoal {
    pub thread_id: String,
    pub objective: String,
    pub status: String,
    pub token_budget: Option<u64>,
    pub tokens_used: u64,
    pub time_used_seconds: u64,
    pub created_at: u64,
    pub updated_at: u64,
}

/// One user, assistant or plan message shown in the session drawer.
#[derive(Debug)]
pub struct CodexSessionMessage {
    pub id: String,
    pub role: String,
    pub text: String,
    pub created_at: u64,
}

/// The Codex thread that a dsh session is linked to.
#[derive(Debug)]
pub struct CodexSessionLink {
    pub thread_id: String,
    pub cwd: String,
    pub title: Option<String>,
    pub messages: Vec<CodexSessionMessage>,
    pub collaboration_mode: String,
    pub goal: Option<CodexThreadGoal>,
    /// Whether the thread was started or resumed by the running app-server.
    pub loaded: bool,
    pub active_turn_id: Option<String>,
}

/// One routed app-server event, numbered across all sessions.
#[derive(Debug)]
pub struct CodexSessionEvent {
    pub seq: u64,
    pub method: String,
    pub params: JsonValue,
}

/// What the dsh web UI receives when it polls a session.
#[derive(Debug)]
pub struct CodexSessionSnapshot {
    pub linked: bool,
    pub thread_id: Option<String>,
    pub cwd: Option<String>,
    pub title: Option<String>,
    pub active_turn_id: Option<String>,
    pub messages: Vec<CodexSessionMessage>,
    pub collaboration_mode: String,
    pub goal: Option<CodexThreadGoal>,
    pub latest_seq: u64,
    pub events: Vec<CodexSessionEvent>,
}

/// One linked session, as the session index lists it.
#[derive(Debug)]
pub struct CodexSessionIndexEntry {
    pub session_id: String,
    pub thread_id: String,
    pub cwd: String,
    pub title: Option<String>,
    pub collaboration_mode: String,
}

/// An approval request of the app-server waiting for the user.
#[derive(Debug)]
pub struct PendingServerRequest {
    pub id: JsonValue,
    pub session_id: String,
}

/// A copy of a string.
pub fn copy_string(s: &String) -> (r: String)
    ensures
        r == *s,
{
    s.clone()
}

/// A copy of an optional string.
pub fn copy_opt(s: &Option<String>) -> (r: Option<String>)
    ensures
        r == *s,
{
    match s {
        Some(x) => Some(x.clone()),
        None => None,
    }
}

/// A copy of a goal.
pub fn copy_goal(g: &CodexThreadGoal) -> (r: CodexThreadGoal)
    ensures
        r == *g,
{
    CodexThreadGoal {
        thread_id: g.thread_id.clone(),
        objective: g.objective.clone(),
        status: g.status.clone(),
        token_budget: g.token_budget,
        tokens_used: g.tokens_used,
        time_used_seconds: g.time_used_seconds,
        created_at: g.created_at,
        updated_at: g.updated_at,
    }
}

/// A copy of an optional goal.
pub fn copy_opt_goal(g: &Option<CodexThreadGoal>) -> (r: Option<CodexThreadGoal>)
    ensures
        r == *g,
{
    match g {
        Some(x) => Some(copy_goal(x)),
        None => None,
    }
}

/// A copy of a message.
pub fn copy_message(m: &CodexSessionMessage) -> (r: CodexSessionMessage)
    ensures
        r == *m,
{
    CodexSessionMessage {
        id: m.id.clone(),
        role: m.role.clone(),
        text: m.text.clone(),
        created_at: m.created_at,
    }
}

/// A copy of a message list.
pub fn copy_messages(v: &Vec<CodexSessionMessage>) -> (r: Vec<CodexSessionMessage>)
    ensures
        r@ == v@,
{
    let mut out: Vec<CodexSessionMessage> = Vec::new();
    let mut i: usize = 0;
    while i < v.len()
        invariant
            i <= v@.len(),
            out@ == v@.take(i as int),
        decreases v.len() - i,
    {
        out.push(copy_message(&v[i]));
        assert(v@.take((i + 1) as int) =~= v@.take(i as int).push(v@[i as int]));
        i = i + 1;
    }
    assert(v@.take(v@.len() as int) =~= v@);
    out
}

/// A copy of a link.
pub fn copy_link(l: &CodexSessionLink) -> (r: CodexSessionLink)
    ensures
        r.thread_id == l.thread_id,
        r.cwd == l.cwd,
        r.title == l.title,
        r.messages@ == l.messages@,
        r.collaboration_mode == l.collaboration_mode,
        r.goal == l.goal,
        r.loaded == l.loaded,
        r.active_turn_id == l.active_turn_id,
{
    CodexSessionLink {
        thread_id: l.thread_id.clone(),
        cwd: l.cwd.clone(),
        title: copy_opt(&l.title),
        messages: copy_messages(&l.messages),
        collaboration_mode: l.collaboration_mode.clone(),
        goal: copy_opt_goal(&l.goal),
        loaded: l.loaded,
        active_turn_id: copy_opt(&l.active_turn_id),
    }
}

/// The messages after `message` is recorded: it replaces the first message
/// with its id, or is appended and only the newest 200 are kept.
pub open spec fn messages_after_push(
    messages: Seq<CodexSessionMessage>,
    message: CodexSessionMessage,
) -> Seq<CodexSessionMessage> {
    if exists|i: int| 0 <= i < messages.len() && (#[trigger] messages[i]).id@ == message.id@ {
        let i = choose|i: int|
            0 <= i < messages.len() && (#[trigger] messages[i]).id@ == message.id@ && forall|j: int|
                0 <= j < i ==> (#[trigger] messages[j]).id@ != message.id@;
        messages.update(i, message)
    } else {
        let pushed = messages.push(message);
        if pushed.len() > MAX_SESSION_MESSAGES {
            pushed.skip(pushed.len() - MAX_SESSION_MESSAGES)
        } else {
            pushed
        }
    }
}

/// Records a session message: a message with a known id is replaced in
/// place; otherwise it is appended and the oldest beyond 200 are dropped.
pub fn push_message(messages: &mut Vec<CodexSessionMessage>, message: CodexSessionMessage)
    ensures
        final(messages)@ == messages_after_push(old(messages)@, message),
        old(messages)@.len() <= MAX_SESSION_MESSAGES ==> final(messages)@.len()
            <= MAX_SESSION_MESSAGES,
{
    let ghost s = messages@;
    let ghost m = message;
    let mut i: usize = 0;
    while i < messages.len()
        invariant
            i <= messages@.len(),
            messages@ == s,
            s == old(messages)@,
            m == message,
            forall|j: int| 0 <= j < i ==> (#[trigger] messages@[j]).id@ != m.id@,
        decreases messages.len() - i,
    {
        if str_eq(messages[i].id.as_str(), message.id.as_str()) {
            proof {
                let k = choose|k: int|
                    0 <= k < s.len() && (#[trigger] s[k]).id@ == m.id@ && forall|j: int|
                        0 <= j < k ==> (#[trigger] s[j]).id@ != m.id@;
                if k < i {
                } else if k > i {
                    assert(s[i as int].id@ == m.id@);
                }
                assert(k == i);
            }
            messages.set(i, message);
            return ;
        }
        i = i + 1;
    }
    messages.push(message);
    if messages.len() > MAX_SESSION_MESSAGES {
        let overflow = messages.len() - MAX_SESSION_MESSAGES;
        let mut kept: Vec<CodexSessionMessage> = Vec::new();
        let ghost pushed = messages@;
        let mut old_messages = Vec::new();
        std::mem::swap(&mut old_messages, messages);
        let mut rev: Vec<CodexSessionMessage> = Vec::new();
        while old_messages.len() > overflow
            invariant
                overflow <= old_messages@.len() <= pushed.len(),
                old_messages@ == pushed.take(old_messages@.len() as int),
                rev@.reverse() == pushed.skip(old_messages@.len() as int),
            decreases old_messages.len(),
        {
            let ghost before = rev@;
            let x = old_messages.pop().unwrap();
            rev.push(x);
            assert(rev@.reverse() =~= seq![x] + before.reverse());
            assert(pushed.skip(old_messages@.len() as int) =~= seq![pushed[old_messages@.len() as int]]
                + pushed.skip((old_messages@.len() + 1) as int));
            assert(old_messages@ =~= pushed.take(old_messages@.len() as int));
        }
        while rev.len() > 0
            invariant
                kept@ + rev@.reverse() == pushed.skip(overflow as int),
            decreases rev.len(),
        {
            let ghost r = rev@;
            let x = rev.pop().unwrap();
            kept.push(x);
            assert(rev@ =~= r.drop_last());
            assert(r.reverse() =~= seq![x] + rev@.reverse());
            assert(kept@ + rev@.reverse() =~= pushed.skip(overflow as int));
        }
        assert(kept@ =~= pushed.skip(overflow as int));
        *messages = kept;
    }
}

/// The queue after an event is appended: only the newest 1,000 are kept.
pub open spec fn queue_after_push(queue: Seq<CodexSessionEvent>, event: CodexSessionEvent) -> Seq<
    CodexSessionEvent,
> {
    let pushed = queue.push(event);
    if pushed.len() > MAX_SESSION_EVENTS {
        pushed.skip(pushed.len() - MAX_SESSION_EVENTS)
    } else {
        pushed
    }
}

/// The events of a queue whose number is above `after`, in order.
pub open spec fn events_after(queue: Seq<CodexSessionEvent>, after: u64) -> Seq<CodexSessionEvent>
    decreases queue.len(),
{
    if queue.len() == 0 {
        Seq::empty()
    } else if queue.last().seq > after {
        events_after(queue.drop_last(), after).push(queue.last())
    } else {
        events_after(queue.drop_last(), after)
    }
}

/// No event of a queue is numbered above `after`, so polling after it
/// yields nothing.
proof fn lemma_events_after_none(queue: Seq<CodexSessionEvent>, after: u64)
    requires
        forall|i: int| 0 <= i < queue.len() ==> queue[i].seq <= after,
    ensures
        events_after(queue, after) == Seq::<CodexSessionEvent>::empty(),
    decreases queue.len(),
{
    if queue.len() > 0 {
        lemma_events_after_none(queue.drop_last(), after);
    }
}

/// A client that has polled a session up to the latest event number sees
/// exactly the next event routed to it, however the queue was trimmed.
pub proof fn lemma_poll_sees_next_event(
    queue: Seq<CodexSessionEvent>,
    latest: u64,
    event: CodexSessionEvent,
)
    requires
        forall|i: int| 0 <= i < queue.len() ==> queue[i].seq <= latest,
        event.seq > latest,
    ensures
        events_after(queue_after_push(queue, event), latest) == seq![event],
{
    let q = queue_after_push(queue, event);
    assert(q.last() == event);
    assert forall|i: int| 0 <= i < q.drop_last().len() implies q.drop_last()[i].seq <= latest by {
        let pushed = queue.push(event);
        if pushed.len() > MAX_SESSION_EVENTS {
            let k = pushed.len() - MAX_SESSION_EVENTS;
            assert(q.drop_last()[i] == pushed[i + k]);
            assert(pushed[i + k] == queue[i + k]);
        } else {
            assert(q.drop_last()[i] == queue[i]);
        }
    }
    lemma_events_after_none(q.drop_last(), latest);
    assert(events_after(q, latest) =~= seq![event]);
}

/// Well-formed event queues: at most 1,000 events each, numbered in
/// non-decreasing order and no higher than `latest`.
pub open spec fn queues_wf(events: StrMap<Vec<CodexSessionEvent>>, latest: u64) -> bool {
    &&& events.wf()
    &&& forall|k: Seq<char>|
        #[trigger] events.view().contains_key(k) ==> {
            let q = events.view()[k]@;
            &&& q.len() <= MAX_SESSION_EVENTS
            &&& forall|i: int, j: int| 0 <= i < j < q.len() ==> q[i].seq <= q[j].seq
            &&& forall|i: int| 0 <= i < q.len() ==> q[i].seq <= latest
        }
}

/// Appends an event to the queue of `session_id` with the next number
/// (saturating at `u64::MAX`), keeping only its newest 1,000 events.
pub fn push_session_event(
    events: &mut StrMap<Vec<CodexSessionEvent>>,
    latest: &mut u64,
    session_id: &str,
    method: &str,
    params: JsonValue,
)
    requires
        old(events).wf(),
    ensures
        final(events).wf(),
        *final(latest) == (if *old(latest) == u64::MAX {
            u64::MAX
        } else {
            (*old(latest) + 1) as u64
        }),
        final(events).view().dom() == old(events).view().dom().insert(session_id@),
        forall|k: Seq<char>|
            k != session_id@ && #[trigger] old(events).view().contains_key(k) ==> final(events).view()[k] == old(events).view()[k],
        ({
            let q = final(events).view()[session_id@]@;
            let old_q = if old(events).view().contains_key(session_id@) {
                old(events).view()[session_id@]@
            } else {
                Seq::empty()
            };
            &&& q == queue_after_push(old_q, q.last())
            &&& q.last().seq == *final(latest)
            &&& q.last().method@ == method@
            &&& q.last().params == params
        }),
        queues_wf(*old(events), *old(latest)) ==> queues_wf(
            *final(events),
            *final(latest),
        ),
{
    *latest = if *latest == u64::MAX {
        u64::MAX
    } else {
        *latest + 1
    };
    let event = CodexSessionEvent { seq: *latest, method: method.to_string(), params };
    let ghost ev = event;
    let ghost old_events = *events;
    let mut queue = match events.remove(session_id) {
        Some(q) => q,
        None => Vec::new(),
    };
    let ghost before = queue@;
    queue.push(event);
    let ghost pushed = queue@;
    assert(queue.len() == pushed.len());
    let mut removed: usize = 0;
    while queue.len() > MAX_SESSION_EVENTS
        invariant
            removed <= pushed.len(),
            pushed.len() <= usize::MAX,
            queue@ == pushed.skip(removed as int),
            pushed.len() > MAX_SESSION_EVENTS ==> removed <= pushed.len() - MAX_SESSION_EVENTS,
            pushed.len() <= MAX_SESSION_EVENTS ==> removed == 0,
        decreases queue.len(),
    {
        queue.remove(0);
        assert(queue@ =~= pushed.skip(removed + 1));
        removed = removed + 1;
    }
    proof {
        if pushed.len() <= MAX_SESSION_EVENTS {
            assert(pushed.skip(0) =~= pushed);
        }
        assert(queue@ == queue_after_push(before, ev));
        assert(queue@.last() == ev);
        if queues_wf(old_events, *old(latest)) {
            assert(before.len() <= MAX_SESSION_EVENTS);
        }
    }
    events.insert(session_id.to_string(), queue);
}

/// The fields of a thread goal object: three strings, an optional budget
/// (missing or `null` for none) and four counters, as the goal schema
/// requires them.
pub open spec fn goal_fields(v: JsonValue) -> Option<
    (Seq<char>, Seq<char>, Seq<char>, Option<u64>, u64, u64, u64, u64),
> {
    if !(v is Object) {
        None
    } else {
        let budget_ok = match v.field("tokenBudget"@) {
            None => true,
            Some(b) => b is Null || b.u64_value() is Some,
        };
        match (
            v.field_str("threadId"@),
            v.field_str("objective"@),
            v.field_str("status"@),
            v.field_u64("tokensUsed"@),
            v.field_u64("timeUsedSeconds"@),
            v.field_u64("createdAt"@),
            v.field_u64("updatedAt"@),
        ) {
            (Some(t), Some(o), Some(s), Some(u), Some(tm), Some(c), Some(up)) => if budget_ok {
                Some((t, o, s, v.field_u64("tokenBudget"@), u, tm, c, up))
            } else {
                None
            },
            _ => None,
        }
    }
}

/// `g` holds the goal fields `f`.
pub open spec fn goal_matches(
    g: CodexThreadGoal,
    f: (Seq<char>, Seq<char>, Seq<char>, Option<u64>, u64, u64, u64, u64),
) -> bool {
    &&& g.thread_id@ == f.0
    &&& g.objective@ == f.1
    &&& g.status@ == f.2
    &&& g.token_budget == f.3
    &&& g.tokens_used == f.4
    &&& g.time_used_seconds == f.5
    &&& g.created_at == f.6
    &&& g.updated_at == f.7
}

/// A goal read from JSON takes each field from its own camelCase key:
/// `threadId`, `objective`, `status`, `tokenBudget` (none when absent or
/// `null`), `tokensUsed`, `timeUsedSeconds`, `createdAt` and `updatedAt`;
/// and a goal is read exactly when the strings and counts are all there and
/// the budget is a count, `null` or absent.
pub proof fn law_goal_reads_its_members(g: CodexThreadGoal, v: JsonValue)
    requires
        goal_fields(v) is Some,
        goal_matches(g, goal_fields(v)->0),
    ensures
        v.field_str("threadId"@) == Some(g.thread_id@),
        v.field_str("objective"@) == Some(g.objective@),
        v.field_str("status"@) == Some(g.status@),
        v.field_u64("tokenBudget"@) == g.token_budget,
        v.field_u64("tokensUsed"@) == Some(g.tokens_used),
        v.field_u64("timeUsedSeconds"@) == Some(g.time_used_seconds),
        v.field_u64("createdAt"@) == Some(g.created_at),
        v.field_u64("updatedAt"@) == Some(g.updated_at),
{
}

/// Reads the `goal` of an app-server response or notification: absent or
/// `null` is no goal; anything else must be a complete goal object.
pub fn parse_thread_goal(value: Option<&JsonValue>) -> (r: Result<Option<CodexThreadGoal>, String>)
    ensures
        match value {
            None => r == Ok::<Option<CodexThreadGoal>, String>(None),
            Some(v) => if *v is Null {
                r == Ok::<Option<CodexThreadGoal>, String>(None)
            } else {
                match r {
                    Ok(Some(g)) => goal_fields(*v) is Some && goal_matches(g, goal_fields(*v)->0),
                    Ok(None) => false,
                    Err(e) => goal_fields(*v) is None && e@ == "invalid Codex thread goal"@,
                }
            },
        },
{
    let v = match value {
        None => return Ok(None),
        Some(v) => v,
    };
    if v.is_null() {
        return Ok(None);
    }
    let is_object = match v {
        JsonValue::Object(_) => true,
        _ => false,
    };
    let budget_ok = match v.get("tokenBudget") {
        None => true,
        Some(b) => b.is_null() || b.as_u64().is_some(),
    };
    if !is_object || !budget_ok {
        return Err("invalid Codex thread goal".to_string());
    }
    match (
        v.get_string("threadId"),
        v.get_string("objective"),
        v.get_string("status"),
        v.get_u64("tokensUsed"),
        v.get_u64("timeUsedSeconds"),
        v.get_u64("createdAt"),
        v.get_u64("updatedAt"),
    ) {
        (Some(t), Some(o), Some(s), Some(u), Some(tm), Some(c), Some(up)) => Ok(
            Some(
                CodexThreadGoal {
                    thread_id: t,
                    objective: o,
                    status: s,
                    token_budget: v.get_u64("tokenBudget"),
                    tokens_used: u,
                    time_used_seconds: tm,
                    created_at: c,
                    updated_at: up,
                },
            ),
        ),
        _ => Err("invalid Codex thread goal".to_string()),
    }
}

/// The fields of a goal as plain values.
pub open spec fn goal_tuple(g: CodexThreadGoal) -> (
    Seq<char>,
    Seq<char>,
    Seq<char>,
    Option<u64>,
    u64,
    u64,
    u64,
    u64,
) {
    (
        g.thread_id@,
        g.objective@,
        g.status@,
        g.token_budget,
        g.tokens_used,
        g.time_used_seconds,
        g.created_at,
        g.updated_at,
    )
}

/// `v` is the JSON object of goal `g`: its eight camelCase members in
/// order, a missing budget written as `null`.
pub open spec fn goal_object(v: JsonValue, g: CodexThreadGoal) -> bool {
    let ps = v->Object_0.pairs();
    &&& v is Object
    &&& forall|key: Seq<char>| #[trigger] v.field(key) == pairs_lookup(ps, key)
    &&& ps.len() == 8
    &&& ps[0] == ("threadId"@, JsonValue::Str(g.thread_id))
    &&& ps[1] == ("objective"@, JsonValue::Str(g.objective))
    &&& ps[2] == ("status"@, JsonValue::Str(g.status))
    &&& ps[3].0 == "tokenBudget"@
    &&& match g.token_budget {
        Some(b) => ps[3].1.u64_value() == Some(b),
        None => ps[3].1 is Null,
    }
    &&& ps[4].0 == "tokensUsed"@
    &&& ps[4].1.u64_value() == Some(g.tokens_used)
    &&& ps[5].0 == "timeUsedSeconds"@
    &&& ps[5].1.u64_value() == Some(g.time_used_seconds)
    &&& ps[6].0 == "createdAt"@
    &&& ps[6].1.u64_value() == Some(g.created_at)
    &&& ps[7].0 == "updatedAt"@
    &&& ps[7].1.u64_value() == Some(g.updated_at)
}

/// A lookup finds the first pair with the key.
pub(crate) proof fn lemma_lookup_at(ps: Seq<(Seq<char>, JsonValue)>, key: Seq<char>, i: int)
    requires
        0 <= i < ps.len(),
        ps[i].0 == key,
        forall|j: int| 0 <= j < i ==> ps[j].0 != key,
    ensures
        pairs_lookup(ps, key) == Some(ps[i].1),
    decreases i,
{
    if i > 0 {
        assert forall|j: int| 0 <= j < i - 1 implies ps.drop_first()[j].0 != key by {
            assert(ps.drop_first()[j] == ps[j + 1]);
        }
        lemma_lookup_at(ps.drop_first(), key, i - 1);
    }
}

/// A goal written as JSON reads back as the same goal.
pub proof fn lemma_goal_json_roundtrip(g: CodexThreadGoal, v: JsonValue)
    requires
        goal_object(v, g),
    ensures
        goal_fields(v) == Some(goal_tuple(g)),
{
    let ps = v->Object_0.pairs();
    let keys = seq![
        "threadId"@,
        "objective"@,
        "status"@,
        "tokenBudget"@,
        "tokensUsed"@,
        "timeUsedSeconds"@,
        "createdAt"@,
        "updatedAt"@,
    ];
    reveal_strlit("threadId");
    reveal_strlit("objective");
    reveal_strlit("status");
    reveal_strlit("tokenBudget");
    reveal_strlit("tokensUsed");
    reveal_strlit("timeUsedSeconds");
    reveal_strlit("createdAt");
    reveal_strlit("updatedAt");
    assert("threadId"@.len() == 8 && "objective"@.len() == 9 && "status"@.len() == 6);
    assert("tokenBudget"@.len() == 11 && "tokensUsed"@.len() == 10);
    assert("timeUsedSeconds"@.len() == 15 && "createdAt"@.len() == 9 && "updatedAt"@.len() == 9);
    assert("objective"@[0] == 'o' && "createdAt"@[0] == 'c' && "updatedAt"@[0] == 'u');
    assert forall|i: int| 0 <= i < 8 implies #[trigger] ps[i].0 == keys[i] by {}
    assert forall|i: int, j: int| 0 <= j < i < 8 implies #[trigger] keys[j] != #[trigger] keys[i] by {}
    assert forall|i: int| 0 <= i < 8 implies v.field(#[trigger] keys[i]) == Some(ps[i].1) by {
        lemma_lookup_at(ps, keys[i], i);
    }
    assert(v.field("tokenBudget"@) == Some(ps[3].1));
}

/// A goal as the JSON object the session events carry (camelCase fields).
pub fn goal_json(g: &CodexThreadGoal) -> (r: JsonValue)
    ensures
        goal_object(r, *g),
{
    let budget = match g.token_budget {
        Some(b) => JsonValue::uint(b),
        None => JsonValue::Null,
    };
    object(
        vec![
            member("threadId", JsonValue::Str(g.thread_id.clone())),
            member("objective", JsonValue::Str(g.objective.clone())),
            member("status", JsonValue::Str(g.status.clone())),
            member("tokenBudget", budget),
            member("tokensUsed", JsonValue::uint(g.tokens_used)),
            member("timeUsedSeconds", JsonValue::uint(g.time_used_seconds)),
            member("createdAt", JsonValue::uint(g.created_at)),
            member("updatedAt", JsonValue::uint(g.updated_at)),
        ],
    )
}

/// The approval kind shown for a server request method.
pub open spec fn approval_kind(method: Seq<char>) -> Seq<char> {
    if crate::text::occurs_in("commandExecution"@, method) {
        "command"@
    } else {
        "fileChange"@
    }
}

/// The display-safe part of an approval request routed to a session.
pub fn sanitize_server_request(method: &str, id: &JsonValue, params: &JsonValue) -> (r: JsonValue)
    ensures
        r is Object,
        r->Object_0.pairs() == seq![
            ("requestId"@, *id),
            ("kind"@, JsonValue::Str(r->Object_0.pairs()[1].1->Str_0)),
            ("threadId"@, or_null(params.field("threadId"@))),
            ("turnId"@, or_null(params.field("turnId"@))),
            ("itemId"@, or_null(params.field("itemId"@))),
            ("reason"@, or_null(params.field("reason"@))),
            ("command"@, or_null(params.field("command"@))),
            ("cwd"@, or_null(params.field("cwd"@))),
            ("grantRoot"@, or_null(params.field("grantRoot"@))),
            ("availableDecisions"@, or_null(params.field("availableDecisions"@))),
        ],
        r->Object_0.pairs()[1].1->Str_0@ == approval_kind(method@),
{
    let mcs = crate::text::chars_of(method);
    let needle = crate::text::chars_of("commandExecution");
    let kind = if crate::text::contains_chars(&mcs, &needle) {
        "command"
    } else {
        "fileChange"
    };
    let r = object(
        vec![
            member("requestId", id.duplicate()),
            member("kind", JsonValue::Str(kind.to_string())),
            member("threadId", params.field_or_null("threadId")),
            member("turnId", params.field_or_null("turnId")),
            member("itemId", params.field_or_null("itemId")),
            member("reason", params.field_or_null("reason")),
            member("command", params.field_or_null("command")),
            member("cwd", params.field_or_null("cwd")),
            member("grantRoot", params.field_or_null("grantRoot")),
            member("availableDecisions", params.field_or_null("availableDecisions")),
        ],
    );
    assert(r->Object_0.pairs() =~= seq![
        ("requestId"@, *id),
        ("kind"@, JsonValue::Str(r->Object_0.pairs()[1].1->Str_0)),
        ("threadId"@, or_null(params.field("threadId"@))),
        ("turnId"@, or_null(params.field("turnId"@))),
        ("itemId"@, or_null(params.field("itemId"@))),
        ("reason"@, or_null(params.field("reason"@))),
        ("command"@, or_null(params.field("command"@))),
        ("cwd"@, or_null(params.field("cwd"@))),
        ("grantRoot"@, or_null(params.field("grantRoot"@))),
        ("availableDecisions"@, or_null(params.field("availableDecisions"@))),
    ]);
    r
}

/// The streaming-delta notifications, whose text is cut to 32,768 characters.
pub open spec fn delta_method(method: Seq<char>) -> bool {
    ||| method == "item/agentMessage/delta"@
    ||| method == "item/plan/delta"@
    ||| method == "item/commandExecution/outputDelta"@
    ||| method == "item/reasoning/summaryTextDelta"@
}

/// The text of a delta notification, as routed: at most 32,768 characters.
pub open spec fn delta_text(params: JsonValue) -> Seq<char> {
    let d = match params.field_str("delta"@) {
        Some(d) => d,
        None => Seq::empty(),
    };
    d.take(if d.len() < 32_768 { d.len() as int } else { 32_768 })
}

/// `out` is the display-safe form of the parameters of a `method`
/// notification whose JSON text is `serialized_len` bytes long.
pub open spec fn sanitized_params(method: Seq<char>, params: JsonValue, serialized_len: usize, r: JsonValue) -> bool {
    if delta_method(method) {
        &&& r is Object
        &&& r->Object_0.pairs() == seq![
            ("threadId"@, or_null(params.field("threadId"@))),
            ("turnId"@, or_null(params.field("turnId"@))),
            ("itemId"@, or_null(params.field("itemId"@))),
            ("delta"@, JsonValue::Str(r->Object_0.pairs()[3].1->Str_0)),
        ]
        &&& r->Object_0.pairs()[3].1->Str_0@ == delta_text(params)
    } else if serialized_len <= 200_000 {
        r == params
    } else {
        &&& r is Object
        &&& r->Object_0.pairs() == seq![
            ("threadId"@, or_null(params.field("threadId"@))),
            ("turnId"@, or_null(params.field("turnId"@))),
            ("truncated"@, JsonValue::Bool(true)),
            ("message"@, JsonValue::Str(r->Object_0.pairs()[3].1->Str_0)),
        ]
        &&& r->Object_0.pairs()[3].1->Str_0@ == "Codex event was too large to display"@
    }
}

/// A delta event carries the notification's thread, turn and item ids and
/// the start of its `delta` text, at most 32,768 characters of it and all of
/// a shorter text; any other event is passed on whole when its JSON text is
/// at most 200,000 bytes, and is otherwise replaced by a notice that keeps
/// its thread and turn.
pub proof fn law_session_events_are_display_safe(
    method: Seq<char>,
    params: JsonValue,
    serialized_len: usize,
    r: JsonValue,
)
    requires
        sanitized_params(method, params, serialized_len, r),
    ensures
        delta_method(method) ==> {
            let ps = r->Object_0.pairs();
            let full = match params.field_str("delta"@) {
                Some(d) => d,
                None => Seq::empty(),
            };
            let d = ps[3].1->Str_0@;
            &&& ps[0] == ("threadId"@, or_null(params.field("threadId"@)))
            &&& ps[1] == ("turnId"@, or_null(params.field("turnId"@)))
            &&& ps[2] == ("itemId"@, or_null(params.field("itemId"@)))
            &&& ps[3].0 == "delta"@
            &&& d.len() <= 32_768
            &&& d.is_prefix_of(full)
            &&& full.len() <= 32_768 ==> d == full
        },
        !delta_method(method) && serialized_len <= 200_000 ==> r == params,
        !delta_method(method) && serialized_len > 200_000 ==> r->Object_0.pairs()[0] == (
            "threadId"@,
            or_null(params.field("threadId"@)),
        ) && r->Object_0.pairs()[1] == ("turnId"@, or_null(params.field("turnId"@)))
            && r->Object_0.pairs()[2] == ("truncated"@, JsonValue::Bool(true)),
{
    if delta_method(method) {
        let full = match params.field_str("delta"@) {
            Some(d) => d,
            None => Seq::empty(),
        };
        assert(delta_text(params) =~= full.take(
            if full.len() < 32_768 {
                full.len() as int
            } else {
                32_768
            },
        ));
        if full.len() <= 32_768 {
            assert(full.take(full.len() as int) =~= full);
        }
    }
}

/// The display-safe form of a session notification's parameters: deltas
/// keep their ids and at most 32,768 characters of text; any other
/// notification is kept whole when its JSON text (`serialized_len` bytes)
/// is at most 200,000 bytes, and is replaced by a truncation notice otherwise.
pub fn sanitize_session_params(method: &str, params: &JsonValue, serialized_len: usize) -> (r:
    JsonValue)
    ensures
        sanitized_params(method@, *params, serialized_len, r),
{
    if str_eq(method, "item/agentMessage/delta") || str_eq(method, "item/plan/delta") || str_eq(
        method,
        "item/commandExecution/outputDelta",
    ) || str_eq(method, "item/reasoning/summaryTextDelta") {
        let text = match params.get("delta") {
            Some(d) => match d.as_str() {
                Some(t) => t,
                None => "",
            },
            None => "",
        };
        proof {
            reveal_strlit("");
        }
        let cs = crate::text::chars_of(text);
        let delta = crate::text::take_chars(&cs, 32_768);
        assert(delta_method(method@));
        assert(delta@ == delta_text(*params));
        let r = object(
            vec![
                member("threadId", params.field_or_null("threadId")),
                member("turnId", params.field_or_null("turnId")),
                member("itemId", params.field_or_null("itemId")),
                member("delta", JsonValue::Str(delta)),
            ],
        );
        assert(r->Object_0.pairs() =~= seq![
            ("threadId"@, or_null(params.field("threadId"@))),
            ("turnId"@, or_null(params.field("turnId"@))),
            ("itemId"@, or_null(params.field("itemId"@))),
            ("delta"@, JsonValue::Str(r->Object_0.pairs()[3].1->Str_0)),
        ]);
        return r;
    }
    if serialized_len <= 200_000 {
        params.duplicate()
    } else {
        let r = object(
            vec![
                member("threadId", params.field_or_null("threadId")),
                member("turnId", params.field_or_null("turnId")),
                member("truncated", JsonValue::Bool(true)),
                member("message", JsonValue::string("Codex event was too large to display")),
            ],
        );
        assert(r->Object_0.pairs() =~= seq![
            ("threadId"@, or_null(params.field("threadId"@))),
            ("turnId"@, or_null(params.field("turnId"@))),
            ("truncated"@, JsonValue::Bool(true)),
            ("message"@, JsonValue::Str(r->Object_0.pairs()[3].1->Str_0)),
        ]);
        r
    }
}

} // verus!
