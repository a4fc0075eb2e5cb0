//! The project board: the dsh workspace registry (the `workspace` storage
//! unit) projected as one card per workspace, in the registry's display
//! order.
use vstd::prelude::*;

use crate::json::{JsonList, JsonValue};
use crate::text::str_eq;

use crate::jsontext::{json_text_value, parse_json};

verus! {

broadcast use vstd::string::group_string_axioms;

/// One workspace card shown on the project board.
#[derive(Debug)]
pub struct WorkspaceCard {
    pub id: String,
    pub title: String,
    pub path: String,
    pub session_count: usize,
    pub archived_session_count: usize,
    /// `active`, `empty` or `archived`.
    pub status: String,
    pub created_at: String,
    pub updated_at: String,
}

/// A card as plain values.
pub struct CardView {
    pub id: Seq<char>,
    pub title: Seq<char>,
    pub path: Seq<char>,
    pub session_count: nat,
    pub archived_session_count: nat,
    pub status: Seq<char>,
    pub created_at: Seq<char>,
    pub updated_at: Seq<char>,
}

impl WorkspaceCard {
    /// The card as plain values.
    pub open spec fn fields(self) -> CardView {
        CardView {
            id: self.id@,
            title: self.title@,
            path: self.path@,
            session_count: self.session_count as nat,
            archived_session_count: self.archived_session_count as nat,
            status: self.status@,
            created_at: self.created_at@,
            updated_at: self.updated_at@,
        }
    }
}

/// The string items of an array, in order; other items are skipped.
pub open spec fn string_items(items: Seq<JsonValue>) -> Seq<Seq<char>>
    decreases items.len(),
{
    if items.len() == 0 {
        Seq::empty()
    } else {
        match items.last().str_value() {
            Some(s) => string_items(items.drop_last()).push(s),
            None => string_items(items.drop_last()),
        }
    }
}

/// The string items of an optional array (none when it is not an array).
pub open spec fn strings_at(v: Option<JsonValue>) -> Seq<Seq<char>> {
    match v {
        Some(x) => match x.array_items() {
            Some(items) => string_items(items),
            None => Seq::empty(),
        },
        None => Seq::empty(),
    }
}

/// The keys of an object's members, in order.
pub open spec fn member_keys(v: JsonValue) -> Seq<Seq<char>> {
    match v {
        JsonValue::Object(m) => m.pairs().map_values(|p: (Seq<char>, JsonValue)| p.0),
        _ => Seq::empty(),
    }
}

/// The display order of the workspaces: `global.workspaceIds` when it
/// lists any, else the keys of the workspace table.
pub open spec fn display_ids(json: JsonValue) -> Seq<Seq<char>> {
    let listed = strings_at(json.field2("global"@, "workspaceIds"@));
    if json.field2("global"@, "workspaceIds"@) is Some && json.field2(
        "global"@,
        "workspaceIds"@,
    )->0.array_items() is Some && listed.len() > 0 {
        listed
    } else {
        match json.field2("tables"@, "workspaces"@) {
            Some(t) => member_keys(t),
            None => Seq::empty(),
        }
    }
}

/// How many of `sessions` are in `archived` (each occurrence counts).
pub open spec fn archived_count(sessions: Seq<Seq<char>>, archived: Seq<Seq<char>>) -> nat
    decreases sessions.len(),
{
    if sessions.len() == 0 {
        0
    } else {
        archived_count(sessions.drop_last(), archived) + if archived.contains(sessions.last()) {
            1nat
        } else {
            0nat
        }
    }
}

/// A string member, empty when absent or not a string.
pub open spec fn text_or_empty(v: JsonValue, key: Seq<char>) -> Seq<char> {
    match v.field_str(key) {
        Some(s) => s,
        None => Seq::empty(),
    }
}

/// The card of workspace `id`, when the table has a record for it.
pub open spec fn card_of(json: JsonValue, id: Seq<char>) -> Option<CardView> {
    let record = match json.field2("tables"@, "workspaces"@) {
        Some(t) => t.field(id),
        None => None,
    };
    match record {
        Some(r) => {
            let sessions = strings_at(r.field("sessionIds"@));
            let archived = archived_count(
                sessions,
                strings_at(json.field2("global"@, "archivedSessionIds"@)),
            );
            Some(
                CardView {
                    id,
                    title: text_or_empty(r, "title"@),
                    path: text_or_empty(r, "path"@),
                    session_count: sessions.len(),
                    archived_session_count: archived,
                    status: if sessions.len() == 0 {
                        "empty"@
                    } else if archived == sessions.len() {
                        "archived"@
                    } else {
                        "active"@
                    },
                    created_at: text_or_empty(r, "createdAt"@),
                    updated_at: text_or_empty(r, "updatedAt"@),
                },
            )
        },
        None => None,
    }
}

/// The cards of the given ids, skipping ids without a record.
pub open spec fn cards_of(json: JsonValue, ids: Seq<Seq<char>>) -> Seq<CardView>
    decreases ids.len(),
{
    if ids.len() == 0 {
        Seq::empty()
    } else {
        match card_of(json, ids.last()) {
            Some(c) => cards_of(json, ids.drop_last()).push(c),
            None => cards_of(json, ids.drop_last()),
        }
    }
}

/// Every card is the card of a listed workspace that has a record in
/// `tables.workspaces`, and copies that record: its id, its `title`, `path`,
/// `createdAt` and `updatedAt` strings (empty when absent), the number of
/// string ids in its `sessionIds`, how many of those `global.archivedSessionIds`
/// lists, and a status that is `empty` without sessions, `archived` when all
/// are archived, and `active` otherwise.
pub proof fn law_cards_copy_their_records(json: JsonValue, ids: Seq<Seq<char>>, i: int)
    requires
        0 <= i < cards_of(json, ids).len(),
    ensures
        ({
            let c = cards_of(json, ids)[i];
            let table = json.field2("tables"@, "workspaces"@);
            &&& ids.contains(c.id)
            &&& table is Some
            &&& table->0.field(c.id) is Some
            &&& ({
                let r = table->0.field(c.id)->0;
                let sessions = strings_at(r.field("sessionIds"@));
                &&& c.title == (match r.field_str("title"@) {
                    Some(s) => s,
                    None => Seq::empty(),
                })
                &&& c.path == (match r.field_str("path"@) {
                    Some(s) => s,
                    None => Seq::empty(),
                })
                &&& c.created_at == (match r.field_str("createdAt"@) {
                    Some(s) => s,
                    None => Seq::empty(),
                })
                &&& c.updated_at == (match r.field_str("updatedAt"@) {
                    Some(s) => s,
                    None => Seq::empty(),
                })
                &&& c.session_count == sessions.len()
                &&& c.archived_session_count == archived_count(
                    sessions,
                    strings_at(json.field2("global"@, "archivedSessionIds"@)),
                )
                &&& c.status == (if c.session_count == 0 {
                    "empty"@
                } else if c.archived_session_count == c.session_count {
                    "archived"@
                } else {
                    "active"@
                })
            })
        }),
    decreases ids.len(),
{
    if ids.len() > 0 {
        let rest = cards_of(json, ids.drop_last());
        if i < rest.len() {
            law_cards_copy_their_records(json, ids.drop_last(), i);
            assert(cards_of(json, ids)[i] == rest[i]);
            assert(ids.drop_last().contains(rest[i].id));
            let k = choose|k: int| 0 <= k < ids.drop_last().len() && ids.drop_last()[k] == rest[i].id;
            assert(ids[k] == rest[i].id);
        } else {
            assert(ids[ids.len() - 1] == ids.last());
        }
    }
}

/// The string items of a JSON array.
fn collect_strings(list: &JsonList) -> (out: Vec<String>)
    ensures
        out@.map_values(|s: String| s@) == string_items(list.items()),
{
    let items = list.item_refs();
    let ghost all = list.items();
    let mut out: Vec<String> = Vec::new();
    let mut i: usize = 0;
    while i < items.len()
        invariant
            i <= items@.len(),
            items@.len() == all.len(),
            forall|j: int| 0 <= j < items@.len() ==> *items@[j] == all[j],
            out@.map_values(|s: String| s@) == string_items(all.take(i as int)),
        decreases items.len() - i,
    {
        assert(all.take((i + 1) as int).drop_last() =~= all.take(i as int));
        match items[i] {
            JsonValue::Str(s) => {
                let ghost before = out@;
                out.push(s.clone());
                assert(out@.map_values(|s: String| s@) =~= before.map_values(|s: String| s@).push(
                    s@,
                ));
            },
            _ => {},
        }
        i = i + 1;
    }
    assert(all.take(all.len() as int) =~= all);
    out
}

/// The string items of an optional array.
fn strings_of_value(v: Option<&JsonValue>) -> (out: Vec<String>)
    ensures
        out@.map_values(|s: String| s@) == strings_at(
            match v {
                Some(x) => Some(*x),
                None => None,
            },
        ),
{
    match v {
        Some(x) => match x {
            JsonValue::Array(list) => collect_strings(list),
            _ => Vec::new(),
        },
        None => Vec::new(),
    }
}

/// Whether `s` is one of `set`.
fn contains_string(set: &Vec<String>, s: &str) -> (r: bool)
    ensures
        r == set@.map_values(|x: String| x@).contains(s@),
{
    let ghost view = set@.map_values(|x: String| x@);
    let mut i: usize = 0;
    while i < set.len()
        invariant
            i <= set@.len(),
            view == set@.map_values(|x: String| x@),
            forall|j: int| 0 <= j < i ==> view[j] != s@,
        decreases set.len() - i,
    {
        if str_eq(set[i].as_str(), s) {
            assert(view[i as int] == s@);
            return true;
        }
        i = i + 1;
    }
    false
}

/// A string member, empty when absent or not a string.
fn member_text(v: &JsonValue, key: &str) -> (r: String)
    ensures
        r@ == text_or_empty(*v, key@),
{
    match v.get_string(key) {
        Some(s) => s,
        None => String::new(),
    }
}

/// Projects the workspace storage unit into the board's cards, in display
/// order. A registry without workspaces (or an empty document) has no cards.
pub fn parse_workspaces(json: &JsonValue) -> (cards: Vec<WorkspaceCard>)
    ensures
        cards@.map_values(|c: WorkspaceCard| c.fields()) == cards_of(*json, display_ids(*json)),
{
    let archived = strings_of_value(json.get2("global", "archivedSessionIds"));
    let ghost archived_view = strings_at(json.field2("global"@, "archivedSessionIds"@));
    let table = json.get2("tables", "workspaces");
    let listed = match json.get2("global", "workspaceIds") {
        Some(x) => match x {
            JsonValue::Array(list) => {
                let v = collect_strings(list);
                if v.len() > 0 {
                    Some(v)
                } else {
                    None
                }
            },
            _ => None,
        },
        None => None,
    };
    let ids: Vec<String> = match listed {
        Some(v) => v,
        None => match table {
            Some(t) => match t {
                JsonValue::Object(members) => {
                    let pairs = members.pair_refs();
                    let mut keys: Vec<String> = Vec::new();
                    let mut k: usize = 0;
                    while k < pairs.len()
                        invariant
                            k <= pairs@.len(),
                            pairs@.len() == members.pairs().len(),
                            forall|j: int|
                                0 <= j < pairs@.len() ==> (#[trigger] pairs@[j]).0@ == members.pairs()[j].0,
                            keys@.map_values(|s: String| s@) == members.pairs().take(
                                k as int,
                            ).map_values(|p: (Seq<char>, JsonValue)| p.0),
                        decreases pairs.len() - k,
                    {
                        let ghost before = keys@;
                        keys.push(pairs[k].0.clone());
                        assert(members.pairs().take((k + 1) as int).map_values(
                            |p: (Seq<char>, JsonValue)| p.0,
                        ) =~= members.pairs().take(k as int).map_values(
                            |p: (Seq<char>, JsonValue)| p.0,
                        ).push(members.pairs()[k as int].0));
                        assert(keys@.map_values(|s: String| s@) =~= before.map_values(
                            |s: String| s@,
                        ).push(pairs@[k as int].0@));
                        k = k + 1;
                    }
                    assert(members.pairs().take(members.pairs().len() as int) =~= members.pairs());
                    keys
                },
                _ => Vec::new(),
            },
            None => Vec::new(),
        },
    };
    let ghost id_view = ids@.map_values(|s: String| s@);
    assert(id_view == display_ids(*json));
    let mut cards: Vec<WorkspaceCard> = Vec::new();
    let mut i: usize = 0;
    while i < ids.len()
        invariant
            i <= ids@.len(),
            id_view == ids@.map_values(|s: String| s@),
            archived@.map_values(|s: String| s@) == archived_view,
            archived_view == strings_at(json.field2("global"@, "archivedSessionIds"@)),
            match table {
                Some(t) => json.field2("tables"@, "workspaces"@) == Some(*t),
                None => json.field2("tables"@, "workspaces"@) is None,
            },
            cards@.map_values(|c: WorkspaceCard| c.fields()) == cards_of(
                *json,
                id_view.take(i as int),
            ),
        decreases ids.len() - i,
    {
        assert(id_view.take((i + 1) as int).drop_last() =~= id_view.take(i as int));
        assert(id_view[i as int] == ids@[i as int]@);
        let record = match table {
            Some(t) => t.get(ids[i].as_str()),
            None => None,
        };
        match record {
            Some(r) => {
                let sessions = strings_of_value(r.get("sessionIds"));
                let ghost sessions_view = sessions@.map_values(|s: String| s@);
                let mut archived_n: usize = 0;
                let mut j: usize = 0;
                while j < sessions.len()
                    invariant
                        j <= sessions@.len(),
                        sessions_view == sessions@.map_values(|s: String| s@),
                        archived@.map_values(|s: String| s@) == archived_view,
                        archived_n == archived_count(sessions_view.take(j as int), archived_view),
                        archived_n <= j,
                    decreases sessions.len() - j,
                {
                    assert(sessions_view.take((j + 1) as int).drop_last() =~= sessions_view.take(
                        j as int,
                    ));
                    if contains_string(&archived, sessions[j].as_str()) {
                        archived_n = archived_n + 1;
                    }
                    j = j + 1;
                }
                assert(sessions_view.take(sessions_view.len() as int) =~= sessions_view);
                let count = sessions.len();
                let status = if count == 0 {
                    "empty".to_string()
                } else if archived_n == count {
                    "archived".to_string()
                } else {
                    "active".to_string()
                };
                let card = WorkspaceCard {
                    id: ids[i].clone(),
                    title: member_text(r, "title"),
                    path: member_text(r, "path"),
                    session_count: count,
                    archived_session_count: archived_n,
                    status,
                    created_at: member_text(r, "createdAt"),
                    updated_at: member_text(r, "updatedAt"),
                };
                let ghost before = cards@;
                let ghost gc = card;
                cards.push(card);
                assert(cards@.map_values(|c: WorkspaceCard| c.fields()) =~= before.map_values(
                    |c: WorkspaceCard| c.fields(),
                ).push(gc.fields()));
            },
            None => {},
        }
        i = i + 1;
    }
    assert(id_view.take(id_view.len() as int) =~= id_view);
    cards
}

/// The cards of the workspace storage file's text, in display order; the
/// parser's message when the text is not JSON.
pub fn workspace_cards(text: &str) -> (r: Result<Vec<WorkspaceCard>, String>)
    ensures
        match json_text_value(text@) {
            Some(v) => r is Ok && r->Ok_0@.map_values(|c: WorkspaceCard| c.fields()) == cards_of(
                v,
                display_ids(v),
            ),
            None => r is Err,
        },
{
    let json = parse_json(text)?;
    Ok(parse_workspaces(&json))
}

} // verus!
