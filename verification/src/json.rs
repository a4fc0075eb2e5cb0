//! A plain model of JSON documents as the app-server and the dsh storage
//! files carry them, with exact accessors.
//!
//! Arrays and objects are linked lists, so that two documents with the same
//! contents are the same value. Object members keep the order in which the
//! document supplies them; a lookup yields the first member with the key.
use vstd::prelude::*;

use crate::text::{decimal, decimal_chars, str_eq, string_of};

verus! {

broadcast use vstd::string::group_string_axioms;

/// A JSON number: its value where it is an integer that fits, and its text.
#[derive(Debug, PartialEq)]
pub struct JsonNumber {
    /// The value when the number is an integer within `i64`.
    pub signed: Option<i64>,
    /// The value when the number is a non-negative integer within `u64`.
    pub unsigned: Option<u64>,
    /// The number as JSON text.
    pub text: String,
}

/// A JSON value.
#[derive(Debug, PartialEq)]
pub enum JsonValue {
    Null,
    Bool(bool),
    Number(JsonNumber),
    Str(String),
    Array(JsonList),
    Object(JsonMembers),
}

/// The items of a JSON array, first to last.
#[derive(Debug, PartialEq)]
pub enum JsonList {
    Nil,
    Cons(Box<JsonValue>, Box<JsonList>),
}

/// The members of a JSON object, in document order.
#[derive(Debug, PartialEq)]
pub enum JsonMembers {
    Nil,
    Cons(String, Box<JsonValue>, Box<JsonMembers>),
}

/// The character view of an optional string.
pub open spec fn opt_chars(o: Option<String>) -> Option<Seq<char>> {
    match o {
        Some(s) => Some(s@),
        None => None,
    }
}

/// The view of an optional `&str`.
pub open spec fn opt_str_chars(o: Option<&str>) -> Option<Seq<char>> {
    match o {
        Some(s) => Some(s@),
        None => None,
    }
}

impl JsonList {
    /// The items as a sequence.
    pub open spec fn items(self) -> Seq<JsonValue>
        decreases self,
    {
        match self {
            JsonList::Nil => Seq::empty(),
            JsonList::Cons(head, tail) => seq![*head] + tail.items(),
        }
    }

    /// References to the items, in order.
    pub fn item_refs(&self) -> (out: Vec<&JsonValue>)
        ensures
            out@.len() == self.items().len(),
            forall|i: int| 0 <= i < out@.len() ==> *out@[i] == self.items()[i],
        decreases self,
    {
        match self {
            JsonList::Nil => Vec::new(),
            JsonList::Cons(head, tail) => {
                let rest = tail.item_refs();
                let mut out: Vec<&JsonValue> = Vec::new();
                out.push(&**head);
                let mut i: usize = 0;
                while i < rest.len()
                    invariant
                        i <= rest.len(),
                        out@.len() == i + 1,
                        *out@[0] == **head,
                        rest@.len() == tail.items().len(),
                        forall|j: int| 0 <= j < rest@.len() ==> *rest@[j] == tail.items()[j],
                        forall|j: int| 1 <= j < out@.len() ==> *out@[j] == tail.items()[j - 1],
                    decreases rest.len() - i,
                {
                    out.push(rest[i]);
                    i = i + 1;
                }
                out
            },
        }
    }
}

/// The value of the first pair whose key is `key`.
pub open spec fn pairs_lookup(ps: Seq<(Seq<char>, JsonValue)>, key: Seq<char>) -> Option<JsonValue>
    decreases ps.len(),
{
    if ps.len() == 0 {
        None
    } else if ps[0].0 == key {
        Some(ps[0].1)
    } else {
        pairs_lookup(ps.drop_first(), key)
    }
}

impl JsonMembers {
    /// A lookup finds the first pair with the key.
    pub proof fn lemma_lookup_pairs(self, key: Seq<char>)
        ensures
            self.lookup(key) == pairs_lookup(self.pairs(), key),
        decreases self,
    {
        match self {
            JsonMembers::Nil => {},
            JsonMembers::Cons(k, v, rest) => {
                rest.lemma_lookup_pairs(key);
                assert((seq![(k@, *v)] + rest.pairs()).drop_first() =~= rest.pairs());
            },
        }
    }

    /// The first member whose key is `key`.
    pub open spec fn lookup(self, key: Seq<char>) -> Option<JsonValue>
        decreases self,
    {
        match self {
            JsonMembers::Nil => None,
            JsonMembers::Cons(k, v, rest) => if k@ == key {
                Some(*v)
            } else {
                rest.lookup(key)
            },
        }
    }

    /// The members as `(key, value)` pairs, in document order.
    pub open spec fn pairs(self) -> Seq<(Seq<char>, JsonValue)>
        decreases self,
    {
        match self {
            JsonMembers::Nil => Seq::empty(),
            JsonMembers::Cons(k, v, rest) => seq![(k@, *v)] + rest.pairs(),
        }
    }

    /// The first member whose key is `key`.
    pub fn find(&self, key: &str) -> (r: Option<&JsonValue>)
        ensures
            match r {
                Some(v) => self.lookup(key@) == Some(*v),
                None => self.lookup(key@) is None,
            },
        decreases self,
    {
        match self {
            JsonMembers::Nil => None,
            JsonMembers::Cons(k, v, rest) => {
                if str_eq(k.as_str(), key) {
                    Some(&**v)
                } else {
                    rest.find(key)
                }
            },
        }
    }

    /// References to the member keys and values, in document order.
    pub fn pair_refs(&self) -> (out: Vec<(&String, &JsonValue)>)
        ensures
            out@.len() == self.pairs().len(),
            forall|i: int|
                0 <= i < out@.len() ==> (#[trigger] out@[i]).0@ == self.pairs()[i].0 && *out@[i].1
                    == self.pairs()[i].1,
        decreases self,
    {
        match self {
            JsonMembers::Nil => Vec::new(),
            JsonMembers::Cons(k, v, rest) => {
                let tail = rest.pair_refs();
                let mut out: Vec<(&String, &JsonValue)> = Vec::new();
                out.push((k, &**v));
                let mut i: usize = 0;
                while i < tail.len()
                    invariant
                        i <= tail.len(),
                        out@.len() == i + 1,
                        out@[0].0@ == k@,
                        *out@[0].1 == **v,
                        tail@.len() == rest.pairs().len(),
                        forall|j: int|
                            0 <= j < tail@.len() ==> (#[trigger] tail@[j]).0@ == rest.pairs()[j].0
                                && *tail@[j].1 == rest.pairs()[j].1,
                        forall|j: int|
                            1 <= j < out@.len() ==> (#[trigger] out@[j]).0@ == rest.pairs()[j
                                - 1].0 && *out@[j].1 == rest.pairs()[j - 1].1,
                    decreases tail.len() - i,
                {
                    out.push(tail[i]);
                    i = i + 1;
                }
                out
            },
        }
    }
}

impl JsonValue {
    /// `value[key]` for an object; `None` for a missing key or a non-object.
    pub open spec fn field(self, key: Seq<char>) -> Option<JsonValue> {
        match self {
            JsonValue::Object(members) => members.lookup(key),
            _ => None,
        }
    }

    /// The string held by a string value.
    pub open spec fn str_value(self) -> Option<Seq<char>> {
        match self {
            JsonValue::Str(s) => Some(s@),
            _ => None,
        }
    }

    /// The value of a non-negative integer that fits in `u64`.
    pub open spec fn u64_value(self) -> Option<u64> {
        match self {
            JsonValue::Number(n) => n.unsigned,
            _ => None,
        }
    }

    /// The value of an integer that fits in `i64`.
    pub open spec fn i64_value(self) -> Option<i64> {
        match self {
            JsonValue::Number(n) => n.signed,
            _ => None,
        }
    }

    /// The value of a boolean.
    pub open spec fn bool_value(self) -> Option<bool> {
        match self {
            JsonValue::Bool(b) => Some(b),
            _ => None,
        }
    }

    /// The items of an array.
    pub open spec fn array_items(self) -> Option<Seq<JsonValue>> {
        match self {
            JsonValue::Array(items) => Some(items.items()),
            _ => None,
        }
    }

    /// `value[key]` when it is a string.
    pub open spec fn field_str(self, key: Seq<char>) -> Option<Seq<char>> {
        match self.field(key) {
            Some(v) => v.str_value(),
            None => None,
        }
    }

    /// `value[key]` when it is an integer within `u64`.
    pub open spec fn field_u64(self, key: Seq<char>) -> Option<u64> {
        match self.field(key) {
            Some(v) => v.u64_value(),
            None => None,
        }
    }

    /// `value[key]` when it is an integer within `i64`.
    pub open spec fn field_i64(self, key: Seq<char>) -> Option<i64> {
        match self.field(key) {
            Some(v) => v.i64_value(),
            None => None,
        }
    }

    /// `value[key]` when it is a boolean.
    pub open spec fn field_bool(self, key: Seq<char>) -> Option<bool> {
        match self.field(key) {
            Some(v) => v.bool_value(),
            None => None,
        }
    }

    /// `value[a][b]`.
    pub open spec fn field2(self, a: Seq<char>, b: Seq<char>) -> Option<JsonValue> {
        match self.field(a) {
            Some(v) => v.field(b),
            None => None,
        }
    }

    /// `value[a][b]` when it is a string.
    pub open spec fn field2_str(self, a: Seq<char>, b: Seq<char>) -> Option<Seq<char>> {
        match self.field2(a, b) {
            Some(v) => v.str_value(),
            None => None,
        }
    }

    /// `value[key]`.
    pub fn get(&self, key: &str) -> (r: Option<&JsonValue>)
        ensures
            match r {
                Some(v) => self.field(key@) == Some(*v),
                None => self.field(key@) is None,
            },
    {
        match self {
            JsonValue::Object(members) => members.find(key),
            _ => None,
        }
    }

    /// The string of a string value (`Value::as_str`).
    pub fn as_str(&self) -> (r: Option<&str>)
        ensures
            opt_str_chars(r) == self.str_value(),
    {
        match self {
            JsonValue::Str(s) => Some(s.as_str()),
            _ => None,
        }
    }

    /// `Value::as_u64`.
    pub fn as_u64(&self) -> (r: Option<u64>)
        ensures
            r == self.u64_value(),
    {
        match self {
            JsonValue::Number(n) => n.unsigned,
            _ => None,
        }
    }

    /// `Value::as_i64`.
    pub fn as_i64(&self) -> (r: Option<i64>)
        ensures
            r == self.i64_value(),
    {
        match self {
            JsonValue::Number(n) => n.signed,
            _ => None,
        }
    }

    /// `Value::as_bool`.
    pub fn as_bool(&self) -> (r: Option<bool>)
        ensures
            r == self.bool_value(),
    {
        match self {
            JsonValue::Bool(b) => Some(*b),
            _ => None,
        }
    }

    /// Whether this is `null`.
    pub fn is_null(&self) -> (r: bool)
        ensures
            r == (*self is Null),
    {
        match self {
            JsonValue::Null => true,
            _ => false,
        }
    }

    /// `value[key]` as an owned string, when it is a string.
    pub fn get_string(&self, key: &str) -> (r: Option<String>)
        ensures
            opt_chars(r) == self.field_str(key@),
    {
        match self.get(key) {
            Some(v) => match v {
                JsonValue::Str(s) => Some(s.clone()),
                _ => None,
            },
            None => None,
        }
    }

    /// `value[key]` when it is an integer within `u64`.
    pub fn get_u64(&self, key: &str) -> (r: Option<u64>)
        ensures
            r == self.field_u64(key@),
    {
        match self.get(key) {
            Some(v) => v.as_u64(),
            None => None,
        }
    }

    /// `value[key]` when it is an integer within `i64`.
    pub fn get_i64(&self, key: &str) -> (r: Option<i64>)
        ensures
            r == self.field_i64(key@),
    {
        match self.get(key) {
            Some(v) => v.as_i64(),
            None => None,
        }
    }

    /// `value[key]` when it is a boolean.
    pub fn get_bool(&self, key: &str) -> (r: Option<bool>)
        ensures
            r == self.field_bool(key@),
    {
        match self.get(key) {
            Some(v) => v.as_bool(),
            None => None,
        }
    }

    /// `value[a][b]` (the pointer `/a/b` for object keys).
    pub fn get2(&self, a: &str, b: &str) -> (r: Option<&JsonValue>)
        ensures
            match r {
                Some(v) => self.field2(a@, b@) == Some(*v),
                None => self.field2(a@, b@) is None,
            },
    {
        match self.get(a) {
            Some(v) => v.get(b),
            None => None,
        }
    }

    /// `value[a][b]` as an owned string, when it is a string.
    pub fn get2_string(&self, a: &str, b: &str) -> (r: Option<String>)
        ensures
            opt_chars(r) == self.field2_str(a@, b@),
    {
        match self.get2(a, b) {
            Some(v) => match v {
                JsonValue::Str(s) => Some(s.clone()),
                _ => None,
            },
            None => None,
        }
    }

    /// A structurally equal copy.
    pub fn duplicate(&self) -> (r: JsonValue)
        ensures
            r == *self,
        decreases self,
    {
        match self {
            JsonValue::Null => JsonValue::Null,
            JsonValue::Bool(b) => JsonValue::Bool(*b),
            JsonValue::Number(n) => JsonValue::Number(
                JsonNumber { signed: n.signed, unsigned: n.unsigned, text: n.text.clone() },
            ),
            JsonValue::Str(s) => JsonValue::Str(s.clone()),
            JsonValue::Array(items) => JsonValue::Array(items.duplicate()),
            JsonValue::Object(members) => JsonValue::Object(members.duplicate()),
        }
    }

    /// A string value.
    pub fn string(s: &str) -> (r: JsonValue)
        ensures
            r.str_value() == Some(s@),
    {
        JsonValue::Str(s.to_string())
    }

    /// A non-negative integer value.
    pub fn uint(n: u64) -> (r: JsonValue)
        ensures
            r.u64_value() == Some(n),
            r is Number && r->Number_0.text@ == decimal(n as nat),
    {
        let digits = decimal_chars(n);
        let text = string_of(&digits);
        let signed = if n <= 0x7fff_ffff_ffff_ffff {
            Some(n as i64)
        } else {
            None
        };
        JsonValue::Number(JsonNumber { signed, unsigned: Some(n), text })
    }

    /// An optional string: the string, or `null`.
    pub fn opt_string(s: &Option<String>) -> (r: JsonValue)
        ensures
            match s {
                Some(x) => r.str_value() == Some(x@),
                None => r is Null,
            },
    {
        match s {
            Some(x) => JsonValue::Str(x.clone()),
            None => JsonValue::Null,
        }
    }

    /// A copy of an optional member, as `params.get(key)` serialises:
    /// the member, or `null` where it is missing.
    pub fn field_or_null(&self, key: &str) -> (r: JsonValue)
        ensures
            r == or_null(self.field(key@)),
    {
        match self.get(key) {
            Some(v) => v.duplicate(),
            None => JsonValue::Null,
        }
    }
}

/// The value, or `null` for `None`.
pub open spec fn or_null(o: Option<JsonValue>) -> JsonValue {
    match o {
        Some(v) => v,
        None => JsonValue::Null,
    }
}

impl JsonList {
    /// A structurally equal copy.
    pub fn duplicate(&self) -> (r: JsonList)
        ensures
            r == *self,
        decreases self,
    {
        match self {
            JsonList::Nil => JsonList::Nil,
            JsonList::Cons(h, t) => JsonList::Cons(Box::new(h.duplicate()), Box::new(t.duplicate())),
        }
    }
}

impl JsonMembers {
    /// A structurally equal copy.
    pub fn duplicate(&self) -> (r: JsonMembers)
        ensures
            r == *self,
        decreases self,
    {
        match self {
            JsonMembers::Nil => JsonMembers::Nil,
            JsonMembers::Cons(k, v, rest) => JsonMembers::Cons(
                k.clone(),
                Box::new(v.duplicate()),
                Box::new(rest.duplicate()),
            ),
        }
    }
}

/// An object with the given members, in order.
pub fn object(members: Vec<(String, JsonValue)>) -> (r: JsonValue)
    ensures
        r is Object,
        forall|key: Seq<char>| #[trigger] r.field(key) == pairs_lookup(r->Object_0.pairs(), key),
        r->Object_0.pairs().len() == members@.len(),
        forall|i: int|
            0 <= i < members@.len() ==> r->Object_0.pairs()[i] == (
                #[trigger] members@[i].0@,
                members@[i].1,
            ),
{
    let mut members = members;
    let ghost orig = members@;
    let mut acc = JsonMembers::Nil;
    while members.len() > 0
        invariant
            members@ == orig.take(members@.len() as int),
            acc.pairs().len() == orig.len() - members@.len(),
            forall|i: int|
                0 <= i < acc.pairs().len() ==> acc.pairs()[i] == (
                    #[trigger] orig[i + members@.len()].0@,
                    orig[i + members@.len()].1,
                ),
        decreases members.len(),
    {
        let ghost m = members@.len() - 1;
        assert(orig[m] == members@[m]);
        let (k, v) = members.pop().unwrap();
        let ghost before = acc;
        acc = JsonMembers::Cons(k, Box::new(v), Box::new(acc));
        assert(acc.pairs() == seq![(k@, v)] + before.pairs());
        assert(members@ =~= orig.take(members@.len() as int));
        assert forall|i: int| 0 <= i < acc.pairs().len() implies acc.pairs()[i] == (
            #[trigger] orig[i + members@.len()].0@,
            orig[i + members@.len()].1,
        ) by {
            if i > 0 {
                assert(acc.pairs()[i] == before.pairs()[i - 1]);
                assert(orig[(i - 1) + (members@.len() + 1)] == orig[i + members@.len()]);
            }
        }
    }
    proof {
        assert forall|key: Seq<char>| #[trigger] JsonValue::Object(acc).field(key) == pairs_lookup(acc.pairs(), key) by {
            acc.lemma_lookup_pairs(key);
        }
    }
    JsonValue::Object(acc)
}

/// An array with the given items, in order.
pub fn array(items: Vec<JsonValue>) -> (r: JsonValue)
    ensures
        r is Array,
        r->Array_0.items() == items@,
{
    let mut items = items;
    let ghost orig = items@;
    let mut acc = JsonList::Nil;
    while items.len() > 0
        invariant
            items@.len() <= orig.len(),
            items@ == orig.take(items@.len() as int),
            acc.items() == orig.skip(items@.len() as int),
        decreases items.len(),
    {
        let ghost m = items@.len() - 1;
        assert(orig[m] == items@[m]);
        let ghost before = acc;
        let v = items.pop().unwrap();
        let ghost gv = v;
        acc = JsonList::Cons(Box::new(v), Box::new(acc));
        assert(acc.items() == seq![gv] + before.items());
        assert(items@ =~= orig.take(items@.len() as int));
        assert(acc.items() =~= orig.skip(items@.len() as int));
    }
    assert(orig.skip(0) =~= orig);
    JsonValue::Array(acc)
}

/// An object member with a literal key.
pub fn member(key: &str, value: JsonValue) -> (r: (String, JsonValue))
    ensures
        r.0@ == key@,
        r.1 == value,
{
    (key.to_string(), value)
}

/// The member whose key no earlier member has is what a lookup of that key
/// finds.
pub proof fn lemma_field_at(v: JsonValue, i: int)
    requires
        v is Object,
        0 <= i < v->Object_0.pairs().len(),
        forall|j: int| 0 <= j < i ==> v->Object_0.pairs()[j].0 != v->Object_0.pairs()[i].0,
    ensures
        v.field(v->Object_0.pairs()[i].0) == Some(v->Object_0.pairs()[i].1),
{
    let ps = v->Object_0.pairs();
    v->Object_0.lemma_lookup_pairs(ps[i].0);
    crate::session::lemma_lookup_at(ps, ps[i].0, i);
}

} // verus!
