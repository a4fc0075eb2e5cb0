//! The models and collaboration modes the app-server offers, and the
//! choice of model and reasoning effort for a turn.
use vstd::prelude::*;

use crate::json::{opt_chars, opt_str_chars, JsonValue};
use crate::runtime::CodexRuntime;
use crate::text::{concat, str_eq, trim, trimmed};
use crate::validate::{valid_identifier, validate_short_identifier};

verus! {

broadcast use vstd::string::group_string_axioms;

/// A reasoning effort a model supports.
#[derive(Debug)]
pub struct CodexReasoningEffort {
    pub reasoning_effort: String,
    pub description: String,
}

/// A model the app-server offers.
#[derive(Debug)]
pub struct CodexModelOption {
    pub id: String,
    pub model: String,
    pub display_name: String,
    pub hidden: bool,
    pub default_reasoning_effort: Option<String>,
    pub supported_reasoning_efforts: Vec<CodexReasoningEffort>,
    pub input_modalities: Vec<String>,
    pub is_default: bool,
}

/// The selectable models with the model and effort chosen by default.
#[derive(Debug)]
pub struct CodexModelCatalog {
    pub data: Vec<CodexModelOption>,
    pub selected_model: String,
    pub selected_effort: Option<String>,
}

/// A collaboration mode the app-server offers.
#[derive(Debug)]
pub struct CodexCollaborationModeOption {
    pub name: String,
    pub mode: String,
    pub model: Option<String>,
    pub reasoning_effort: Option<String>,
}

/// The collaboration modes a session can use.
#[derive(Debug)]
pub struct CodexCollaborationModeCatalog {
    pub data: Vec<CodexCollaborationModeOption>,
}

/// A model as plain values.
pub struct ModelView {
    pub id: Seq<char>,
    pub model: Seq<char>,
    pub display_name: Seq<char>,
    pub hidden: bool,
    pub default_effort: Option<Seq<char>>,
    pub efforts: Seq<(Seq<char>, Seq<char>)>,
    pub modalities: Seq<Seq<char>>,
    pub is_default: bool,
}

impl CodexModelOption {
    /// The model as plain values.
    pub open spec fn fields(self) -> ModelView {
        ModelView {
            id: self.id@,
            model: self.model@,
            display_name: self.display_name@,
            hidden: self.hidden,
            default_effort: opt_chars(self.default_reasoning_effort),
            efforts: self.supported_reasoning_efforts@.map_values(
                |e: CodexReasoningEffort| (e.reasoning_effort@, e.description@),
            ),
            modalities: self.input_modalities@.map_values(|s: String| s@),
            is_default: self.is_default,
        }
    }
}

/// The models of a list as plain values.
pub open spec fn models_view(s: Seq<CodexModelOption>) -> Seq<ModelView> {
    s.map_values(|o: CodexModelOption| o.fields())
}

/// A string member that defaults to empty: `None` when present but not a string.
pub open spec fn string_or_empty(v: JsonValue, key: Seq<char>) -> Option<Seq<char>> {
    match v.field(key) {
        None => Some(Seq::empty()),
        Some(x) => x.str_value(),
    }
}

/// A boolean member that defaults to false: `None` when present but not a boolean.
pub open spec fn bool_or_false(v: JsonValue, key: Seq<char>) -> Option<bool> {
    match v.field(key) {
        None => Some(false),
        Some(x) => x.bool_value(),
    }
}

/// An optional string member (absent or `null` is none): `None` when it is
/// something else.
pub open spec fn optional_string(v: JsonValue, key: Seq<char>) -> Option<Option<Seq<char>>> {
    match v.field(key) {
        None => Some(None),
        Some(x) => if x is Null {
            Some(None)
        } else {
            match x.str_value() {
                Some(s) => Some(Some(s)),
                None => None,
            }
        },
    }
}

/// The strings of an array: `None` when an item is not a string.
pub open spec fn strings_of(items: Seq<JsonValue>) -> Option<Seq<Seq<char>>>
    decreases items.len(),
{
    if items.len() == 0 {
        Some(Seq::empty())
    } else {
        match (strings_of(items.drop_last()), items.last().str_value()) {
            (Some(rest), Some(x)) => Some(rest.push(x)),
            _ => None,
        }
    }
}

/// An item that is not a string makes the whole array fail.
proof fn lemma_strings_fail(items: Seq<JsonValue>, k: int)
    requires
        0 <= k < items.len(),
        items[k].str_value() is None,
    ensures
        strings_of(items) is None,
    decreases items.len(),
{
    if k < items.len() - 1 {
        lemma_strings_fail(items.drop_last(), k);
    }
}

/// A list member of strings that defaults to empty.
pub open spec fn string_list(v: JsonValue, key: Seq<char>) -> Option<Seq<Seq<char>>> {
    match v.field(key) {
        None => Some(Seq::empty()),
        Some(x) => match x.array_items() {
            Some(items) => strings_of(items),
            None => None,
        },
    }
}

/// A reasoning effort entry: an object with a `reasoningEffort` string and
/// an optional `description` string.
pub open spec fn effort_of(v: JsonValue) -> Option<(Seq<char>, Seq<char>)> {
    if v is Object {
        match (v.field_str("reasoningEffort"@), string_or_empty(v, "description"@)) {
            (Some(e), Some(d)) => Some((e, d)),
            _ => None,
        }
    } else {
        None
    }
}

/// A reasoning effort entry takes its effort from `reasoningEffort` and its
/// description from `description` (empty when absent).
pub proof fn law_effort_reads_its_members(v: JsonValue)
    requires
        effort_of(v) is Some,
    ensures
        ({
            let (effort, description) = effort_of(v)->0;
            &&& v.field_str("reasoningEffort"@) == Some(effort)
            &&& v.field("description"@) is Some ==> v.field_str("description"@) == Some(description)
            &&& v.field("description"@) is None ==> description == Seq::<char>::empty()
        }),
{
}

/// The reasoning efforts of an array: `None` when one is malformed.
pub open spec fn efforts_of(items: Seq<JsonValue>) -> Option<Seq<(Seq<char>, Seq<char>)>>
    decreases items.len(),
{
    if items.len() == 0 {
        Some(Seq::empty())
    } else {
        match (efforts_of(items.drop_last()), effort_of(items.last())) {
            (Some(rest), Some(x)) => Some(rest.push(x)),
            _ => None,
        }
    }
}

/// A malformed effort makes the whole array fail.
proof fn lemma_efforts_fail(items: Seq<JsonValue>, k: int)
    requires
        0 <= k < items.len(),
        effort_of(items[k]) is None,
    ensures
        efforts_of(items) is None,
    decreases items.len(),
{
    if k < items.len() - 1 {
        lemma_efforts_fail(items.drop_last(), k);
    }
}

/// A list member of reasoning efforts that defaults to empty.
pub open spec fn effort_list(v: JsonValue, key: Seq<char>) -> Option<Seq<(Seq<char>, Seq<char>)>> {
    match v.field(key) {
        None => Some(Seq::empty()),
        Some(x) => match x.array_items() {
            Some(items) => efforts_of(items),
            None => None,
        },
    }
}

/// A model entry of `model/list`: an object with a `model` string; the
/// other members have defaults but must have their type when present.
pub open spec fn model_of(v: JsonValue) -> Option<ModelView> {
    if !(v is Object) {
        None
    } else {
        match (
            string_or_empty(v, "id"@),
            v.field_str("model"@),
            string_or_empty(v, "displayName"@),
            bool_or_false(v, "hidden"@),
            optional_string(v, "defaultReasoningEffort"@),
            effort_list(v, "supportedReasoningEfforts"@),
            string_list(v, "inputModalities"@),
            bool_or_false(v, "isDefault"@),
        ) {
            (Some(id), Some(model), Some(dn), Some(h), Some(de), Some(es), Some(ms), Some(d)) => Some(
                ModelView {
                    id,
                    model,
                    display_name: dn,
                    hidden: h,
                    default_effort: de,
                    efforts: es,
                    modalities: ms,
                    is_default: d,
                },
            ),
            _ => None,
        }
    }
}

/// A model entry read from `model/list` takes its name from `model`, its id
/// and display name from `id` and `displayName`, whether it is hidden or the
/// default from `hidden` and `isDefault` (false when absent), and its
/// default effort from `defaultReasoningEffort` (none when absent).
pub proof fn law_model_reads_its_members(v: JsonValue)
    requires
        model_of(v) is Some,
    ensures
        ({
            let m = model_of(v)->0;
            &&& v.field_str("model"@) == Some(m.model)
            &&& v.field("id"@) is Some ==> v.field_str("id"@) == Some(m.id)
            &&& v.field("displayName"@) is Some ==> v.field_str("displayName"@) == Some(m.display_name)
            &&& v.field("hidden"@) is Some ==> v.field("hidden"@)->0.bool_value() == Some(m.hidden)
            &&& v.field("hidden"@) is None ==> !m.hidden
            &&& v.field("isDefault"@) is Some ==> v.field("isDefault"@)->0.bool_value() == Some(m.is_default)
            &&& v.field("isDefault"@) is None ==> !m.is_default
            &&& v.field_str("defaultReasoningEffort"@) is Some ==> m.default_effort == v.field_str(
                "defaultReasoningEffort"@,
            )
            &&& v.field("defaultReasoningEffort"@) is None ==> m.default_effort is None
        }),
{
}

/// The models of an array: `None` when one is malformed.
pub open spec fn models_of(items: Seq<JsonValue>) -> Option<Seq<ModelView>>
    decreases items.len(),
{
    if items.len() == 0 {
        Some(Seq::empty())
    } else {
        match (models_of(items.drop_last()), model_of(items.last())) {
            (Some(rest), Some(x)) => Some(rest.push(x)),
            _ => None,
        }
    }
}

/// A malformed model makes the whole array fail.
proof fn lemma_models_fail(items: Seq<JsonValue>, k: int)
    requires
        0 <= k < items.len(),
        model_of(items[k]) is None,
    ensures
        models_of(items) is None,
    decreases items.len(),
{
    if k < items.len() - 1 {
        lemma_models_fail(items.drop_last(), k);
    }
}

/// A model the user can pick: not hidden, with a non-blank name.
pub open spec fn selectable(m: ModelView) -> bool {
    !m.hidden && trimmed(m.model).len() > 0
}

/// Whether a model supports a reasoning effort.
pub open spec fn supports_effort(m: ModelView, effort: Seq<char>) -> bool {
    exists|i: int| 0 <= i < m.efforts.len() && (#[trigger] m.efforts[i]).0 == effort
}

/// `i` is the first index of a model named `name`.
pub open spec fn is_first_model(models: Seq<ModelView>, name: Seq<char>, i: int) -> bool {
    &&& 0 <= i < models.len()
    &&& models[i].model == name
    &&& forall|j: int| 0 <= j < i ==> (#[trigger] models[j]).model != name
}

/// Some model is named `name`.
pub open spec fn has_model(models: Seq<ModelView>, name: Seq<char>) -> bool {
    exists|i: int| 0 <= i < models.len() && (#[trigger] models[i]).model == name
}

/// `i` is the first index of a default model.
pub open spec fn is_first_default(models: Seq<ModelView>, i: int) -> bool {
    &&& 0 <= i < models.len()
    &&& models[i].is_default
    &&& forall|j: int| 0 <= j < i ==> !(#[trigger] models[j]).is_default
}

/// Some model is the default.
pub open spec fn has_default(models: Seq<ModelView>) -> bool {
    exists|i: int| 0 <= i < models.len() && (#[trigger] models[i]).is_default
}

/// `i` is the index of the model chosen by default: the configured model
/// when offered, else the first default model, else the first model.
pub open spec fn selected_model_index(models: Seq<ModelView>, configured: Option<Seq<char>>, i: int) -> bool {
    if configured is Some && has_model(models, configured->0) {
        is_first_model(models, configured->0, i)
    } else if has_default(models) {
        is_first_default(models, i)
    } else {
        i == 0
    }
}

/// The index of the model chosen by default.
pub open spec fn default_choice(models: Seq<ModelView>, configured: Option<Seq<char>>) -> int {
    choose|i: int| selected_model_index(models, configured, i)
}

/// The first index of a model named `name`.
pub open spec fn first_model_index(models: Seq<ModelView>, name: Seq<char>) -> int {
    choose|i: int| is_first_model(models, name, i)
}

/// The first index of a model with a name is unique.
proof fn lemma_first_model_index(models: Seq<ModelView>, name: Seq<char>, i: int)
    requires
        is_first_model(models, name, i),
    ensures
        first_model_index(models, name) == i,
{
    let j = first_model_index(models, name);
    assert(is_first_model(models, name, j));
    if j < i {
        assert(models[j].model != name);
    }
    if i < j {
        assert(models[i].model != name);
    }
}

/// The model chosen by default is unique.
proof fn lemma_default_choice(models: Seq<ModelView>, configured: Option<Seq<char>>, i: int)
    requires
        selected_model_index(models, configured, i),
    ensures
        default_choice(models, configured) == i,
{
    let j = default_choice(models, configured);
    assert(selected_model_index(models, configured, j));
    if configured is Some && has_model(models, configured->0) {
        if j < i {
            assert(models[j].model != configured->0);
        }
        if i < j {
            assert(models[i].model != configured->0);
        }
    } else if has_default(models) {
        if j < i {
            assert(!models[j].is_default);
        }
        if i < j {
            assert(!models[i].is_default);
        }
    }
}

/// The models a user can pick, in order.
pub open spec fn selectable_models(models: Seq<ModelView>) -> Seq<ModelView>
    decreases models.len(),
{
    if models.len() == 0 {
        Seq::empty()
    } else if selectable(models.last()) {
        selectable_models(models.drop_last()).push(models.last())
    } else {
        selectable_models(models.drop_last())
    }
}

/// Why a `model/list` result yields no catalog, if it does not.
pub open spec fn catalog_problem(result: JsonValue) -> Option<Seq<char>> {
    match result.field("data"@) {
        None => Some("Codex app-server did not return a model list"@),
        Some(data) => match data.array_items() {
            None => Some("invalid Codex model list: expected an array of models"@),
            Some(items) => match models_of(items) {
                None => Some("invalid Codex model list: a model entry is malformed"@),
                Some(models) => if selectable_models(models).len() == 0 {
                    Some("Codex app-server returned no selectable models"@)
                } else {
                    None
                },
            },
        },
    }
}

/// The effort chosen by default for a model: the configured one when the
/// model supports it, else the model's default when supported, else its
/// first supported effort.
pub open spec fn selected_effort_for(m: ModelView, configured: Option<Seq<char>>) -> Option<
    Seq<char>,
> {
    if configured is Some && supports_effort(m, configured->0) {
        configured
    } else if m.default_effort is Some && supports_effort(m, m.default_effort->0) {
        m.default_effort
    } else if m.efforts.len() > 0 {
        Some(m.efforts[0].0)
    } else {
        None
    }
}

/// The effort selected for a model: the configured effort whenever the
/// model supports it; otherwise the model's default effort when supported;
/// otherwise its first effort; and none only for a model without efforts.
/// An effort selected is always one the model supports.
pub proof fn law_configured_effort_wins(m: ModelView, configured: Option<Seq<char>>)
    ensures
        ({
            let r = selected_effort_for(m, configured);
            let offers = |e: Seq<char>| exists|i: int| 0 <= i < m.efforts.len() && m.efforts[i].0 == e;
            &&& configured is Some && offers(configured->0) ==> r == configured
            &&& !(configured is Some && offers(configured->0)) && m.default_effort is Some && offers(
                m.default_effort->0,
            ) ==> r == m.default_effort
            &&& !(configured is Some && offers(configured->0)) && !(m.default_effort is Some
                && offers(m.default_effort->0)) && m.efforts.len() > 0 ==> r == Some(m.efforts[0].0)
            &&& r is None <==> m.efforts.len() == 0
            &&& r is Some ==> offers(r->0)
        }),
{
    let r = selected_effort_for(m, configured);
    if m.efforts.len() > 0 {
        assert(m.efforts[0].0 == m.efforts[0].0);
    }
    if configured is Some && supports_effort(m, configured->0) {
        let i = choose|i: int| 0 <= i < m.efforts.len() && (#[trigger] m.efforts[i]).0 == configured->0;
        assert(m.efforts[i].0 == configured->0);
    } else if m.default_effort is Some && supports_effort(m, m.default_effort->0) {
        let i = choose|i: int| 0 <= i < m.efforts.len() && (#[trigger] m.efforts[i]).0 == m.default_effort->0;
        assert(m.efforts[i].0 == m.default_effort->0);
    }
}

/// The model selected by default: the configured model whenever it is
/// offered (its first entry), else the first model marked default, else the
/// first model.
pub proof fn law_configured_model_wins(models: Seq<ModelView>, configured: Option<Seq<char>>, i: int)
    requires
        selected_model_index(models, configured, i),
    ensures
        configured is Some && (exists|j: int| 0 <= j < models.len() && models[j].model == configured->0)
            ==> 0 <= i < models.len() && models[i].model == configured->0 && forall|j: int|
            0 <= j < i ==> models[j].model != configured->0,
        !(configured is Some && (exists|j: int| 0 <= j < models.len() && models[j].model == configured->0))
            && (exists|j: int| 0 <= j < models.len() && models[j].is_default) ==> 0 <= i < models.len()
            && models[i].is_default && forall|j: int| 0 <= j < i ==> !models[j].is_default,
        !(configured is Some && (exists|j: int| 0 <= j < models.len() && models[j].model == configured->0))
            && !(exists|j: int| 0 <= j < models.len() && models[j].is_default) ==> i == 0,
{
    if configured is Some && (exists|j: int| 0 <= j < models.len() && models[j].model == configured->0) {
        let j = choose|j: int| 0 <= j < models.len() && models[j].model == configured->0;
        assert(models[j].model == configured->0);
        assert(has_model(models, configured->0));
    } else {
        if has_model(models, configured->0) {
            let j = choose|j: int| 0 <= j < models.len() && (#[trigger] models[j]).model == configured->0;
            assert(models[j].model == configured->0);
        }
        if exists|j: int| 0 <= j < models.len() && models[j].is_default {
            let j = choose|j: int| 0 <= j < models.len() && models[j].is_default;
            assert(models[j].is_default);
            assert(has_default(models));
        } else if has_default(models) {
            let j = choose|j: int| 0 <= j < models.len() && (#[trigger] models[j]).is_default;
            assert(models[j].is_default);
        }
    }
}

/// Reads a string member that defaults to empty.
fn read_string_or_empty(v: &JsonValue, key: &str) -> (r: Option<String>)
    ensures
        opt_chars(r) == string_or_empty(*v, key@),
{
    match v.get(key) {
        None => Some(String::new()),
        Some(x) => match x {
            JsonValue::Str(s) => Some(s.clone()),
            _ => None,
        },
    }
}

/// Reads a boolean member that defaults to false.
fn read_bool_or_false(v: &JsonValue, key: &str) -> (r: Option<bool>)
    ensures
        r == bool_or_false(*v, key@),
{
    match v.get(key) {
        None => Some(false),
        Some(x) => x.as_bool(),
    }
}

/// Reads an optional string member.
fn read_optional_string(v: &JsonValue, key: &str) -> (r: Option<Option<String>>)
    ensures
        match r {
            Some(o) => optional_string(*v, key@) == Some(opt_chars(o)),
            None => optional_string(*v, key@) is None,
        },
{
    match v.get(key) {
        None => Some(None),
        Some(x) => match x {
            JsonValue::Null => Some(None),
            JsonValue::Str(s) => Some(Some(s.clone())),
            _ => None,
        },
    }
}

/// Reads a list member of strings.
fn read_string_list(v: &JsonValue, key: &str) -> (r: Option<Vec<String>>)
    ensures
        match r {
            Some(l) => string_list(*v, key@) == Some(l@.map_values(|s: String| s@)),
            None => string_list(*v, key@) is None,
        },
{
    let x = match v.get(key) {
        None => return Some(Vec::new()),
        Some(x) => x,
    };
    let list = match x {
        JsonValue::Array(items) => items,
        _ => return None,
    };
    assert(string_list(*v, key@) == strings_of(list.items()));
    let items = list.item_refs();
    let ghost seq_items = list.items();
    let mut out: Vec<String> = Vec::new();
    let mut i: usize = 0;
    while i < items.len()
        invariant
            i <= items@.len(),
            items@.len() == seq_items.len(),
            forall|j: int| 0 <= j < items@.len() ==> *items@[j] == seq_items[j],
            strings_of(seq_items.take(i as int)) == Some(out@.map_values(|s: String| s@)),
            string_list(*v, key@) == strings_of(seq_items),
        decreases items.len() - i,
    {
        assert(seq_items.take((i + 1) as int).drop_last() =~= seq_items.take(i as int));
        match items[i] {
            JsonValue::Str(s) => {
                let ghost before = out@;
                out.push(s.clone());
                assert(out@.map_values(|s: String| s@) =~= before.map_values(|s: String| s@).push(s@));
            },
            _ => {
                proof {
                    lemma_strings_fail(seq_items, i as int);
                }
                return None;
            },
        }
        i = i + 1;
    }
    assert(seq_items.take(seq_items.len() as int) =~= seq_items);
    Some(out)
}

/// Reads one reasoning effort entry.
fn read_effort(v: &JsonValue) -> (r: Option<CodexReasoningEffort>)
    ensures
        match r {
            Some(e) => effort_of(*v) == Some((e.reasoning_effort@, e.description@)),
            None => effort_of(*v) is None,
        },
{
    match v {
        JsonValue::Object(_) => {},
        _ => return None,
    }
    let effort = match v.get_string("reasoningEffort") {
        Some(e) => e,
        None => return None,
    };
    let description = match read_string_or_empty(v, "description") {
        Some(d) => d,
        None => return None,
    };
    Some(CodexReasoningEffort { reasoning_effort: effort, description })
}

/// Reads a list member of reasoning efforts.
fn read_effort_list(v: &JsonValue, key: &str) -> (r: Option<Vec<CodexReasoningEffort>>)
    ensures
        match r {
            Some(l) => effort_list(*v, key@) == Some(
                l@.map_values(|e: CodexReasoningEffort| (e.reasoning_effort@, e.description@)),
            ),
            None => effort_list(*v, key@) is None,
        },
{
    let x = match v.get(key) {
        None => return Some(Vec::new()),
        Some(x) => x,
    };
    let list = match x {
        JsonValue::Array(items) => items,
        _ => return None,
    };
    let items = list.item_refs();
    let ghost seq_items = list.items();
    let mut out: Vec<CodexReasoningEffort> = Vec::new();
    let mut i: usize = 0;
    while i < items.len()
        invariant
            i <= items@.len(),
            items@.len() == seq_items.len(),
            forall|j: int| 0 <= j < items@.len() ==> *items@[j] == seq_items[j],
            efforts_of(seq_items.take(i as int)) == Some(
                out@.map_values(|e: CodexReasoningEffort| (e.reasoning_effort@, e.description@)),
            ),
            effort_list(*v, key@) == efforts_of(seq_items),
        decreases items.len() - i,
    {
        assert(seq_items.take((i + 1) as int).drop_last() =~= seq_items.take(i as int));
        match read_effort(items[i]) {
            Some(e) => {
                let ghost before = out@;
                let ghost ge = e;
                out.push(e);
                assert(out@.map_values(|e: CodexReasoningEffort| (e.reasoning_effort@, e.description@))
                    =~= before.map_values(
                    |e: CodexReasoningEffort| (e.reasoning_effort@, e.description@),
                ).push((ge.reasoning_effort@, ge.description@)));
            },
            None => {
                proof {
                    lemma_efforts_fail(seq_items, i as int);
                }
                return None;
            },
        }
        i = i + 1;
    }
    assert(seq_items.take(seq_items.len() as int) =~= seq_items);
    Some(out)
}

/// Reads one model entry of `model/list`.
pub fn read_model(v: &JsonValue) -> (r: Option<CodexModelOption>)
    ensures
        match r {
            Some(m) => model_of(*v) == Some(m.fields()),
            None => model_of(*v) is None,
        },
{
    match v {
        JsonValue::Object(_) => {},
        _ => return None,
    }
    let id = match read_string_or_empty(v, "id") {
        Some(x) => x,
        None => return None,
    };
    let model = match v.get_string("model") {
        Some(x) => x,
        None => return None,
    };
    let display_name = match read_string_or_empty(v, "displayName") {
        Some(x) => x,
        None => return None,
    };
    let hidden = match read_bool_or_false(v, "hidden") {
        Some(x) => x,
        None => return None,
    };
    let default_reasoning_effort = match read_optional_string(v, "defaultReasoningEffort") {
        Some(x) => x,
        None => return None,
    };
    let supported_reasoning_efforts = match read_effort_list(v, "supportedReasoningEfforts") {
        Some(x) => x,
        None => return None,
    };
    let input_modalities = match read_string_list(v, "inputModalities") {
        Some(x) => x,
        None => return None,
    };
    let is_default = match read_bool_or_false(v, "isDefault") {
        Some(x) => x,
        None => return None,
    };
    let m = CodexModelOption {
        id,
        model,
        display_name,
        hidden,
        default_reasoning_effort,
        supported_reasoning_efforts,
        input_modalities,
        is_default,
    };
    assert(model_of(*v) == Some(m.fields()));
    Some(m)
}

/// Reads the `data` array of a `model/list` result.
pub fn read_models(data: &JsonValue) -> (r: Option<Vec<CodexModelOption>>)
    ensures
        match r {
            Some(l) => data.array_items() is Some && models_of(data.array_items()->0) == Some(
                models_view(l@),
            ),
            None => data.array_items() is None || models_of(data.array_items()->0) is None,
        },
{
    let list = match data {
        JsonValue::Array(items) => items,
        _ => return None,
    };
    let items = list.item_refs();
    let ghost seq_items = list.items();
    let mut out: Vec<CodexModelOption> = Vec::new();
    let mut i: usize = 0;
    while i < items.len()
        invariant
            i <= items@.len(),
            items@.len() == seq_items.len(),
            forall|j: int| 0 <= j < items@.len() ==> *items@[j] == seq_items[j],
            models_of(seq_items.take(i as int)) == Some(models_view(out@)),
            data.array_items() == Some(seq_items),
        decreases items.len() - i,
    {
        assert(seq_items.take((i + 1) as int).drop_last() =~= seq_items.take(i as int));
        match read_model(items[i]) {
            Some(m) => {
                let ghost before = out@;
                let ghost gm = m;
                out.push(m);
                assert(models_view(out@) =~= models_view(before).push(gm.fields()));
            },
            None => {
                proof {
                    lemma_models_fail(seq_items, i as int);
                }
                return None;
            },
        }
        i = i + 1;
    }
    assert(seq_items.take(seq_items.len() as int) =~= seq_items);
    Some(out)
}

/// Whether a model supports a reasoning effort.
fn model_supports(m: &CodexModelOption, effort: &str) -> (r: bool)
    ensures
        r == supports_effort(m.fields(), effort@),
{
    let mut i: usize = 0;
    while i < m.supported_reasoning_efforts.len()
        invariant
            i <= m.supported_reasoning_efforts@.len(),
            forall|j: int| 0 <= j < i ==> (#[trigger] m.fields().efforts[j]).0 != effort@,
        decreases m.supported_reasoning_efforts.len() - i,
    {
        if str_eq(m.supported_reasoning_efforts[i].reasoning_effort.as_str(), effort) {
            assert(m.fields().efforts[i as int].0 == effort@);
            return true;
        }
        i = i + 1;
    }
    false
}

/// The first model named `name`.
fn find_model(models: &Vec<CodexModelOption>, name: &str) -> (r: Option<usize>)
    ensures
        match r {
            Some(i) => is_first_model(models_view(models@), name@, i as int),
            None => !has_model(models_view(models@), name@),
        },
{
    let mut i: usize = 0;
    while i < models.len()
        invariant
            i <= models@.len(),
            forall|j: int| 0 <= j < i ==> (#[trigger] models_view(models@)[j]).model != name@,
        decreases models.len() - i,
    {
        if str_eq(models[i].model.as_str(), name) {
            return Some(i);
        }
        i = i + 1;
    }
    None
}

/// The first default model.
fn find_default(models: &Vec<CodexModelOption>) -> (r: Option<usize>)
    ensures
        match r {
            Some(i) => is_first_default(models_view(models@), i as int),
            None => !has_default(models_view(models@)),
        },
{
    let mut i: usize = 0;
    while i < models.len()
        invariant
            i <= models@.len(),
            forall|j: int| 0 <= j < i ==> !(#[trigger] models_view(models@)[j]).is_default,
        decreases models.len() - i,
    {
        if models[i].is_default {
            return Some(i);
        }
        i = i + 1;
    }
    None
}

/// Keeps the models a user can pick, in order.
fn keep_selectable(models: Vec<CodexModelOption>) -> (r: Vec<CodexModelOption>)
    ensures
        models_view(r@) == selectable_models(models_view(models@)),
{
    let ghost orig = models_view(models@);
    let mut rest = models;
    let mut out: Vec<CodexModelOption> = Vec::new();
    let mut consumed: usize = 0;
    let n = rest.len();
    assert(orig.len() == n);
    while rest.len() > 0
        invariant
            consumed + rest@.len() == orig.len(),
            orig.len() <= usize::MAX,
            models_view(rest@) == orig.skip(consumed as int),
            models_view(out@) == selectable_models(orig.take(consumed as int)),
        decreases rest.len(),
    {
        let ghost before_rest = rest@;
        let m = rest.remove(0);
        assert(models_view(before_rest)[0] == m.fields());
        assert(orig.take((consumed + 1) as int).drop_last() =~= orig.take(consumed as int));
        assert(orig.skip(consumed as int)[0] == orig[consumed as int]);
        assert(orig.take((consumed + 1) as int).last() == m.fields());
        assert(rest@ =~= before_rest.subrange(1, before_rest.len() as int));
        assert forall|k: int| 0 <= k < rest@.len() implies #[trigger] models_view(rest@)[k] == orig.skip((consumed + 1) as int)[k] by {
            assert(rest@[k] == before_rest[k + 1]);
            assert(models_view(before_rest)[k + 1] == orig.skip(consumed as int)[k + 1]);
        }
        assert(models_view(rest@) =~= orig.skip((consumed + 1) as int));
        let keep = !m.hidden && !trim(m.model.as_str()).as_str().is_empty();
        if keep {
            let ghost before = out@;
            let ghost gm = m;
            out.push(m);
            assert(models_view(out@) =~= models_view(before).push(gm.fields()));
        }
        consumed = consumed + 1;
    }
    assert(orig.take(orig.len() as int) =~= orig);
    out
}

/// The effort chosen by default for a model.
fn effort_for(m: &CodexModelOption, configured: Option<&str>) -> (r: Option<String>)
    ensures
        opt_chars(r) == selected_effort_for(m.fields(), opt_str_chars(configured)),
{
    match configured {
        Some(c) => {
            if model_supports(m, c) {
                return Some(c.to_string());
            }
        },
        None => {},
    }
    match &m.default_reasoning_effort {
        Some(d) => {
            if model_supports(m, d.as_str()) {
                return Some(d.clone());
            }
        },
        None => {},
    }
    if m.supported_reasoning_efforts.len() > 0 {
        assert(m.fields().efforts[0].0 == m.supported_reasoning_efforts@[0].reasoning_effort@);
        Some(m.supported_reasoning_efforts[0].reasoning_effort.clone())
    } else {
        None
    }
}

/// Builds the model catalog from a `model/list` result and the model and
/// effort last configured: the selectable models, the configured model if
/// still offered (else the first default model, else the first model), and
/// the configured effort if that model supports it (else its default when
/// supported, else its first effort).
pub fn build_model_catalog(
    result: &JsonValue,
    configured_model: Option<&str>,
    configured_effort: Option<&str>,
) -> (r: Result<CodexModelCatalog, String>)
    ensures
        match r {
            Ok(catalog) => {
                &&& catalog_problem(*result) is None
                &&& models_of(result.field("data"@)->0.array_items()->0) is Some
                &&& models_view(catalog.data@) == selectable_models(
                    models_of(result.field("data"@)->0.array_items()->0)->0,
                )
                &&& ({
                    let i = default_choice(models_view(catalog.data@), opt_str_chars(configured_model));
                    &&& selected_model_index(
                        models_view(catalog.data@),
                        opt_str_chars(configured_model),
                        i,
                    )
                    &&& catalog.selected_model@ == catalog.data@[i].model@
                    &&& opt_chars(catalog.selected_effort) == selected_effort_for(
                        catalog.data@[i].fields(),
                        opt_str_chars(configured_effort),
                    )
                })
            },
            Err(e) => catalog_problem(*result) == Some(e@),
        },
{
    let data = match result.get("data") {
        Some(d) => d,
        None => return Err("Codex app-server did not return a model list".to_string()),
    };
    match data {
        JsonValue::Array(_) => {},
        _ => return Err("invalid Codex model list: expected an array of models".to_string()),
    }
    let models = match read_models(data) {
        Some(m) => m,
        None => return Err("invalid Codex model list: a model entry is malformed".to_string()),
    };
    let models = keep_selectable(models);
    if models.len() == 0 {
        return Err("Codex app-server returned no selectable models".to_string());
    }
    let by_name = match configured_model {
        Some(c) => find_model(&models, c),
        None => None,
    };
    let index = match by_name {
        Some(i) => i,
        None => match find_default(&models) {
            Some(i) => i,
            None => 0,
        },
    };
    assert(selected_model_index(models_view(models@), opt_str_chars(configured_model), index as int));
    let selected_model = models[index].model.clone();
    let selected_effort = effort_for(&models[index], configured_effort);
    assert(models_view(models@)[index as int] == models@[index as int].fields());
    let catalog = CodexModelCatalog { data: models, selected_model, selected_effort };
    proof {
        lemma_default_choice(models_view(catalog.data@), opt_str_chars(configured_model), index as int);
    }
    assert(selected_model_index(models_view(catalog.data@), opt_str_chars(configured_model), index as int)
        && catalog.selected_model@ == catalog.data@[index as int].model@
        && opt_chars(catalog.selected_effort) == selected_effort_for(
        catalog.data@[index as int].fields(),
        opt_str_chars(configured_effort),
    ));
    Ok(catalog)
}

/// Checks the model and effort a prompt asks for, before the catalog is read.
pub fn check_model_request(model: Option<&str>, effort: Option<&str>) -> (r: Result<(), String>)
    ensures
        match r {
            Ok(_) => (model is Some ==> valid_identifier(model->0@)) && (effort is Some
                ==> valid_identifier(effort->0@)),
            Err(e) => if model is Some && !valid_identifier(model->0@) {
                e@ == "Invalid Codex model"@
            } else {
                effort is Some && !valid_identifier(effort->0@) && e@
                    == "Invalid Codex reasoning effort"@
            },
        },
{
    proof {
        reveal_strlit("Invalid Codex ");
        reveal_strlit("model");
        reveal_strlit("Invalid Codex model");
        reveal_strlit("reasoning effort");
        reveal_strlit("Invalid Codex reasoning effort");
        assert("Invalid Codex "@ + "model"@ =~= "Invalid Codex model"@);
        assert("Invalid Codex "@ + "reasoning effort"@ =~= "Invalid Codex reasoning effort"@);
    }
    match model {
        Some(m) => validate_short_identifier("model", m)?,
        None => {},
    }
    match effort {
        Some(e) => validate_short_identifier("reasoning effort", e)?,
        None => {},
    }
    Ok(())
}

/// The model a turn asks for: the requested one, else the catalog's.
pub open spec fn requested_name(catalog: CodexModelCatalog, requested_model: Option<&str>) -> Seq<char> {
    match requested_model {
        Some(m) => m@,
        None => catalog.selected_model@,
    }
}

/// The effort a turn asks for with the model at index `i`: the requested
/// one, else the catalog's effort for its own model, else the model's default.
pub open spec fn requested_effort_for(
    catalog: CodexModelCatalog,
    requested_model: Option<&str>,
    requested_effort: Option<&str>,
    i: int,
) -> Option<Seq<char>> {
    if requested_effort is Some {
        opt_str_chars(requested_effort)
    } else if requested_name(catalog, requested_model) == catalog.selected_model@ {
        opt_chars(catalog.selected_effort)
    } else {
        models_view(catalog.data@)[i].default_effort
    }
}

/// The model and effort chosen for a turn.
pub open spec fn model_chosen(
    catalog: CodexModelCatalog,
    requested_model: Option<&str>,
    requested_effort: Option<&str>,
    model: String,
    effort: Option<String>,
) -> bool {
    let models = models_view(catalog.data@);
    let name = requested_name(catalog, requested_model);
    let i = first_model_index(models, name);
    &&& model@ == name
    &&& is_first_model(models, name, i)
    &&& opt_chars(effort) == requested_effort_for(catalog, requested_model, requested_effort, i)
    &&& effort is Some ==> supports_effort(models[i], effort->0@)
}

/// Why the model and effort a turn asks for are refused.
pub open spec fn model_refused(
    catalog: CodexModelCatalog,
    requested_model: Option<&str>,
    requested_effort: Option<&str>,
    e: Seq<char>,
) -> bool {
    let models = models_view(catalog.data@);
    let name = requested_name(catalog, requested_model);
    let i = first_model_index(models, name);
    let effort = requested_effort_for(catalog, requested_model, requested_effort, i);
    if !has_model(models, name) {
        e == "Codex model is not available: "@ + name
    } else {
        &&& is_first_model(models, name, i)
        &&& effort is Some
        &&& !supports_effort(models[i], effort->0)
        &&& e == "Reasoning effort '"@ + effort->0 + "' is not supported by model '"@ + name + "'"@
    }
}

/// Chooses the model and effort of a turn from the catalog: the requested
/// model (else the catalog's), which must be offered; the requested effort,
/// else the catalog's effort for its own model, else the model's default;
/// an effort must be supported by the model.
pub fn choose_model(
    catalog: &CodexModelCatalog,
    requested_model: Option<&str>,
    requested_effort: Option<&str>,
) -> (r: Result<(String, Option<String>), String>)
    ensures
        match r {
            Ok((model, effort)) => model_chosen(*catalog, requested_model, requested_effort, model, effort),
            Err(e) => model_refused(*catalog, requested_model, requested_effort, e@),
        },
{
    let model: String = match requested_model {
        Some(m) => m.to_string(),
        None => catalog.selected_model.clone(),
    };
    let index = match find_model(&catalog.data, model.as_str()) {
        Some(i) => i,
        None => return Err(concat("Codex model is not available: ", model.as_str())),
    };
    let selected = &catalog.data[index];
    assert(models_view(catalog.data@)[index as int] == selected.fields());
    let effort: Option<String> = match requested_effort {
        Some(e) => Some(e.to_string()),
        None => if str_eq(model.as_str(), catalog.selected_model.as_str()) {
            crate::session::copy_opt(&catalog.selected_effort)
        } else {
            crate::session::copy_opt(&selected.default_reasoning_effort)
        },
    };
    match &effort {
        Some(v) => {
            if !model_supports(selected, v.as_str()) {
                proof {
                    lemma_first_model_index(models_view(catalog.data@), model@, index as int);
                }
                let mut msg = concat("Reasoning effort '", v.as_str());
                crate::text::append_str(&mut msg, "' is not supported by model '");
                crate::text::append_str(&mut msg, model.as_str());
                crate::text::append_str(&mut msg, "'");
                return Err(msg);
            }
        },
        None => {},
    }
    proof {
        lemma_first_model_index(models_view(catalog.data@), model@, index as int);
    }
    Ok((model, effort))
}

/// A collaboration mode as plain values.
pub struct ModeView {
    pub name: Seq<char>,
    pub mode: Seq<char>,
    pub model: Option<Seq<char>>,
    pub effort: Option<Seq<char>>,
}

impl CodexCollaborationModeOption {
    /// The mode as plain values.
    pub open spec fn fields(self) -> ModeView {
        ModeView {
            name: self.name@,
            mode: self.mode@,
            model: opt_chars(self.model),
            effort: opt_chars(self.reasoning_effort),
        }
    }
}

/// An entry of `collaborationMode/list` that a session can use: one whose
/// `mode` is `default` or `plan`, named after its mode when it has no name.
pub open spec fn mode_entry(v: JsonValue) -> Option<ModeView> {
    match v.field_str("mode"@) {
        Some(m) => if m == "default"@ || m == "plan"@ {
            Some(
                ModeView {
                    name: match v.field_str("name"@) {
                        Some(n) => n,
                        None => m,
                    },
                    mode: m,
                    model: v.field_str("model"@),
                    effort: v.field_str("reasoning_effort"@),
                },
            )
        } else {
            None
        },
        None => None,
    }
}

/// A collaboration mode entry is usable exactly when its `mode` is
/// `default` or `plan`; it keeps that mode, its `name` (else the mode), its
/// `model` and its `reasoning_effort`.
pub proof fn law_mode_reads_its_members(v: JsonValue)
    ensures
        mode_entry(v) is Some <==> (v.field_str("mode"@) == Some("default"@) || v.field_str("mode"@)
            == Some("plan"@)),
        mode_entry(v) is Some ==> {
            let e = mode_entry(v)->0;
            &&& Some(e.mode) == v.field_str("mode"@)
            &&& e.name == (match v.field_str("name"@) {
                Some(n) => n,
                None => e.mode,
            })
            &&& e.model == v.field_str("model"@)
            &&& e.effort == v.field_str("reasoning_effort"@)
        },
{
}

/// The usable entries of `collaborationMode/list`, in order.
pub open spec fn mode_entries(items: Seq<JsonValue>) -> Seq<ModeView>
    decreases items.len(),
{
    if items.len() == 0 {
        Seq::empty()
    } else {
        match mode_entry(items.last()) {
            Some(m) => mode_entries(items.drop_last()).push(m),
            None => mode_entries(items.drop_last()),
        }
    }
}

/// Some entry has the mode `mode`.
pub open spec fn offers_mode(entries: Seq<ModeView>, mode: Seq<char>) -> bool {
    exists|i: int| 0 <= i < entries.len() && (#[trigger] entries[i]).mode == mode
}

/// Why a `collaborationMode/list` result yields no catalog, if it does not.
pub open spec fn modes_problem(result: JsonValue) -> Option<Seq<char>> {
    match result.field("data"@) {
        Some(d) => match d.array_items() {
            Some(items) => if offers_mode(mode_entries(items), "default"@) && offers_mode(
                mode_entries(items),
                "plan"@,
            ) {
                None
            } else {
                Some("Codex app-server did not advertise default and plan modes"@)
            },
            None => Some("Codex app-server did not return collaboration modes"@),
        },
        None => Some("Codex app-server did not return collaboration modes"@),
    }
}

/// Builds the collaboration mode catalog from a `collaborationMode/list`
/// result: the `default` and `plan` entries, both of which must be offered.
pub fn build_collaboration_catalog(result: &JsonValue) -> (r: Result<
    CodexCollaborationModeCatalog,
    String,
>)
    ensures
        match r {
            Ok(c) => modes_problem(*result) is None && c.data@.map_values(
                |o: CodexCollaborationModeOption| o.fields(),
            ) == mode_entries(result.field("data"@)->0.array_items()->0),
            Err(e) => modes_problem(*result) == Some(e@),
        },
{
    let list = match result.get("data") {
        Some(d) => match d {
            JsonValue::Array(items) => items,
            _ => return Err("Codex app-server did not return collaboration modes".to_string()),
        },
        None => return Err("Codex app-server did not return collaboration modes".to_string()),
    };
    let items = list.item_refs();
    let ghost seq_items = list.items();
    let mut out: Vec<CodexCollaborationModeOption> = Vec::new();
    let mut has_default = false;
    let mut has_plan = false;
    let mut i: usize = 0;
    proof {
        reveal_strlit("default");
        reveal_strlit("plan");
    }
    while i < items.len()
        invariant
            i <= items@.len(),
            items@.len() == seq_items.len(),
            forall|j: int| 0 <= j < items@.len() ==> *items@[j] == seq_items[j],
            out@.map_values(|o: CodexCollaborationModeOption| o.fields()) == mode_entries(
                seq_items.take(i as int),
            ),
            has_default == offers_mode(mode_entries(seq_items.take(i as int)), "default"@),
            has_plan == offers_mode(mode_entries(seq_items.take(i as int)), "plan"@),
        decreases items.len() - i,
    {
        let entry = items[i];
        let ghost prev = mode_entries(seq_items.take(i as int));
        assert(seq_items.take((i + 1) as int).drop_last() =~= seq_items.take(i as int));
        match entry.get_string("mode") {
            Some(mode) => {
                let is_default = str_eq(mode.as_str(), "default");
                let is_plan = str_eq(mode.as_str(), "plan");
                if is_default || is_plan {
                    let name = match entry.get_string("name") {
                        Some(n) => n,
                        None => mode.clone(),
                    };
                    let option = CodexCollaborationModeOption {
                        name,
                        mode,
                        model: entry.get_string("model"),
                        reasoning_effort: entry.get_string("reasoning_effort"),
                    };
                    let ghost go = option;
                    let ghost before = out@;
                    out.push(option);
                    assert(out@.map_values(|o: CodexCollaborationModeOption| o.fields()) =~= before.map_values(
                        |o: CodexCollaborationModeOption| o.fields(),
                    ).push(go.fields()));
                    let ghost now_entries = prev.push(go.fields());
                    assert(offers_mode(now_entries, "default"@) == (offers_mode(prev, "default"@)
                        || go.fields().mode == "default"@)) by {
                        if go.fields().mode == "default"@ {
                            assert(now_entries[prev.len() as int].mode == "default"@);
                        }
                        if offers_mode(now_entries, "default"@) && go.fields().mode != "default"@ {
                            let k = choose|k: int| 0 <= k < now_entries.len() && (#[trigger] now_entries[k]).mode == "default"@;
                            assert(prev[k].mode == "default"@);
                        }
                        if offers_mode(prev, "default"@) {
                            let k = choose|k: int| 0 <= k < prev.len() && (#[trigger] prev[k]).mode == "default"@;
                            assert(now_entries[k].mode == "default"@);
                        }
                    }
                    assert(offers_mode(now_entries, "plan"@) == (offers_mode(prev, "plan"@)
                        || go.fields().mode == "plan"@)) by {
                        if go.fields().mode == "plan"@ {
                            assert(now_entries[prev.len() as int].mode == "plan"@);
                        }
                        if offers_mode(now_entries, "plan"@) && go.fields().mode != "plan"@ {
                            let k = choose|k: int| 0 <= k < now_entries.len() && (#[trigger] now_entries[k]).mode == "plan"@;
                            assert(prev[k].mode == "plan"@);
                        }
                        if offers_mode(prev, "plan"@) {
                            let k = choose|k: int| 0 <= k < prev.len() && (#[trigger] prev[k]).mode == "plan"@;
                            assert(now_entries[k].mode == "plan"@);
                        }
                    }
                    has_default = has_default || is_default;
                    has_plan = has_plan || is_plan;
                }
            },
            None => {},
        }
        i = i + 1;
    }
    assert(seq_items.take(seq_items.len() as int) =~= seq_items);
    if !(has_default && has_plan) {
        return Err("Codex app-server did not advertise default and plan modes".to_string());
    }
    Ok(CodexCollaborationModeCatalog { data: out })
}

impl CodexRuntime {
    /// The model and collaboration mode lists need a running Codex app-server.
    pub fn require_app_server(&self) -> (r: Result<(), String>)
        ensures
            r is Ok <==> (self.status.backend@ == "codex"@ && self.status.app_server_running),
            match r {
                Err(e) => e@ == "Codex app-server is not running"@,
                Ok(_) => true,
            },
    {
        if !str_eq(self.status.backend.as_str(), "codex") || !self.status.app_server_running {
            return Err("Codex app-server is not running".to_string());
        }
        Ok(())
    }
}

} // verus!
