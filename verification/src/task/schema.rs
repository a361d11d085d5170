//! What a reply has to look like: the shape of a task in JSON, stated as
//! functions from a document to what decoding it gives.
//!
//! The decoder in `tasks` is proved to compute exactly these functions.

use super::json::{Json, JsonNumber};
use vstd::prelude::*;

verus! {

/// A field of a task object.
#[derive(Clone, Copy, Debug, PartialEq, Eq)]
pub enum TaskField {
    Text,
    Frequency,
    TaskType,
    Notes,
    Repeat,
    EveryX,
    NextDue,
    Completed,
    IsDue,
    Checklist,
}

/// A field of a checklist item. All three are required.
#[derive(Clone, Copy, Debug, PartialEq, Eq)]
pub enum ItemField {
    Completed,
    Text,
    Id,
}

/// What is wrong with the value under a key.
#[derive(Clone, Copy, Debug, PartialEq, Eq)]
pub enum Fault {
    /// The value is not of the JSON type that the field has. For a mask of
    /// days this includes a day that is no boolean.
    WrongType,
    /// In a list of strings, the entry at this position is no string.
    Entry(usize),
    /// In a checklist, the item at this position lacks this field, or holds
    /// a value of another type in it.
    Item(usize, ItemField),
}

/// Why a task object was rejected: the first field, in the order of
/// `TaskField`, whose value is not as it has to be.
#[derive(Clone, Copy, Debug, PartialEq, Eq)]
pub struct TaskError {
    pub field: TaskField,
    pub fault: Fault,
}

/// Why a reply was rejected.
#[derive(Clone, Copy, Debug, PartialEq, Eq)]
pub enum DecodeError {
    /// The reply has no `"data"` member, or one that is no array.
    Data,
    /// The task at this position of `"data"` was rejected. No task before
    /// it was.
    Task(usize, TaskError),
}

/// A checklist item, as a mathematical value.
pub struct ChecklistItemView {
    pub completed: bool,
    pub text: Seq<char>,
    pub id: Seq<char>,
}

/// A task, as a mathematical value. `None` is a field that the reply did
/// not hold.
pub struct TaskView {
    pub text: Option<Seq<char>>,
    pub frequency: Option<Seq<char>>,
    pub task_type: Option<Seq<char>>,
    pub notes: Option<Seq<char>>,
    pub repeat: Option<Map<Seq<char>, bool>>,
    pub every_x: Option<i64>,
    pub next_due: Option<Seq<Seq<char>>>,
    pub completed: Option<bool>,
    pub is_due: Option<bool>,
    pub checklist: Option<Seq<ChecklistItemView>>,
}

impl TaskField {
    /// The key under which a task object holds the field.
    pub open spec fn key(self) -> Seq<char> {
        match self {
            TaskField::Text => "text"@,
            TaskField::Frequency => "frequency"@,
            TaskField::TaskType => "type"@,
            TaskField::Notes => "notes"@,
            TaskField::Repeat => "repeat"@,
            TaskField::EveryX => "everyX"@,
            TaskField::NextDue => "nextDue"@,
            TaskField::Completed => "completed"@,
            TaskField::IsDue => "isDue"@,
            TaskField::Checklist => "checklist"@,
        }
    }

    /// The key under which a task object holds the field.
    pub fn name(&self) -> (key: &'static str)
        ensures
            key@ == self.key(),
    {
        match self {
            TaskField::Text => "text",
            TaskField::Frequency => "frequency",
            TaskField::TaskType => "type",
            TaskField::Notes => "notes",
            TaskField::Repeat => "repeat",
            TaskField::EveryX => "everyX",
            TaskField::NextDue => "nextDue",
            TaskField::Completed => "completed",
            TaskField::IsDue => "isDue",
            TaskField::Checklist => "checklist",
        }
    }
}

impl ItemField {
    /// The key under which a checklist item holds the field.
    pub open spec fn key(self) -> Seq<char> {
        match self {
            ItemField::Completed => "completed"@,
            ItemField::Text => "text"@,
            ItemField::Id => "id"@,
        }
    }

    /// The key under which a checklist item holds the field.
    pub fn name(&self) -> (key: &'static str)
        ensures
            key@ == self.key(),
    {
        match self {
            ItemField::Completed => "completed",
            ItemField::Text => "text",
            ItemField::Id => "id",
        }
    }
}

impl TaskView {
    /// Whether the task is one that comes of a reply: such a task holds a
    /// mask of days and a checklist, whatever else it holds.
    pub open spec fn decoded(self) -> bool {
        self.repeat is Some && self.checklist is Some
    }

    /// Whether the task holds the field.
    pub open spec fn has(self, field: TaskField) -> bool {
        match field {
            TaskField::Text => self.text is Some,
            TaskField::Frequency => self.frequency is Some,
            TaskField::TaskType => self.task_type is Some,
            TaskField::Notes => self.notes is Some,
            TaskField::Repeat => self.repeat is Some,
            TaskField::EveryX => self.every_x is Some,
            TaskField::NextDue => self.next_due is Some,
            TaskField::Completed => self.completed is Some,
            TaskField::IsDue => self.is_due is Some,
            TaskField::Checklist => self.checklist is Some,
        }
    }
}

/// `i` is the first position of `s` at which `rejected` holds.
pub open spec fn is_first<T>(s: Seq<T>, rejected: spec_fn(T) -> bool, i: int) -> bool {
    &&& 0 <= i < s.len()
    &&& rejected(s[i])
    &&& forall|j: int| 0 <= j < i ==> !rejected(#[trigger] s[j])
}

/// The first position of `s` at which `rejected` holds, where there is one.
pub open spec fn first_rejected<T>(s: Seq<T>, rejected: spec_fn(T) -> bool) -> int {
    choose|i: int| is_first(s, rejected, i)
}

/// There is at most one first position.
pub proof fn lemma_first_rejected<T>(s: Seq<T>, rejected: spec_fn(T) -> bool, i: int)
    requires
        is_first(s, rejected, i),
    ensures
        first_rejected(s, rejected) == i,
{
    let chosen = first_rejected(s, rejected);
    assert(is_first(s, rejected, chosen));
    if chosen < i {
        assert(!rejected(s[chosen]));
    }
    if i < chosen {
        assert(!rejected(s[i]));
    }
}

/// An optional string under `key`: absent where the key is missing, a fault
/// where the value is no string.
pub open spec fn string_at(json: Json, key: Seq<char>) -> Result<Option<Seq<char>>, Fault> {
    match json.member(key) {
        None => Ok(None),
        Some(Json::String(text)) => Ok(Some(text)),
        Some(_) => Err(Fault::WrongType),
    }
}

/// An optional boolean under `key`.
pub open spec fn bool_at(json: Json, key: Seq<char>) -> Result<Option<bool>, Fault> {
    match json.member(key) {
        None => Ok(None),
        Some(Json::Bool(flag)) => Ok(Some(flag)),
        Some(_) => Err(Fault::WrongType),
    }
}

/// An optional integer under `key`. A number that is no integer, or one
/// outside the range of `i64`, is a fault.
pub open spec fn integer_at(json: Json, key: Seq<char>) -> Result<Option<i64>, Fault> {
    match json.member(key) {
        None => Ok(None),
        Some(value) => match value.as_integer() {
            Some(n) => Ok(Some(n)),
            None => Err(Fault::WrongType),
        },
    }
}

/// Holds of a document that is no string.
pub open spec fn no_string() -> spec_fn(Json) -> bool {
    |entry: Json| !(entry is String)
}

/// An optional list of strings under `key`, in the order of the array. The
/// first entry that is no string is the fault.
pub open spec fn strings_at(json: Json, key: Seq<char>) -> Result<Option<Seq<Seq<char>>>, Fault> {
    match json.member(key) {
        None => Ok(None),
        Some(Json::Array(entries)) => {
            if forall|i: int| 0 <= i < entries.len() ==> (#[trigger] entries[i]) is String {
                Ok(Some(entries.map_values(|entry: Json| entry->String_0)))
            } else {
                Err(Fault::Entry(first_rejected(entries, no_string()) as usize))
            }
        },
        Some(_) => Err(Fault::WrongType),
    }
}

/// The mask of days under `key`: every member of the object, which has to
/// be a boolean. A missing key gives the empty mask.
pub open spec fn days_at(json: Json, key: Seq<char>) -> Result<Map<Seq<char>, bool>, Fault> {
    match json.member(key) {
        None => Ok(Map::empty()),
        Some(Json::Object(days)) => {
            if forall|day: Seq<char>| days.contains_key(day) ==> (#[trigger] days[day]) is Bool {
                Ok(days.map_values(|flag: Json| flag->Bool_0))
            } else {
                Err(Fault::WrongType)
            }
        },
        Some(_) => Err(Fault::WrongType),
    }
}

/// A checklist item: `completed`, `text` and `id` are looked at in this
/// order, and the first that is missing or of another type is the fault.
pub open spec fn item_of(json: Json) -> Result<ChecklistItemView, ItemField> {
    match json.member("completed"@) {
        Some(Json::Bool(completed)) => match json.member("text"@) {
            Some(Json::String(text)) => match json.member("id"@) {
                Some(Json::String(id)) => Ok(ChecklistItemView { completed, text, id }),
                _ => Err(ItemField::Id),
            },
            _ => Err(ItemField::Text),
        },
        _ => Err(ItemField::Completed),
    }
}

/// Holds of a document that is rejected as a checklist item.
pub open spec fn no_item() -> spec_fn(Json) -> bool {
    |item: Json| item_of(item) is Err
}

/// The checklist under `key`, in the order of the array. The first item
/// that is rejected is the fault. A missing key gives the empty list.
pub open spec fn items_at(json: Json, key: Seq<char>) -> Result<Seq<ChecklistItemView>, Fault> {
    match json.member(key) {
        None => Ok(Seq::empty()),
        Some(Json::Array(items)) => {
            if forall|i: int| 0 <= i < items.len() ==> item_of(#[trigger] items[i]) is Ok {
                Ok(items.map_values(|item: Json| item_of(item)->Ok_0))
            } else {
                let i = first_rejected(items, no_item());
                Err(Fault::Item(i as usize, item_of(items[i])->Err_0))
            }
        },
        Some(_) => Err(Fault::WrongType),
    }
}

/// Whether a value is one that the field takes.
pub open spec fn fits(field: TaskField, value: Json) -> bool {
    match field {
        TaskField::Text | TaskField::Frequency | TaskField::TaskType | TaskField::Notes => value
            is String,
        TaskField::Completed | TaskField::IsDue => value is Bool,
        TaskField::EveryX => value.as_integer() is Some,
        TaskField::NextDue => value matches Json::Array(entries) && forall|i: int|
            0 <= i < entries.len() ==> (#[trigger] entries[i]) is String,
        TaskField::Repeat => value matches Json::Object(days) && forall|day: Seq<char>|
            days.contains_key(day) ==> (#[trigger] days[day]) is Bool,
        TaskField::Checklist => value matches Json::Array(items) && forall|i: int|
            0 <= i < items.len() ==> item_of(#[trigger] items[i]) is Ok,
    }
}

/// The object holds, under the key of the field, a value that the field
/// does not take.
pub open spec fn misfits(json: Json, field: TaskField) -> bool {
    match json.member(field.key()) {
        Some(value) => !fits(field, value),
        None => false,
    }
}

/// The first field of a task object, in the order of `TaskField`, whose
/// value is faulty, with its fault.
pub open spec fn first_fault(json: Json) -> Option<TaskError> {
    if let Err(fault) = string_at(json, "text"@) {
        Some(TaskError { field: TaskField::Text, fault })
    } else if let Err(fault) = string_at(json, "frequency"@) {
        Some(TaskError { field: TaskField::Frequency, fault })
    } else if let Err(fault) = string_at(json, "type"@) {
        Some(TaskError { field: TaskField::TaskType, fault })
    } else if let Err(fault) = string_at(json, "notes"@) {
        Some(TaskError { field: TaskField::Notes, fault })
    } else if let Err(fault) = days_at(json, "repeat"@) {
        Some(TaskError { field: TaskField::Repeat, fault })
    } else if let Err(fault) = integer_at(json, "everyX"@) {
        Some(TaskError { field: TaskField::EveryX, fault })
    } else if let Err(fault) = strings_at(json, "nextDue"@) {
        Some(TaskError { field: TaskField::NextDue, fault })
    } else if let Err(fault) = bool_at(json, "completed"@) {
        Some(TaskError { field: TaskField::Completed, fault })
    } else if let Err(fault) = bool_at(json, "isDue"@) {
        Some(TaskError { field: TaskField::IsDue, fault })
    } else if let Err(fault) = items_at(json, "checklist"@) {
        Some(TaskError { field: TaskField::Checklist, fault })
    } else {
        None
    }
}

/// The task that a document holds. A key that is missing leaves its field
/// absent, but for the mask of days and the checklist, which are then
/// present and empty. A value of the wrong type under any of the keys
/// rejects the task.
pub open spec fn task_of(json: Json) -> Result<TaskView, TaskError> {
    match first_fault(json) {
        Some(error) => Err(error),
        None => Ok(
            TaskView {
                text: string_at(json, "text"@)->Ok_0,
                frequency: string_at(json, "frequency"@)->Ok_0,
                task_type: string_at(json, "type"@)->Ok_0,
                notes: string_at(json, "notes"@)->Ok_0,
                repeat: Some(days_at(json, "repeat"@)->Ok_0),
                every_x: integer_at(json, "everyX"@)->Ok_0,
                next_due: strings_at(json, "nextDue"@)->Ok_0,
                completed: bool_at(json, "completed"@)->Ok_0,
                is_due: bool_at(json, "isDue"@)->Ok_0,
                checklist: Some(items_at(json, "checklist"@)->Ok_0),
            },
        ),
    }
}

/// Holds of a document that is rejected as a task.
pub open spec fn no_task() -> spec_fn(Json) -> bool {
    |item: Json| task_of(item) is Err
}

/// The tasks that a sequence of documents holds, in its order; the first
/// task that is rejected rejects them all.
pub open spec fn tasks_in(items: Seq<Json>) -> Result<Seq<TaskView>, DecodeError> {
    if forall|i: int| 0 <= i < items.len() ==> task_of(#[trigger] items[i]) is Ok {
        Ok(items.map_values(|item: Json| task_of(item)->Ok_0))
    } else {
        let i = first_rejected(items, no_task());
        Err(DecodeError::Task(i as usize, task_of(items[i])->Err_0))
    }
}

/// The tasks that a reply holds: those of the array under `"data"`.
pub open spec fn tasks_of(reply: Json) -> Result<Seq<TaskView>, DecodeError> {
    match reply.member("data"@) {
        Some(Json::Array(items)) => tasks_in(items),
        _ => Err(DecodeError::Data),
    }
}

/// The members of `members` and, where there is a value, the value under
/// `key`.
pub open spec fn with_member(
    members: Map<Seq<char>, Json>,
    key: Seq<char>,
    value: Option<Json>,
) -> Map<Seq<char>, Json> {
    match value {
        Some(value) => members.insert(key, value),
        None => members,
    }
}

/// A string as a document.
pub open spec fn string_json(text: Seq<char>) -> Json {
    Json::String(text)
}

/// A boolean as a document.
pub open spec fn bool_json(flag: bool) -> Json {
    Json::Bool(flag)
}

/// An integer as a document.
pub open spec fn integer_json(n: i64) -> Json {
    Json::Number(JsonNumber::Integer(n as int))
}

/// A list of strings as an array, in its order.
pub open spec fn strings_json(texts: Seq<Seq<char>>) -> Json {
    Json::Array(texts.map_values(|text: Seq<char>| string_json(text)))
}

/// A mask of days as an object: a boolean under each code.
pub open spec fn days_json(days: Map<Seq<char>, bool>) -> Json {
    Json::Object(days.map_values(|flag: bool| bool_json(flag)))
}

/// A checklist item as an object with its three fields.
pub open spec fn item_json(item: ChecklistItemView) -> Json {
    Json::Object(
        Map::<Seq<char>, Json>::empty().insert("completed"@, bool_json(item.completed)).insert(
            "text"@,
            string_json(item.text),
        ).insert("id"@, string_json(item.id)),
    )
}

/// A checklist as an array of its items, in their order.
pub open spec fn items_json(items: Seq<ChecklistItemView>) -> Json {
    Json::Array(items.map_values(|item: ChecklistItemView| item_json(item)))
}

/// The document that an optional value gives, where there is a value.
pub open spec fn lifted<T>(value: Option<T>, json: spec_fn(T) -> Json) -> Option<Json> {
    match value {
        Some(value) => Some(json(value)),
        None => None,
    }
}

/// What stands under the key of a field in the object of a task: nothing
/// where the task does not hold the field.
pub open spec fn field_json(task: TaskView, field: TaskField) -> Option<Json> {
    match field {
        TaskField::Text => lifted(task.text, |text: Seq<char>| string_json(text)),
        TaskField::Frequency => lifted(task.frequency, |text: Seq<char>| string_json(text)),
        TaskField::TaskType => lifted(task.task_type, |text: Seq<char>| string_json(text)),
        TaskField::Notes => lifted(task.notes, |text: Seq<char>| string_json(text)),
        TaskField::Repeat => lifted(task.repeat, |days: Map<Seq<char>, bool>| days_json(days)),
        TaskField::EveryX => lifted(task.every_x, |n: i64| integer_json(n)),
        TaskField::NextDue => lifted(task.next_due, |texts: Seq<Seq<char>>| strings_json(texts)),
        TaskField::Completed => lifted(task.completed, |flag: bool| bool_json(flag)),
        TaskField::IsDue => lifted(task.is_due, |flag: bool| bool_json(flag)),
        TaskField::Checklist => lifted(
            task.checklist,
            |items: Seq<ChecklistItemView>| items_json(items),
        ),
    }
}

/// The members of `members` and, where the task holds the field, the
/// field under its key.
pub open spec fn with_field(
    members: Map<Seq<char>, Json>,
    task: TaskView,
    field: TaskField,
) -> Map<Seq<char>, Json> {
    with_member(members, field.key(), field_json(task, field))
}

/// A task as a task object: each field that the task holds stands under
/// its key, and no other key is there.
pub open spec fn task_json(task: TaskView) -> Json {
    let members = Map::<Seq<char>, Json>::empty();
    let members = with_field(members, task, TaskField::Text);
    let members = with_field(members, task, TaskField::Frequency);
    let members = with_field(members, task, TaskField::TaskType);
    let members = with_field(members, task, TaskField::Notes);
    let members = with_field(members, task, TaskField::Repeat);
    let members = with_field(members, task, TaskField::EveryX);
    let members = with_field(members, task, TaskField::NextDue);
    let members = with_field(members, task, TaskField::Completed);
    let members = with_field(members, task, TaskField::IsDue);
    let members = with_field(members, task, TaskField::Checklist);
    Json::Object(members)
}

} // verus!
