//! Tasks as typed values, and the decoder that reads them from a reply.

use super::json::{
    array_value, bool_value, empty_object, entries, integer_value, json_of, jsons_of,
    lists_members, member, members_of, object_value, optional_json_of, set_member, string_value,
    Json,
};
use super::laws::lemma_round_trip;
pub use super::repeat::TaskRepeat;
use super::repeat::{days_of, lemma_days_of_distinct, lemma_days_of_keys};
use super::schema::{
    bool_at, bool_json, days_at, integer_at, is_first, item_json, item_of, items_at, items_json,
    lemma_first_rejected, lifted, no_item, no_string, no_task, string_at, string_json,
    strings_at, strings_json, task_json, task_of, tasks_of, with_member, ChecklistItemView,
    DecodeError, Fault, ItemField, TaskError, TaskField, TaskView,
};
use serde_json::{Map as Object, Value};
use vstd::prelude::*;

verus! {

/// The outcome of a decoding step, with what it holds taken by its view.
pub open spec fn viewed<T: DeepView, E>(outcome: Result<T, E>) -> Result<T::V, E> {
    match outcome {
        Ok(value) => Ok(value.deep_view()),
        Err(error) => Err(error),
    }
}

/// One entry of a checklist.
#[derive(Debug, PartialEq)]
pub struct TaskCheckListItem {
    completed: bool,
    text: String,
    id: String,
}

/// The checklist of a task, in the order of the reply.
#[derive(Debug, PartialEq)]
pub struct TaskCheckList {
    list: Vec<TaskCheckListItem>,
}

/// One habit, daily or to-do. A field that the reply did not hold is
/// `None`, but for the mask of days and the checklist: a task always holds
/// both, empty where the reply did not hold them.
#[derive(Debug, PartialEq)]
pub struct Task {
    text: Option<String>,
    frequency: Option<String>,
    task_type: Option<String>,
    notes: Option<String>,
    repeat: Option<TaskRepeat>,
    every_x: Option<i64>,
    next_due: Option<Vec<String>>,
    completed: Option<bool>,
    is_due: Option<bool>,
    checklist: Option<TaskCheckList>,
}

/// The tasks of a user, in the order of the reply.
#[derive(Debug, PartialEq)]
pub struct Tasks {
    tasks: Vec<Task>,
}

impl View for TaskCheckListItem {
    type V = ChecklistItemView;

    closed spec fn view(&self) -> ChecklistItemView {
        ChecklistItemView { completed: self.completed, text: self.text@, id: self.id@ }
    }
}

impl DeepView for TaskCheckListItem {
    type V = ChecklistItemView;

    open spec fn deep_view(&self) -> ChecklistItemView {
        self@
    }
}

impl View for TaskCheckList {
    type V = Seq<ChecklistItemView>;

    closed spec fn view(&self) -> Seq<ChecklistItemView> {
        self.list.deep_view()
    }
}

impl DeepView for TaskCheckList {
    type V = Seq<ChecklistItemView>;

    open spec fn deep_view(&self) -> Seq<ChecklistItemView> {
        self@
    }
}

impl View for Task {
    type V = TaskView;

    closed spec fn view(&self) -> TaskView {
        TaskView {
            text: self.text.deep_view(),
            frequency: self.frequency.deep_view(),
            task_type: self.task_type.deep_view(),
            notes: self.notes.deep_view(),
            repeat: self.repeat.deep_view(),
            every_x: self.every_x,
            next_due: self.next_due.deep_view(),
            completed: self.completed,
            is_due: self.is_due,
            checklist: self.checklist.deep_view(),
        }
    }
}

impl DeepView for Task {
    type V = TaskView;

    open spec fn deep_view(&self) -> TaskView {
        self@
    }
}

impl View for Tasks {
    type V = Seq<TaskView>;

    closed spec fn view(&self) -> Seq<TaskView> {
        self.tasks.deep_view()
    }
}

impl DeepView for Tasks {
    type V = Seq<TaskView>;

    open spec fn deep_view(&self) -> Seq<TaskView> {
        self@
    }
}

impl TaskCheckListItem {
    pub fn new(completed: bool, text: String, id: String) -> (item: TaskCheckListItem)
        ensures
            item@ == (ChecklistItemView { completed, text: text@, id: id@ }),
    {
        TaskCheckListItem { completed, text, id }
    }

    /// The item as a JSON object with its three fields.
    pub fn to_json(&self) -> (value: Value)
        ensures
            json_of(value) == item_json(self@),
    {
        let mut object = empty_object();
        set_member(&mut object, "completed".to_owned(), bool_value(self.completed));
        set_member(&mut object, "text".to_owned(), string_value(self.text.as_str()));
        set_member(&mut object, "id".to_owned(), string_value(self.id.as_str()));
        object_value(object)
    }

    pub fn is_completed(&self) -> (completed: &bool)
        ensures
            *completed == self@.completed,
    {
        &self.completed
    }

    pub fn get_text(&self) -> (text: &String)
        ensures
            text@ == self@.text,
    {
        &self.text
    }

    pub fn get_id(&self) -> (id: &String)
        ensures
            id@ == self@.id,
    {
        &self.id
    }
}

/// Puts a value, where there is one, under the key of a field.
fn put(object: &mut Object<String, Value>, field: TaskField, value: Option<Value>)
    ensures
        members_of(*final(object)) == with_member(
            members_of(*old(object)),
            field.key(),
            optional_json_of(value),
        ),
{
    match value {
        Some(value) => {
            set_member(object, field.name().to_owned(), value);
        },
        None => {},
    }
}

/// An optional string as a JSON string.
fn text_value(text: &Option<String>) -> (value: Option<Value>)
    ensures
        optional_json_of(value) == lifted(text.deep_view(), |text: Seq<char>| string_json(text)),
{
    match text {
        Some(text) => Some(string_value(text.as_str())),
        None => None,
    }
}

/// An optional boolean as a JSON boolean.
fn flag_value(flag: &Option<bool>) -> (value: Option<Value>)
    ensures
        optional_json_of(value) == lifted(*flag, |flag: bool| bool_json(flag)),
{
    match flag {
        Some(flag) => Some(bool_value(*flag)),
        None => None,
    }
}

/// A list of strings as a JSON array, in its order.
fn strings_value(texts: &Vec<String>) -> (value: Value)
    ensures
        json_of(value) == strings_json(texts.deep_view()),
{
    let mut listed: Vec<Value> = Vec::new();
    let mut i: usize = 0;
    while i < texts.len()
        invariant
            i <= texts.len(),
            listed.len() == i,
            forall|j: int| 0 <= j < i ==> json_of(#[trigger] listed@[j]) == string_json(texts@[j]@),
        decreases texts.len() - i,
    {
        listed.push(string_value(texts[i].as_str()));
        i += 1;
    }
    proof {
        assert(jsons_of(listed@) =~= texts.deep_view().map_values(
            |text: Seq<char>| string_json(text),
        ));
    }
    array_value(listed)
}

/// Reads a checklist item. Its three fields are required.
fn checklist_item(raw_item: &Value) -> (decoded: Result<TaskCheckListItem, ItemField>)
    ensures
        viewed(decoded) == item_of(json_of(*raw_item)),
{
    let completed = match Task::get_value_bool(raw_item, "completed") {
        Ok(Some(flag)) => flag,
        _ => {
            return Err(ItemField::Completed);
        },
    };
    let text = match Task::get_value_string(raw_item, "text") {
        Ok(Some(text)) => text,
        _ => {
            return Err(ItemField::Text);
        },
    };
    let id = match Task::get_value_string(raw_item, "id") {
        Ok(Some(id)) => id,
        _ => {
            return Err(ItemField::Id);
        },
    };
    Ok(TaskCheckListItem { completed, text, id })
}

impl TaskCheckList {
    pub fn new(list: Vec<TaskCheckListItem>) -> (checklist: TaskCheckList)
        ensures
            checklist@ == list.deep_view(),
    {
        TaskCheckList { list }
    }

    /// The checklist as a JSON array of its items, in their order.
    pub fn to_json(&self) -> (value: Value)
        ensures
            json_of(value) == items_json(self@),
    {
        let mut listed: Vec<Value> = Vec::new();
        let mut i: usize = 0;
        while i < self.list.len()
            invariant
                i <= self.list.len(),
                listed.len() == i,
                forall|j: int|
                    0 <= j < i ==> json_of(#[trigger] listed@[j]) == item_json(self.list@[j]@),
            decreases self.list.len() - i,
        {
            listed.push(self.list[i].to_json());
            i += 1;
        }
        proof {
            assert(jsons_of(listed@) =~= self@.map_values(
                |item: ChecklistItemView| item_json(item),
            ));
        }
        array_value(listed)
    }

    pub fn get_list(&self) -> (list: &Vec<TaskCheckListItem>)
        ensures
            list.deep_view() == self@,
    {
        &self.list
    }
}

impl Task {
    #[verifier::type_invariant]
    spec fn well_formed(self) -> bool {
        self.repeat is Some && self.checklist is Some
    }

    /// Reads a task from a task object. A key that the object lacks leaves
    /// its field `None`, but for the mask of days and the checklist, which
    /// are then empty. The first value of a wrong type rejects the task.
    pub fn new(raw_task: &Value) -> (decoded: Result<Task, TaskError>)
        ensures
            viewed(decoded) == task_of(json_of(*raw_task)),
    {
        let text = match Task::get_value_string(raw_task, "text") {
            Ok(text) => text,
            Err(fault) => {
                return Err(TaskError { field: TaskField::Text, fault });
            },
        };
        let frequency = match Task::get_value_string(raw_task, "frequency") {
            Ok(frequency) => frequency,
            Err(fault) => {
                return Err(TaskError { field: TaskField::Frequency, fault });
            },
        };
        let task_type = match Task::get_value_string(raw_task, "type") {
            Ok(task_type) => task_type,
            Err(fault) => {
                return Err(TaskError { field: TaskField::TaskType, fault });
            },
        };
        let notes = match Task::get_value_string(raw_task, "notes") {
            Ok(notes) => notes,
            Err(fault) => {
                return Err(TaskError { field: TaskField::Notes, fault });
            },
        };
        let repeat = match Task::get_value_map(raw_task, "repeat") {
            Ok(repeat) => repeat,
            Err(fault) => {
                return Err(TaskError { field: TaskField::Repeat, fault });
            },
        };
        let every_x = match Task::get_value_i64(raw_task, "everyX") {
            Ok(every_x) => every_x,
            Err(fault) => {
                return Err(TaskError { field: TaskField::EveryX, fault });
            },
        };
        let next_due = match Task::get_value_vec(raw_task, "nextDue") {
            Ok(next_due) => next_due,
            Err(fault) => {
                return Err(TaskError { field: TaskField::NextDue, fault });
            },
        };
        let completed = match Task::get_value_bool(raw_task, "completed") {
            Ok(completed) => completed,
            Err(fault) => {
                return Err(TaskError { field: TaskField::Completed, fault });
            },
        };
        let is_due = match Task::get_value_bool(raw_task, "isDue") {
            Ok(is_due) => is_due,
            Err(fault) => {
                return Err(TaskError { field: TaskField::IsDue, fault });
            },
        };
        let checklist = match Task::get_value_checklist(raw_task, "checklist") {
            Ok(checklist) => checklist,
            Err(fault) => {
                return Err(TaskError { field: TaskField::Checklist, fault });
            },
        };
        Ok(
            Task {
                text,
                frequency,
                task_type,
                notes,
                repeat: Some(repeat),
                every_x,
                next_due,
                completed,
                is_due,
                checklist: Some(checklist),
            },
        )
    }

    /// The task as a task object: each field that the task holds stands
    /// under its key, and no other key is there. Reading the object gives
    /// the task back.
    pub fn to_json(&self) -> (value: Value)
        ensures
            json_of(value) == task_json(self@),
            task_of(json_of(value)) == Ok::<TaskView, TaskError>(self@),
    {
        proof {
            use_type_invariant(self);
            lemma_round_trip(self@);
        }
        let mut object = empty_object();
        put(&mut object, TaskField::Text, text_value(&self.text));
        put(&mut object, TaskField::Frequency, text_value(&self.frequency));
        put(&mut object, TaskField::TaskType, text_value(&self.task_type));
        put(&mut object, TaskField::Notes, text_value(&self.notes));
        let repeat = match &self.repeat {
            Some(repeat) => Some(repeat.to_json()),
            None => None,
        };
        put(&mut object, TaskField::Repeat, repeat);
        let every_x = match &self.every_x {
            Some(every_x) => Some(integer_value(*every_x)),
            None => None,
        };
        put(&mut object, TaskField::EveryX, every_x);
        let next_due = match &self.next_due {
            Some(next_due) => Some(strings_value(next_due)),
            None => None,
        };
        put(&mut object, TaskField::NextDue, next_due);
        put(&mut object, TaskField::Completed, flag_value(&self.completed));
        put(&mut object, TaskField::IsDue, flag_value(&self.is_due));
        let checklist = match &self.checklist {
            Some(checklist) => Some(checklist.to_json()),
            None => None,
        };
        put(&mut object, TaskField::Checklist, checklist);
        object_value(object)
    }

    pub fn get_text(&self) -> (text: &Option<String>)
        ensures
            text.deep_view() == self@.text,
    {
        &self.text
    }

    pub fn get_frequency(&self) -> (frequency: &Option<String>)
        ensures
            frequency.deep_view() == self@.frequency,
    {
        &self.frequency
    }

    pub fn get_task_type(&self) -> (task_type: &Option<String>)
        ensures
            task_type.deep_view() == self@.task_type,
    {
        &self.task_type
    }

    pub fn get_notes(&self) -> (notes: &Option<String>)
        ensures
            notes.deep_view() == self@.notes,
    {
        &self.notes
    }

    pub fn get_repeat(&self) -> (repeat: &Option<TaskRepeat>)
        ensures
            repeat is Some,
            repeat.deep_view() == self@.repeat,
    {
        proof {
            use_type_invariant(self);
        }
        &self.repeat
    }

    pub fn get_every_x(&self) -> (every_x: &Option<i64>)
        ensures
            *every_x == self@.every_x,
    {
        &self.every_x
    }

    pub fn get_next_due(&self) -> (next_due: &Option<Vec<String>>)
        ensures
            next_due.deep_view() == self@.next_due,
    {
        &self.next_due
    }

    pub fn is_completed(&self) -> (completed: &Option<bool>)
        ensures
            *completed == self@.completed,
    {
        &self.completed
    }

    pub fn is_due(&self) -> (is_due: &Option<bool>)
        ensures
            *is_due == self@.is_due,
    {
        &self.is_due
    }

    pub fn get_checklist(&self) -> (checklist: &Option<TaskCheckList>)
        ensures
            checklist is Some,
            checklist.deep_view() == self@.checklist,
    {
        proof {
            use_type_invariant(self);
        }
        &self.checklist
    }

    /// The string under `index`, where the object holds the key.
    fn get_value_string(raw_task: &Value, index: &str) -> (found: Result<Option<String>, Fault>)
        ensures
            viewed(found) == string_at(json_of(*raw_task), index@),
    {
        match member(raw_task, index) {
            None => Ok(None),
            Some(raw_value) => match raw_value.as_str() {
                Some(text) => Ok(Some(text.to_owned())),
                None => Err(Fault::WrongType),
            },
        }
    }

    /// The strings of the array under `index`, in its order, where the
    /// object holds the key.
    fn get_value_vec(raw_task: &Value, index: &str) -> (found: Result<Option<Vec<String>>, Fault>)
        ensures
            viewed(found) == strings_at(json_of(*raw_task), index@),
    {
        match member(raw_task, index) {
            None => Ok(None),
            Some(raw_value) => match raw_value.as_array() {
                None => Err(Fault::WrongType),
                Some(raw_entries) => {
                    let ghost listed = jsons_of(raw_entries@);
                    let mut texts: Vec<String> = Vec::new();
                    let mut i: usize = 0;
                    while i < raw_entries.len()
                        invariant
                            i <= raw_entries.len(),
                            listed == jsons_of(raw_entries@),
                            json_of(*raw_task).member(index@) == Some(Json::Array(listed)),
                            texts.len() == i,
                            forall|j: int|
                                0 <= j < i ==> #[trigger] listed[j] == Json::String(texts@[j]@),
                        decreases raw_entries.len() - i,
                    {
                        match raw_entries[i].as_str() {
                            Some(text) => {
                                texts.push(text.to_owned());
                            },
                            None => {
                                proof {
                                    assert(is_first(listed, no_string(), i as int));
                                    lemma_first_rejected(listed, no_string(), i as int);
                                }
                                return Err(Fault::Entry(i));
                            },
                        }
                        i += 1;
                    }
                    proof {
                        assert(texts.deep_view() =~= listed.map_values(
                            |entry: Json| entry->String_0,
                        ));
                    }
                    Ok(Some(texts))
                },
            },
        }
    }

    /// The mask of days under `index`: the members of the object, each a
    /// boolean. Empty where the object lacks the key.
    fn get_value_map(raw_task: &Value, index: &str) -> (found: Result<TaskRepeat, Fault>)
        ensures
            viewed(found) == days_at(json_of(*raw_task), index@),
    {
        let mut days: Vec<(String, bool)> = Vec::new();
        match member(raw_task, index) {
            None => {},
            Some(raw_value) => match raw_value.as_object() {
                None => {
                    return Err(Fault::WrongType);
                },
                Some(object) => {
                    let listed = entries(object);
                    let ghost members = members_of(*object);
                    let mut i: usize = 0;
                    while i < listed.len()
                        invariant
                            i <= listed.len(),
                            lists_members(listed@, members),
                            json_of(*raw_task).member(index@) == Some(Json::Object(members)),
                            days.len() == i,
                            forall|j: int|
                                0 <= j < i ==> (#[trigger] days@[j]).0@ == listed@[j].0@
                                    && json_of(*listed@[j].1) == Json::Bool(days@[j].1),
                        decreases listed.len() - i,
                    {
                        let (day, raw_flag) = listed[i];
                        match raw_flag.as_bool() {
                            Some(flag) => {
                                days.push((day.clone(), flag));
                            },
                            None => {
                                proof {
                                    assert(members.contains_pair(
                                        listed@[i as int].0@,
                                        json_of(*listed@[i as int].1),
                                    ));
                                    assert(!(members[day@] is Bool));
                                }
                                return Err(Fault::WrongType);
                            },
                        }
                        i += 1;
                    }
                    proof {
                        lemma_lists_days(listed@, members, days@);
                    }
                },
            },
        }
        Ok(TaskRepeat::new(days))
    }

    /// The items of the array under `index`, in its order. Empty where the
    /// object lacks the key.
    fn get_value_checklist(raw_task: &Value, index: &str) -> (found: Result<TaskCheckList, Fault>)
        ensures
            viewed(found) == items_at(json_of(*raw_task), index@),
    {
        let mut list: Vec<TaskCheckListItem> = Vec::new();
        match member(raw_task, index) {
            None => {
                assert(list.deep_view() =~= Seq::<ChecklistItemView>::empty());
            },
            Some(raw_value) => match raw_value.as_array() {
                None => {
                    return Err(Fault::WrongType);
                },
                Some(raw_items) => {
                    let ghost listed = jsons_of(raw_items@);
                    let mut i: usize = 0;
                    while i < raw_items.len()
                        invariant
                            i <= raw_items.len(),
                            listed == jsons_of(raw_items@),
                            json_of(*raw_task).member(index@) == Some(Json::Array(listed)),
                            list.len() == i,
                            forall|j: int|
                                0 <= j < i ==> item_of(#[trigger] listed[j]) == Ok::<
                                    ChecklistItemView,
                                    ItemField,
                                >(list@[j]@),
                        decreases raw_items.len() - i,
                    {
                        match checklist_item(&raw_items[i]) {
                            Ok(item) => {
                                list.push(item);
                            },
                            Err(field) => {
                                proof {
                                    assert(is_first(listed, no_item(), i as int));
                                    lemma_first_rejected(listed, no_item(), i as int);
                                }
                                return Err(Fault::Item(i, field));
                            },
                        }
                        i += 1;
                    }
                    proof {
                        assert(list.deep_view() =~= listed.map_values(
                            |item: Json| item_of(item)->Ok_0,
                        ));
                    }
                },
            },
        }
        Ok(TaskCheckList { list })
    }

    /// The integer under `index`, where the object holds the key.
    fn get_value_i64(raw_task: &Value, index: &str) -> (found: Result<Option<i64>, Fault>)
        ensures
            found == integer_at(json_of(*raw_task), index@),
    {
        match member(raw_task, index) {
            None => Ok(None),
            Some(raw_value) => match raw_value.as_i64() {
                Some(n) => Ok(Some(n)),
                None => Err(Fault::WrongType),
            },
        }
    }

    /// The boolean under `index`, where the object holds the key.
    fn get_value_bool(raw_task: &Value, index: &str) -> (found: Result<Option<bool>, Fault>)
        ensures
            found == bool_at(json_of(*raw_task), index@),
    {
        match member(raw_task, index) {
            None => Ok(None),
            Some(raw_value) => match raw_value.as_bool() {
                Some(flag) => Ok(Some(flag)),
                None => Err(Fault::WrongType),
            },
        }
    }
}

impl Tasks {
    /// Reads the tasks of a reply: those of the array under `"data"`, in
    /// its order. The first task that is rejected rejects the reply, and no
    /// task is handed out.
    pub fn new(raw_tasks: Value) -> (decoded: Result<Tasks, DecodeError>)
        ensures
            viewed(decoded) == tasks_of(json_of(raw_tasks)),
    {
        let raw_list = match member(&raw_tasks, "data") {
            None => {
                return Err(DecodeError::Data);
            },
            Some(data) => match data.as_array() {
                None => {
                    return Err(DecodeError::Data);
                },
                Some(raw_list) => raw_list,
            },
        };
        let ghost listed = jsons_of(raw_list@);
        let mut tasks: Vec<Task> = Vec::new();
        let mut i: usize = 0;
        while i < raw_list.len()
            invariant
                i <= raw_list.len(),
                listed == jsons_of(raw_list@),
                json_of(raw_tasks).member("data"@) == Some(Json::Array(listed)),
                tasks.len() == i,
                forall|j: int|
                    0 <= j < i ==> task_of(#[trigger] listed[j]) == Ok::<TaskView, TaskError>(
                        tasks@[j]@,
                    ),
            decreases raw_list.len() - i,
        {
            match Task::new(&raw_list[i]) {
                Ok(task) => {
                    tasks.push(task);
                },
                Err(error) => {
                    proof {
                        assert(is_first(listed, no_task(), i as int));
                        lemma_first_rejected(listed, no_task(), i as int);
                    }
                    return Err(DecodeError::Task(i, error));
                },
            }
            i += 1;
        }
        proof {
            assert(tasks.deep_view() =~= listed.map_values(|item: Json| task_of(item)->Ok_0));
        }
        Ok(Tasks { tasks })
    }

    pub fn get_tasks(&self) -> (tasks: &Vec<Task>)
        ensures
            tasks.deep_view() == self@,
    {
        &self.tasks
    }
}

/// Entries read one by one from the list of an object's members, each a
/// boolean, make up the mask that the object stands for.
proof fn lemma_lists_days(
    listed: Seq<(&String, &Value)>,
    members: Map<Seq<char>, Json>,
    days: Seq<(String, bool)>,
)
    requires
        lists_members(listed, members),
        days.len() == listed.len(),
        forall|j: int|
            0 <= j < days.len() ==> (#[trigger] days[j]).0@ == listed[j].0@ && json_of(
                *listed[j].1,
            ) == Json::Bool(days[j].1),
    ensures
        forall|day: Seq<char>| members.contains_key(day) ==> (#[trigger] members[day]) is Bool,
        days_of(days) == members.map_values(|flag: Json| flag->Bool_0),
{
    assert forall|i: int, j: int| 0 <= i < j < days.len() implies (#[trigger] days[i]).0@ != (
    #[trigger] days[j]).0@ by {
        assert(listed[i].0@ != listed[j].0@);
    }
    lemma_days_of_keys(days);
    lemma_days_of_distinct(days);
    assert forall|day: Seq<char>| members.contains_key(day) implies (#[trigger] members[day])
        is Bool && days_of(days).contains_pair(day, members[day]->Bool_0) by {
        let i = choose|i: int| 0 <= i < listed.len() && (#[trigger] listed[i]).0@ == day;
        assert(members.contains_pair(listed[i].0@, json_of(*listed[i].1)));
        assert(days_of(days).contains_pair(days[i].0@, days[i].1));
    }
    assert forall|day: Seq<char>| days_of(days).contains_key(day) implies members.contains_key(
        day,
    ) by {
        let i = choose|i: int| 0 <= i < days.len() && (#[trigger] days[i]).0@ == day;
        assert(members.contains_pair(listed[i].0@, json_of(*listed[i].1)));
    }
    assert(days_of(days) =~= members.map_values(|flag: Json| flag->Bool_0));
}

} // verus!
