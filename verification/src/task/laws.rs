//! What holds of decoding, for every reply.

use super::json::Json;
use super::schema::{
    bool_at, days_at, days_json, field_json, integer_at, is_first, item_json, item_of, items_at,
    items_json, lemma_first_rejected, misfits, no_task, string_at, strings_at, strings_json,
    task_json, task_of, tasks_of, ChecklistItemView, DecodeError, Fault, ItemField, TaskError,
    TaskField, TaskView,
};
use vstd::prelude::*;

verus! {

/// A reply whose `"data"` is an array of documents that are all accepted
/// as tasks decodes to as many tasks, and the task at each position is
/// that of the document at the same position.
pub proof fn lemma_tasks_in_order(reply: Json, items: Seq<Json>)
    requires
        reply.member("data"@) == Some(Json::Array(items)),
        forall|i: int| 0 <= i < items.len() ==> task_of(#[trigger] items[i]) is Ok,
    ensures
        tasks_of(reply) is Ok,
        tasks_of(reply)->Ok_0.len() == items.len(),
        forall|i: int|
            0 <= i < items.len() ==> task_of(#[trigger] items[i]) == Ok::<TaskView, TaskError>(
                tasks_of(reply)->Ok_0[i],
            ),
{
}

/// One task that is rejected rejects the reply: no task of it is handed
/// out.
pub proof fn lemma_all_or_nothing(reply: Json, items: Seq<Json>, i: int)
    requires
        reply.member("data"@) == Some(Json::Array(items)),
        0 <= i < items.len(),
        task_of(items[i]) is Err,
    ensures
        tasks_of(reply) is Err,
{
}

/// The error of a rejected reply names the first task that is rejected,
/// and holds why it is. The array is one that fits in memory.
pub proof fn lemma_first_rejected_task(reply: Json, items: Seq<Json>, i: int)
    requires
        reply.member("data"@) == Some(Json::Array(items)),
        items.len() <= usize::MAX,
        0 <= i < items.len(),
        task_of(items[i]) is Err,
    ensures
        tasks_of(reply) matches Err(DecodeError::Task(first, error)) && first <= i && task_of(
            items[first as int],
        ) == Err::<TaskView, TaskError>(error) && forall|j: int|
            0 <= j < first ==> task_of(#[trigger] items[j]) is Ok,
{
    let least = least_rejected(items, i);
    lemma_first_rejected(items, no_task(), least);
}

/// The first position up to `i` that holds a rejected task.
proof fn least_rejected(items: Seq<Json>, i: int) -> (least: int)
    requires
        0 <= i < items.len(),
        task_of(items[i]) is Err,
    ensures
        least <= i,
        is_first(items, no_task(), least),
    decreases i,
{
    if exists|j: int| 0 <= j < i && task_of(#[trigger] items[j]) is Err {
        let j = choose|j: int| 0 <= j < i && task_of(#[trigger] items[j]) is Err;
        least_rejected(items, j)
    } else {
        i
    }
}

/// A key that a task object lacks rejects nothing. It leaves its field
/// absent, but for the mask of days and the checklist, which are then
/// present and empty.
pub proof fn lemma_missing_key(json: Json, field: TaskField)
    requires
        json.member(field.key()) is None,
    ensures
        task_of(json) matches Err(error) ==> error.field != field,
        task_of(json) matches Ok(task) ==> match field {
            TaskField::Repeat => task.repeat == Some(Map::<Seq<char>, bool>::empty()),
            TaskField::Checklist => task.checklist == Some(
                Seq::<ChecklistItemView>::empty(),
            ),
            _ => !task.has(field),
        },
{
}

/// A task object is accepted exactly where each of its fields is missing
/// or holds a value that the field takes.
pub proof fn lemma_accepted_iff_fitting(json: Json)
    ensures
        task_of(json) is Ok <==> forall|field: TaskField| !misfits(json, field),
{
    if task_of(json) is Ok {
        assert forall|field: TaskField| !misfits(json, field) by {
            lemma_rejected_iff_misfit(json, field);
        }
    }
    if task_of(json) is Err {
        lemma_rejected_iff_misfit(json, task_of(json)->Err_0.field);
    }
}

/// A value that its field does not take rejects the task, and a task is
/// rejected at a field only for such a value.
pub proof fn lemma_rejected_iff_misfit(json: Json, field: TaskField)
    ensures
        misfits(json, field) ==> task_of(json) is Err,
        task_of(json) is Err && task_of(json)->Err_0.field == field ==> misfits(json, field),
{
}

/// A task object whose `"completed"` is no boolean is rejected, and so is
/// every reply that holds it.
pub proof fn lemma_completed_of_wrong_type(reply: Json, items: Seq<Json>, i: int)
    requires
        reply.member("data"@) == Some(Json::Array(items)),
        0 <= i < items.len(),
        items[i].member("completed"@) matches Some(value) && !(value is Bool),
    ensures
        task_of(items[i]) is Err,
        tasks_of(reply) is Err,
{
    lemma_rejected_iff_misfit(items[i], TaskField::Completed);
    lemma_all_or_nothing(reply, items, i);
}

/// A checklist item that lacks one of its three fields is rejected, and
/// with it the task and every reply that holds the task.
pub proof fn lemma_item_lacking_a_field(
    reply: Json,
    tasks: Seq<Json>,
    i: int,
    items: Seq<Json>,
    j: int,
)
    requires
        reply.member("data"@) == Some(Json::Array(tasks)),
        0 <= i < tasks.len(),
        tasks[i].member("checklist"@) == Some(Json::Array(items)),
        0 <= j < items.len(),
        items[j].member("completed"@) is None || items[j].member("text"@) is None
            || items[j].member("id"@) is None,
    ensures
        item_of(items[j]) is Err,
        task_of(tasks[i]) is Err,
        tasks_of(reply) is Err,
{
    assert(misfits(tasks[i], TaskField::Checklist));
    lemma_rejected_iff_misfit(tasks[i], TaskField::Checklist);
    lemma_all_or_nothing(reply, tasks, i);
}

/// No two fields of a task have the same key, and no two fields of a
/// checklist item.
pub proof fn lemma_keys_differ()
    ensures
        forall|a: TaskField, b: TaskField| a != b ==> #[trigger] a.key() != #[trigger] b.key(),
        forall|a: ItemField, b: ItemField| a != b ==> #[trigger] a.key() != #[trigger] b.key(),
{
    reveal_strlit("text");
    reveal_strlit("frequency");
    reveal_strlit("type");
    reveal_strlit("notes");
    reveal_strlit("repeat");
    reveal_strlit("everyX");
    reveal_strlit("nextDue");
    reveal_strlit("completed");
    reveal_strlit("isDue");
    reveal_strlit("checklist");
    reveal_strlit("id");
    assert("text"@.len() == 4 && "text"@[1] == 'e');
    assert("frequency"@.len() == 9 && "frequency"@[0] == 'f');
    assert("type"@.len() == 4 && "type"@[1] == 'y');
    assert("notes"@.len() == 5 && "notes"@[0] == 'n');
    assert("repeat"@.len() == 6 && "repeat"@[0] == 'r');
    assert("everyX"@.len() == 6 && "everyX"@[0] == 'e');
    assert("nextDue"@.len() == 7);
    assert("completed"@.len() == 9 && "completed"@[0] == 'c' && "completed"@[1] == 'o');
    assert("isDue"@.len() == 5 && "isDue"@[0] == 'i');
    assert("checklist"@.len() == 9 && "checklist"@[0] == 'c' && "checklist"@[1] == 'h');
    assert("id"@.len() == 2);
}

/// The object of a task holds, under the key of each field, what the task
/// holds in the field, and nothing where the task does not hold it.
pub proof fn lemma_members_of_task(task: TaskView, field: TaskField)
    ensures
        task_json(task).member(field.key()) == field_json(task, field),
{
    lemma_keys_differ();
}

/// Reading the object of a checklist item gives the item back.
pub proof fn lemma_item_round_trip(item: ChecklistItemView)
    ensures
        item_of(item_json(item)) == Ok::<ChecklistItemView, ItemField>(item),
{
    lemma_keys_differ();
    assert(ItemField::Completed.key() != ItemField::Text.key());
    assert(ItemField::Completed.key() != ItemField::Id.key());
    assert(ItemField::Text.key() != ItemField::Id.key());
}

/// Every task that is read from a document is a decoded one.
pub proof fn lemma_read_is_decoded(json: Json)
    ensures
        task_of(json) matches Ok(task) ==> task.decoded(),
{
}

/// Writing a decoded task as a task object and reading that object gives
/// the task back: each field is absent where it was absent, and holds what
/// it held where it was present.
pub proof fn lemma_round_trip(task: TaskView)
    requires
        task.decoded(),
    ensures
        task_of(task_json(task)) == Ok::<TaskView, TaskError>(task),
        forall|field: TaskField| task_of(task_json(task))->Ok_0.has(field) == task.has(field),
{
    let json = task_json(task);
    lemma_members_of_task(task, TaskField::Text);
    lemma_members_of_task(task, TaskField::Frequency);
    lemma_members_of_task(task, TaskField::TaskType);
    lemma_members_of_task(task, TaskField::Notes);
    lemma_members_of_task(task, TaskField::Repeat);
    lemma_members_of_task(task, TaskField::EveryX);
    lemma_members_of_task(task, TaskField::NextDue);
    lemma_members_of_task(task, TaskField::Completed);
    lemma_members_of_task(task, TaskField::IsDue);
    lemma_members_of_task(task, TaskField::Checklist);
    assert(string_at(json, "text"@) == Ok::<Option<Seq<char>>, Fault>(task.text));
    assert(string_at(json, "frequency"@) == Ok::<Option<Seq<char>>, Fault>(
        task.frequency,
    ));
    assert(string_at(json, "type"@) == Ok::<Option<Seq<char>>, Fault>(
        task.task_type,
    ));
    assert(string_at(json, "notes"@) == Ok::<Option<Seq<char>>, Fault>(task.notes));
    assert(integer_at(json, "everyX"@) == Ok::<Option<i64>, Fault>(task.every_x));
    assert(bool_at(json, "completed"@) == Ok::<Option<bool>, Fault>(
        task.completed,
    ));
    assert(bool_at(json, "isDue"@) == Ok::<Option<bool>, Fault>(task.is_due));
    assert(days_at(json, "repeat"@) == Ok::<Map<Seq<char>, bool>, Fault>(
        task.repeat->Some_0,
    )) by {
        let days = task.repeat->Some_0;
        assert(json.member("repeat"@) == Some(days_json(days)));
        let members = days_json(days)->Object_0;
        assert(members.map_values(|flag: Json| flag->Bool_0) =~= days);
    }
    assert(strings_at(json, "nextDue"@) == Ok::<Option<Seq<Seq<char>>>, Fault>(
        task.next_due,
    )) by {
        if task.next_due is Some {
            let texts = task.next_due->Some_0;
            assert(json.member("nextDue"@) == Some(strings_json(texts)));
            let entries = strings_json(texts)->Array_0;
            assert(entries.map_values(|entry: Json| entry->String_0) =~= texts);
        }
    }
    assert(items_at(json, "checklist"@) == Ok::<Seq<ChecklistItemView>, Fault>(
        task.checklist->Some_0,
    )) by {
        let items = task.checklist->Some_0;
        assert(json.member("checklist"@) == Some(items_json(items)));
        let listed = items_json(items)->Array_0;
        assert forall|i: int| 0 <= i < listed.len() implies item_of(#[trigger] listed[i]) == Ok::<
            ChecklistItemView,
            ItemField,
        >(items[i]) by {
            lemma_item_round_trip(items[i]);
        }
        assert(listed.map_values(|item: Json| item_of(item)->Ok_0) =~= items);
    }
}

} // verus!
