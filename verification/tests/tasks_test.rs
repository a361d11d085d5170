use habitica_rust_client::task::schema::{DecodeError, Fault, ItemField, TaskError, TaskField};
use habitica_rust_client::task::tasks::{
    Task, TaskCheckList, TaskCheckListItem, TaskRepeat, Tasks,
};
use serde_json::Value;

fn get_tasks_response_data() -> String {
    r#"{
        "success": true,
        "data": [
            {
                "_id": "8a9d461b-f5eb-4a16-97d3-c03380c422a3",
                "type": "habit",
                "text": "Example habit",
                "notes": "",
                "frequency": "daily",
                "up": true,
                "down": false,
                "priority": 1.5,
                "value": 0.0,
                "tags": []
            },
            {
                "_id": "84c2e874-a8c9-4673-bd31-d97a1a42e9a3",
                "type": "daily",
                "text": "Example daily",
                "notes": "Every weekday",
                "frequency": "weekly",
                "everyX": 2,
                "completed": true,
                "isDue": false,
                "nextDue": [],
                "repeat": {
                    "m": true, "t": true, "w": true, "th": true,
                    "f": true, "s": false, "su": false
                },
                "checklist": []
            },
            {
                "_id": "b1a2c3d4-0000-4111-8222-333344445555",
                "type": "reward",
                "text": "Example reward",
                "value": 10
            },
            {
                "_id": "5e7dbb07-ff2a-4a31-b4a5-0e8b8acb7ce0",
                "type": "todo",
                "text": "Example TODO",
                "notes": "https://w.amazon.com/bin/view/EE/Learn/Resources/SDEToolkit/Development_Plan/",
                "frequency": "daily",
                "everyX": 1,
                "nextDue": ["2018-06-05T03:00:00.000Z", "2018-06-06T04:00:00.000Z"],
                "completed": false,
                "isDue": true,
                "repeat": {
                    "m": true, "t": false, "w": false, "th": false,
                    "f": false, "s": false, "su": false
                },
                "checklist": [
                    {
                        "completed": false,
                        "text": "CheckList 1",
                        "id": "a1cdd8c9-8012-4fe6-99c1-a50db3cb5926"
                    }
                ]
            }
        ],
        "notifications": []
    }"#
        .to_string()
}

fn get_task_repeat() -> Vec<(String, bool)> {
    vec![
        ("m".to_string(), true),
        ("t".to_string(), false),
        ("w".to_string(), false),
        ("th".to_string(), false),
        ("f".to_string(), false),
        ("s".to_string(), false),
        ("su".to_string(), false),
    ]
}

fn get_task_check_list_item() -> TaskCheckListItem {
    TaskCheckListItem::new(
        false,
        "CheckList 1".to_string(),
        "a1cdd8c9-8012-4fe6-99c1-a50db3cb5926".to_string(),
    )
}

fn parse(text: &str) -> Value {
    serde_json::from_str(text).unwrap()
}

fn decode_task(text: &str) -> Result<Task, TaskError> {
    Task::new(&parse(text))
}

#[test]
fn should_build_tasks_from_response() {
    let data = get_tasks_response_data();
    let raw_tasks: Value = serde_json::from_str(&data).unwrap();

    let tasks = Tasks::new(raw_tasks).unwrap();

    assert_eq!(tasks.get_tasks().len(), 4);
}

#[test]
fn should_build_daily_task_from_value() {
    let data = get_tasks_response_data();
    let raw_tasks: Value = serde_json::from_str(&data).unwrap();
    let raw_task = raw_tasks
        .get("data")
        .unwrap()
        .as_array()
        .unwrap()
        .get(3)
        .unwrap();

    let task = Task::new(&raw_task).unwrap();

    let repeat = get_task_repeat();
    let check_list = TaskCheckList::new(vec![get_task_check_list_item()]);

    assert_eq!(task.get_text(), &Some("Example TODO".to_string()));
    assert_eq!(task.get_frequency(), &Some("daily".to_string()));
    assert_eq!(task.get_task_type(), &Some("todo".to_string()));
    assert_eq!(
        task.get_notes(),
        &Some(
            "https://w.amazon.com/bin/view/EE/Learn/Resources/SDEToolkit/Development_Plan/"
                .to_string()
        )
    );
    assert_eq!(task.get_every_x(), &Some(1i64));
    assert_eq!(
        task.get_next_due(),
        &Some(vec![
            "2018-06-05T03:00:00.000Z".to_string(),
            "2018-06-06T04:00:00.000Z".to_string(),
        ])
    );
    assert_eq!(task.is_completed(), &Some(false));
    assert_eq!(task.is_due(), &Some(true));
    assert_eq!(task.get_repeat(), &Some(TaskRepeat::new(repeat)));
    assert_eq!(task.get_checklist(), &Some(check_list));
}

#[test]
fn should_return_days() {
    let task_repeat = TaskRepeat::new(get_task_repeat());

    assert_eq!(task_repeat.get_days(), &get_task_repeat());
}

#[test]
fn should_return_checklist() {
    let check_list = TaskCheckList::new(vec![get_task_check_list_item()]);

    assert_eq!(check_list.get_list(), &vec![get_task_check_list_item()]);
}

#[test]
fn should_return_is_completed() {
    let check_list_item = get_task_check_list_item();

    assert_eq!(check_list_item.is_completed(), &false);
}

#[test]
fn should_return_text() {
    let check_list_item = get_task_check_list_item();

    assert_eq!(check_list_item.get_text(), &"CheckList 1".to_string());
}

#[test]
fn should_return_id() {
    let check_list_item = get_task_check_list_item();

    assert_eq!(
        check_list_item.get_id(),
        &"a1cdd8c9-8012-4fe6-99c1-a50db3cb5926".to_string()
    );
}

#[test]
fn tasks_come_in_the_order_of_the_reply() {
    let tasks = Tasks::new(parse(&get_tasks_response_data())).unwrap();

    let texts: Vec<&Option<String>> = tasks.get_tasks().iter().map(|t| t.get_text()).collect();

    assert_eq!(
        texts,
        vec![
            &Some("Example habit".to_string()),
            &Some("Example daily".to_string()),
            &Some("Example reward".to_string()),
            &Some("Example TODO".to_string()),
        ]
    );
}

#[test]
fn an_empty_data_array_gives_no_tasks() {
    let tasks = Tasks::new(parse(r#"{"data": []}"#)).unwrap();

    assert!(tasks.get_tasks().is_empty());
}

#[test]
fn a_reply_without_data_is_rejected() {
    assert_eq!(Tasks::new(parse(r#"{"success": true}"#)), Err(DecodeError::Data));
    assert_eq!(Tasks::new(parse(r#"[{"text": "Todo"}]"#)), Err(DecodeError::Data));
    assert_eq!(Tasks::new(parse("null")), Err(DecodeError::Data));
}

#[test]
fn data_that_is_no_array_is_rejected() {
    assert_eq!(Tasks::new(parse(r#"{"data": {"text": "Todo"}}"#)), Err(DecodeError::Data));
    assert_eq!(Tasks::new(parse(r#"{"data": "tasks"}"#)), Err(DecodeError::Data));
    assert_eq!(Tasks::new(parse(r#"{"data": null}"#)), Err(DecodeError::Data));
}

#[test]
fn a_missing_key_leaves_its_field_absent() {
    let task = decode_task(r#"{"text": "Todo"}"#).unwrap();

    assert_eq!(task.get_text(), &Some("Todo".to_string()));
    assert_eq!(task.get_frequency(), &None);
    assert_eq!(task.get_task_type(), &None);
    assert_eq!(task.get_notes(), &None);
    assert_eq!(task.get_every_x(), &None);
    assert_eq!(task.get_next_due(), &None);
    assert_eq!(task.is_completed(), &None);
    assert_eq!(task.is_due(), &None);
}

#[test]
fn a_field_that_is_present_and_empty_is_not_absent() {
    let task = decode_task(r#"{"text": "", "notes": "", "everyX": 0, "nextDue": []}"#).unwrap();

    assert_eq!(task.get_text(), &Some(String::new()));
    assert_eq!(task.get_notes(), &Some(String::new()));
    assert_eq!(task.get_every_x(), &Some(0));
    assert_eq!(task.get_next_due(), &Some(Vec::new()));
}

#[test]
fn a_missing_repeat_gives_an_empty_mask() {
    let task = decode_task(r#"{"text": "Todo"}"#).unwrap();

    assert_eq!(task.get_repeat(), &Some(TaskRepeat::new(Vec::new())));
    assert!(task.get_repeat().as_ref().unwrap().get_days().is_empty());
}

#[test]
fn a_missing_checklist_gives_an_empty_list() {
    let task = decode_task(r#"{"text": "Todo"}"#).unwrap();

    assert_eq!(task.get_checklist(), &Some(TaskCheckList::new(Vec::new())));
}

#[test]
fn what_is_no_object_decodes_to_an_empty_task() {
    let task = decode_task("5").unwrap();

    assert_eq!(task.get_text(), &None);
    assert_eq!(task.get_repeat(), &Some(TaskRepeat::new(Vec::new())));
    assert_eq!(task.get_checklist(), &Some(TaskCheckList::new(Vec::new())));
}

#[test]
fn the_task_type_is_kept_as_it_arrives() {
    let task = decode_task(r#"{"type": "no such type"}"#).unwrap();

    assert_eq!(task.get_task_type(), &Some("no such type".to_string()));
}

#[test]
fn completed_as_a_string_is_rejected() {
    assert_eq!(
        decode_task(r#"{"text": "Todo", "completed": "yes"}"#),
        Err(TaskError { field: TaskField::Completed, fault: Fault::WrongType })
    );
    assert_eq!(
        Tasks::new(parse(r#"{"data": [{"text": "a"}, {"completed": "yes"}]}"#)),
        Err(DecodeError::Task(
            1,
            TaskError { field: TaskField::Completed, fault: Fault::WrongType }
        ))
    );
}

#[test]
fn each_field_of_a_wrong_type_is_rejected() {
    let cases = vec![
        (r#"{"text": 1}"#, TaskField::Text),
        (r#"{"frequency": true}"#, TaskField::Frequency),
        (r#"{"type": ["todo"]}"#, TaskField::TaskType),
        (r#"{"notes": null}"#, TaskField::Notes),
        (r#"{"repeat": [true]}"#, TaskField::Repeat),
        (r#"{"repeat": {"m": 1}}"#, TaskField::Repeat),
        (r#"{"everyX": "1"}"#, TaskField::EveryX),
        (r#"{"nextDue": "2018-06-05T03:00:00.000Z"}"#, TaskField::NextDue),
        (r#"{"completed": 0}"#, TaskField::Completed),
        (r#"{"isDue": "true"}"#, TaskField::IsDue),
        (r#"{"checklist": {}}"#, TaskField::Checklist),
    ];
    for (text, field) in cases {
        assert_eq!(
            decode_task(text),
            Err(TaskError { field, fault: Fault::WrongType }),
            "{}",
            text
        );
    }
}

#[test]
fn an_interval_that_is_no_integer_of_64_bits_is_rejected() {
    let wrong = Err(TaskError { field: TaskField::EveryX, fault: Fault::WrongType });

    assert_eq!(decode_task(r#"{"everyX": 1.5}"#), wrong);
    assert_eq!(decode_task(r#"{"everyX": 1.0}"#), wrong);
    assert_eq!(decode_task(r#"{"everyX": 9223372036854775808}"#), wrong);
    assert_eq!(
        decode_task(r#"{"everyX": 9223372036854775807}"#).unwrap().get_every_x(),
        &Some(i64::MAX)
    );
    assert_eq!(
        decode_task(r#"{"everyX": -9223372036854775808}"#).unwrap().get_every_x(),
        &Some(i64::MIN)
    );
}

#[test]
fn the_first_entry_of_next_due_that_is_no_string_is_reported() {
    assert_eq!(
        decode_task(r#"{"nextDue": ["a", "b", 3, "d", 5]}"#),
        Err(TaskError { field: TaskField::NextDue, fault: Fault::Entry(2) })
    );
}

#[test]
fn the_first_faulty_field_is_reported() {
    assert_eq!(
        decode_task(r#"{"isDue": 1, "notes": 2, "completed": 3}"#),
        Err(TaskError { field: TaskField::Notes, fault: Fault::WrongType })
    );
}

#[test]
fn the_first_rejected_task_is_reported() {
    assert_eq!(
        Tasks::new(parse(r#"{"data": [{}, {"text": "a"}, {"text": 1}, {"notes": 2}]}"#)),
        Err(DecodeError::Task(2, TaskError { field: TaskField::Text, fault: Fault::WrongType }))
    );
}

#[test]
fn a_checklist_item_without_id_rejects_the_reply() {
    let reply = r#"{"data": [
        {"text": "first"},
        {"text": "second", "checklist": [
            {"completed": true, "text": "a", "id": "1"},
            {"completed": false, "text": "b"}
        ]}
    ]}"#;

    assert_eq!(
        Tasks::new(parse(reply)),
        Err(DecodeError::Task(
            1,
            TaskError { field: TaskField::Checklist, fault: Fault::Item(1, ItemField::Id) }
        ))
    );
}

#[test]
fn every_field_of_a_checklist_item_is_required() {
    let fault = |text: &str| match decode_task(text) {
        Err(TaskError { field: TaskField::Checklist, fault }) => fault,
        other => panic!("{:?}", other),
    };

    assert_eq!(
        fault(r#"{"checklist": [{"text": "a", "id": "1"}]}"#),
        Fault::Item(0, ItemField::Completed)
    );
    assert_eq!(
        fault(r#"{"checklist": [{"completed": true, "id": "1"}]}"#),
        Fault::Item(0, ItemField::Text)
    );
    assert_eq!(
        fault(r#"{"checklist": [{"completed": true, "text": "a"}]}"#),
        Fault::Item(0, ItemField::Id)
    );
    assert_eq!(
        fault(r#"{"checklist": [{"completed": "no", "text": "a", "id": "1"}]}"#),
        Fault::Item(0, ItemField::Completed)
    );
    assert_eq!(
        fault(r#"{"checklist": [{"completed": true, "text": 7, "id": "1"}]}"#),
        Fault::Item(0, ItemField::Text)
    );
    assert_eq!(
        fault(r#"{"checklist": [{"completed": true, "text": "a", "id": 1}]}"#),
        Fault::Item(0, ItemField::Id)
    );
    assert_eq!(fault(r#"{"checklist": ["a"]}"#), Fault::Item(0, ItemField::Completed));
}

#[test]
fn a_checklist_keeps_the_order_of_the_reply() {
    let task = decode_task(
        r#"{"checklist": [
            {"completed": true, "text": "b", "id": "2"},
            {"completed": false, "text": "a", "id": "1"}
        ]}"#,
    )
    .unwrap();

    assert_eq!(
        task.get_checklist(),
        &Some(TaskCheckList::new(vec![
            TaskCheckListItem::new(true, "b".to_string(), "2".to_string()),
            TaskCheckListItem::new(false, "a".to_string(), "1".to_string()),
        ]))
    );
}

#[test]
fn a_mask_holds_every_day_of_the_reply() {
    let task = decode_task(r#"{"repeat": {"su": true, "m": false, "anything": true}}"#).unwrap();
    let repeat = task.get_repeat().as_ref().unwrap();

    let mut days = repeat.get_days().clone();
    days.sort();

    assert_eq!(
        days,
        vec![
            ("anything".to_string(), true),
            ("m".to_string(), false),
            ("su".to_string(), true),
        ]
    );
}

#[test]
fn masks_are_equal_whatever_the_order_of_their_entries() {
    let one = TaskRepeat::new(vec![("m".to_string(), true), ("t".to_string(), false)]);
    let other = TaskRepeat::new(vec![("t".to_string(), false), ("m".to_string(), true)]);

    assert_eq!(one, other);
}

#[test]
fn masks_that_differ_are_not_equal() {
    let one = TaskRepeat::new(vec![("m".to_string(), true), ("t".to_string(), false)]);

    assert_ne!(one, TaskRepeat::new(vec![("m".to_string(), true), ("t".to_string(), true)]));
    assert_ne!(one, TaskRepeat::new(vec![("m".to_string(), true), ("w".to_string(), false)]));
    assert_ne!(one, TaskRepeat::new(vec![("m".to_string(), true)]));
    assert_ne!(
        one,
        TaskRepeat::new(vec![
            ("m".to_string(), true),
            ("t".to_string(), false),
            ("w".to_string(), false),
        ])
    );
}

#[test]
fn the_last_entry_of_a_day_counts() {
    let repeat = TaskRepeat::new(vec![
        ("m".to_string(), true),
        ("t".to_string(), false),
        ("m".to_string(), false),
    ]);

    assert_eq!(
        repeat.get_days(),
        &vec![("m".to_string(), false), ("t".to_string(), false)]
    );
}

#[test]
fn fields_have_the_keys_of_the_reply() {
    assert_eq!(TaskField::TaskType.name(), "type");
    assert_eq!(TaskField::EveryX.name(), "everyX");
    assert_eq!(TaskField::NextDue.name(), "nextDue");
    assert_eq!(TaskField::IsDue.name(), "isDue");
    assert_eq!(ItemField::Completed.name(), "completed");
    assert_eq!(ItemField::Id.name(), "id");
}

#[test]
fn a_task_is_written_as_the_object_it_was_read_from() {
    let task = decode_task(
        r#"{
            "text": "Todo",
            "type": "todo",
            "everyX": -3,
            "nextDue": ["a", "b"],
            "completed": false,
            "repeat": {"m": true, "su": false},
            "checklist": [{"completed": true, "text": "step", "id": "1"}],
            "priority": 1.5
        }"#,
    )
    .unwrap();

    assert_eq!(
        task.to_json(),
        parse(
            r#"{
                "text": "Todo",
                "type": "todo",
                "everyX": -3,
                "nextDue": ["a", "b"],
                "completed": false,
                "repeat": {"m": true, "su": false},
                "checklist": [{"completed": true, "text": "step", "id": "1"}]
            }"#
        )
    );
}

#[test]
fn an_absent_field_is_not_written() {
    let task = decode_task(r#"{"text": "Todo"}"#).unwrap();

    assert_eq!(task.to_json(), parse(r#"{"text": "Todo", "repeat": {}, "checklist": []}"#));
    assert!(task.to_json().get("notes").is_none());
}

#[test]
fn writing_and_reading_a_task_gives_it_back() {
    let tasks = Tasks::new(parse(&get_tasks_response_data())).unwrap();

    assert_eq!(tasks.get_tasks().len(), 4);
    for task in tasks.get_tasks() {
        let again = Task::new(&task.to_json()).unwrap();

        assert_eq!(&again, task);
        assert_eq!(again.get_text().is_some(), task.get_text().is_some());
        assert_eq!(again.get_frequency().is_some(), task.get_frequency().is_some());
        assert_eq!(again.get_task_type().is_some(), task.get_task_type().is_some());
        assert_eq!(again.get_notes().is_some(), task.get_notes().is_some());
        assert_eq!(again.get_every_x().is_some(), task.get_every_x().is_some());
        assert_eq!(again.get_next_due().is_some(), task.get_next_due().is_some());
        assert_eq!(again.is_completed().is_some(), task.is_completed().is_some());
        assert_eq!(again.is_due().is_some(), task.is_due().is_some());
    }
}

#[test]
fn an_empty_string_stays_present_through_writing_and_reading() {
    let task = decode_task(r#"{"notes": "", "everyX": 0, "isDue": false}"#).unwrap();

    let again = Task::new(&task.to_json()).unwrap();

    assert_eq!(again.get_notes(), &Some(String::new()));
    assert_eq!(again.get_every_x(), &Some(0));
    assert_eq!(again.is_due(), &Some(false));
    assert_eq!(again.get_text(), &None);
}

#[test]
fn a_checklist_item_is_written_with_its_three_fields() {
    assert_eq!(
        get_task_check_list_item().to_json(),
        parse(
            r#"{
                "completed": false,
                "text": "CheckList 1",
                "id": "a1cdd8c9-8012-4fe6-99c1-a50db3cb5926"
            }"#
        )
    );
}

#[test]
fn a_checklist_is_written_in_its_order() {
    let check_list = TaskCheckList::new(vec![
        TaskCheckListItem::new(true, "b".to_string(), "2".to_string()),
        TaskCheckListItem::new(false, "a".to_string(), "1".to_string()),
    ]);

    assert_eq!(
        check_list.to_json(),
        parse(
            r#"[
                {"completed": true, "text": "b", "id": "2"},
                {"completed": false, "text": "a", "id": "1"}
            ]"#
        )
    );
}

#[test]
fn a_mask_is_written_as_an_object_of_booleans() {
    assert_eq!(
        TaskRepeat::new(get_task_repeat()).to_json(),
        parse(
            r#"{"m": true, "t": false, "w": false, "th": false,
                "f": false, "s": false, "su": false}"#
        )
    );
    assert_eq!(TaskRepeat::new(Vec::new()).to_json(), parse("{}"));
}

#[test]
fn a_task_always_holds_a_mask_and_a_checklist() {
    let tasks = Tasks::new(parse(&get_tasks_response_data())).unwrap();

    for task in tasks.get_tasks() {
        assert!(task.get_repeat().is_some());
        assert!(task.get_checklist().is_some());
    }
}

#[test]
fn a_mask_tells_whether_a_day_is_on() {
    let repeat = TaskRepeat::new(get_task_repeat());

    assert_eq!(repeat.get("m"), Some(true));
    assert_eq!(repeat.get("su"), Some(false));
    assert_eq!(repeat.get("x"), None);
    assert_eq!(repeat.get(""), None);
    assert_eq!(TaskRepeat::new(Vec::new()).get("m"), None);
}
