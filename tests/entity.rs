use task_server::date::Date;
use task_server::entity::{
    query_to_object, CompleteTask, IdCarrier, Settings, Sql, Task, TaskDraft, User,
};
use task_server::row::{Column, RowError, SqlRow, SqlValue};

fn date(y: u32, m: u32, d: u32) -> Date {
    Date::from_ymd(y, m, d).unwrap()
}

fn sample_task() -> Task {
    Task {
        id: "task-1".to_string(),
        assign_date: date(2024, 3, 5),
        title: "Water \"plants\"".to_string(),
        description: "All of them".to_string(),
        recurring_month: true,
        recurring_n: 2,
        recurring_stop: Some(date(2024, 12, 31)),
        user_id: "user-1".to_string(),
    }
}

#[test]
fn dates_are_checked() {
    assert!(Date::from_ymd(2024, 2, 29).is_some());
    assert!(Date::from_ymd(2023, 2, 29).is_none());
    assert!(Date::from_ymd(1900, 2, 29).is_none());
    assert!(Date::from_ymd(2000, 2, 29).is_some());
    assert!(Date::from_ymd(2024, 4, 31).is_none());
    assert!(Date::from_ymd(2024, 13, 1).is_none());
    assert!(Date::from_ymd(10000, 1, 1).is_none());
}

#[test]
fn date_text_round_trip() {
    let d = date(987, 7, 4);
    assert_eq!(d.to_text(), b"0987-07-04".to_vec());
    assert_eq!(Date::from_text(b"0987-07-04"), Some(d));
    assert_eq!(Date::from_text(b"2023-02-29"), None);
    assert_eq!(Date::from_text(b"2023/02/01"), None);
    assert_eq!(Date::from_text(b"2023-2-1"), None);
}

#[test]
fn task_insert_binds_every_column() {
    let t = sample_task();
    let ins = t.to_sql_insert();
    assert_eq!(ins.table, "tasks");
    assert_eq!(
        String::from_utf8(ins.sql()).unwrap(),
        "INSERT INTO tasks (id, assign_date, title, description, recurring_month, recurring_n, recurring_stop, user_id) VALUES (?1, ?2, ?3, ?4, ?5, ?6, ?7, ?8)"
    );
    let names: Vec<&str> = ins.row.columns.iter().map(|c| c.name.as_str()).collect();
    assert_eq!(
        names,
        vec!["id", "assign_date", "title", "description", "recurring_month", "recurring_n", "recurring_stop", "user_id"]
    );
    match &ins.row.columns[1].value {
        SqlValue::Text(b) => assert_eq!(b, &b"2024-03-05".to_vec()),
        _ => panic!("date is not text"),
    }
    match &ins.row.columns[4].value {
        SqlValue::Integer(i) => assert_eq!(*i, 1),
        _ => panic!("flag is not an integer"),
    }
}

#[test]
fn task_row_round_trip() {
    let t = sample_task();
    let mut row = t.to_sql_insert().row;
    row.columns.reverse();
    let back = Task::from_sql_row(&row).unwrap();
    assert_eq!(back.id, t.id);
    assert_eq!(back.title, t.title);
    assert_eq!(back.description, t.description);
    assert_eq!(back.assign_date, t.assign_date);
    assert_eq!(back.recurring_stop, t.recurring_stop);
    assert_eq!(back.recurring_month, t.recurring_month);
    assert_eq!(back.recurring_n, t.recurring_n);
    assert_eq!(back.user_id, t.user_id);
}

#[test]
fn task_json_is_exact() {
    let t = sample_task();
    assert_eq!(
        String::from_utf8(t.to_json()).unwrap(),
        "{\"id\":\"task-1\",\"assignDate\":\"2024-03-05\",\"title\":\"Water \\\"plants\\\"\",\"description\":\"All of them\",\"recurringMonth\":true,\"recurringN\":2,\"recurringStop\":\"2024-12-31\",\"userId\":\"user-1\"}"
    );
}

#[test]
fn created_task_is_owned_by_the_session_user() {
    let draft = TaskDraft {
        assign_date: date(2024, 1, 2),
        title: "t".to_string(),
        description: "d".to_string(),
        recurring_month: false,
        recurring_n: 0,
        recurring_stop: None,
    };
    let a = Task::create(draft, "owner".to_string());
    assert_eq!(a.user_id, "owner");
    assert_eq!(a.title, "t");
    assert_eq!(a.assign_date, date(2024, 1, 2));
    assert_eq!(a.id.len(), 36);
    let draft2 = TaskDraft {
        assign_date: date(2024, 1, 2),
        title: "t".to_string(),
        description: "d".to_string(),
        recurring_month: false,
        recurring_n: 0,
        recurring_stop: None,
    };
    let b = Task::create(draft2, "owner".to_string());
    assert_ne!(a.id, b.id);
}

#[test]
fn user_row_round_trip_and_json() {
    let u = User {
        id: "u1".to_string(),
        username: "alice".to_string(),
        password: "digest".to_string(),
        salt: 200,
    };
    let ins = u.to_sql_insert();
    assert_eq!(
        String::from_utf8(ins.sql()).unwrap(),
        "INSERT INTO users (id, username, password, salt) VALUES (?1, ?2, ?3, ?4)"
    );
    let back = User::from_sql_row(&ins.row).unwrap();
    assert_eq!(back.id, "u1");
    assert_eq!(back.username, "alice");
    assert_eq!(back.password, "digest");
    assert_eq!(back.salt, 200);
    let json = String::from_utf8(u.to_json()).unwrap();
    assert_eq!(json, "{\"id\":\"u1\",\"username\":\"alice\"}");
    assert!(!json.contains("digest"));
}

#[test]
fn rows_are_read_by_column_name() {
    let row = SqlRow {
        columns: vec![
            Column { name: "salt".to_string(), value: SqlValue::Integer(3) },
            Column { name: "password".to_string(), value: SqlValue::Text(b"p".to_vec()) },
            Column { name: "username".to_string(), value: SqlValue::Text(b"bob".to_vec()) },
            Column { name: "id".to_string(), value: SqlValue::Text(b"i".to_vec()) },
        ],
    };
    let u = User::from_sql_row(&row).unwrap();
    assert_eq!(u.username, "bob");
    assert_eq!(u.salt, 3);
}

#[test]
fn bad_rows_are_refused() {
    let missing = SqlRow {
        columns: vec![Column { name: "id".to_string(), value: SqlValue::Text(b"i".to_vec()) }],
    };
    assert_eq!(User::from_sql_row(&missing).err(), Some(RowError::MissingColumn));
    let u = User {
        id: "u".to_string(),
        username: "n".to_string(),
        password: "p".to_string(),
        salt: 1,
    };
    let mut row = u.to_sql_insert().row;
    row.columns[3].value = SqlValue::Integer(256);
    assert_eq!(User::from_sql_row(&row).err(), Some(RowError::InvalidValue));
    row.columns[3].value = SqlValue::Null;
    assert_eq!(User::from_sql_row(&row).err(), Some(RowError::InvalidValue));
    let mut row = u.to_sql_insert().row;
    row.columns[1].value = SqlValue::Text(vec![0xff, 0xfe]);
    assert_eq!(User::from_sql_row(&row).err(), Some(RowError::InvalidValue));
}

#[test]
fn query_to_object_skips_rows_that_do_not_map() {
    let good = sample_task().to_sql_insert().row;
    let bad = SqlRow { columns: vec![] };
    let tasks: Vec<Task> = query_to_object(&vec![good.clone(), bad, good]);
    assert_eq!(tasks.len(), 2);
    assert_eq!(tasks[1].title, "Water \"plants\"");
}

#[test]
fn complete_task_round_trip_and_json() {
    let c = CompleteTask { id: "c1".to_string(), completed: date(2024, 6, 1), task_id: "t1".to_string() };
    let ins = c.to_sql_insert();
    assert_eq!(
        String::from_utf8(ins.sql()).unwrap(),
        "INSERT INTO complete_tasks (id, completed, task_id) VALUES (?1, ?2, ?3)"
    );
    let back = CompleteTask::from_sql_row(&ins.row).unwrap();
    assert_eq!(back.task_id, "t1");
    assert_eq!(back.completed, date(2024, 6, 1));
    assert_eq!(String::from_utf8(c.to_json()).unwrap(), "{\"id\":\"c1\",\"completed\":\"2024-06-01\"}");
    let made = CompleteTask::create(date(2024, 6, 2), "t2".to_string());
    assert_eq!(made.task_id, "t2");
}

#[test]
fn queries_bind_their_argument() {
    let q = Task::select_by_owner("o'brien");
    assert_eq!(q.sql, "SELECT * FROM tasks WHERE user_id = ?1");
    match &q.params[0] {
        SqlValue::Text(b) => assert_eq!(b, &b"o'brien".to_vec()),
        _ => panic!("not text"),
    }
    let q = User::select_by_username("alice");
    assert_eq!(q.sql, "SELECT * FROM users WHERE username = ?1");
}

#[test]
fn settings_address() {
    let s = Settings {
        root_path: "www".to_string(),
        bind_addr: "127.0.0.1".to_string(),
        bind_port: "7878".to_string(),
        n_threads: 4,
        data_path: "data.db".to_string(),
    };
    assert_eq!(s.address(), "127.0.0.1:7878");
    let c = IdCarrier { id: "x".to_string() };
    assert_eq!(c.id, "x");
}

#[test]
fn task_without_recurrence_stop() {
    let mut t = sample_task();
    t.recurring_stop = None;
    let row = t.to_sql_insert().row;
    assert!(matches!(row.columns[6].value, SqlValue::Null));
    let back = Task::from_sql_row(&row).unwrap();
    assert_eq!(back.recurring_stop, None);
    let json = String::from_utf8(t.to_json()).unwrap();
    assert!(json.contains("\"recurringStop\":null,"));
}
