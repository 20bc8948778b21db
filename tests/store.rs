use std::sync::{Mutex, RwLock};

use rusqlite::Connection;
use task_server::date::Date;
use task_server::entity::{query_to_object, Sql, Task, TaskDraft};
use task_server::row::{Column, Insert, Query, SqlRow, SqlValue};
use task_server::session::SessionStore;

fn to_sql(v: &SqlValue) -> rusqlite::types::Value {
    match v {
        SqlValue::Null => rusqlite::types::Value::Null,
        SqlValue::Integer(i) => rusqlite::types::Value::Integer(*i),
        SqlValue::Text(b) => rusqlite::types::Value::Text(String::from_utf8(b.clone()).unwrap()),
    }
}

fn row_of(row: &rusqlite::Row) -> rusqlite::Result<SqlRow> {
    let stmt: &rusqlite::Statement = row.as_ref();
    let mut columns = Vec::new();
    for i in 0..stmt.column_count() {
        let name = stmt.column_name(i)?.to_string();
        let value = match row.get_ref(i)? {
            rusqlite::types::ValueRef::Integer(n) => SqlValue::Integer(n),
            rusqlite::types::ValueRef::Text(b) => SqlValue::Text(b.to_vec()),
            _ => SqlValue::Null,
        };
        columns.push(Column { name, value });
    }
    Ok(SqlRow { columns })
}

fn insert(conn: &Mutex<Connection>, ins: &Insert) {
    let sql = String::from_utf8(ins.sql()).unwrap();
    let params = rusqlite::params_from_iter(ins.row.columns.iter().map(|c| to_sql(&c.value)));
    conn.lock().unwrap().execute(&sql, params).unwrap();
}

fn query(conn: &Mutex<Connection>, q: &Query) -> Vec<SqlRow> {
    let conn = conn.lock().unwrap();
    let mut stmt = conn.prepare(q.sql).unwrap();
    let rows = stmt
        .query_map(rusqlite::params_from_iter(q.params.iter().map(to_sql)), row_of)
        .unwrap();
    rows.map(|r| r.unwrap()).collect()
}

fn open() -> Mutex<Connection> {
    let conn = Connection::open_in_memory().unwrap();
    conn.execute(
        "CREATE TABLE tasks (id TEXT PRIMARY KEY, assign_date TEXT, title TEXT, description TEXT, recurring_month INTEGER, recurring_n INTEGER, recurring_stop TEXT, user_id TEXT)",
        [],
    )
    .unwrap();
    Mutex::new(conn)
}

fn draft(k: usize) -> TaskDraft {
    TaskDraft {
        assign_date: Date::from_ymd(2024, 1, 1 + (k % 28) as u32).unwrap(),
        title: format!("task {k} {{}} 'quoted' \"x\""),
        description: format!("about {k}"),
        recurring_month: k % 2 == 0,
        recurring_n: k as u32,
        recurring_stop: if k % 3 == 0 { None } else { Some(Date::from_ymd(2025, 12, 31).unwrap()) },
    }
}

#[test]
fn every_session_persists_its_task_once() {
    let db = open();
    let sessions = RwLock::new(SessionStore::new());
    let n = 24;
    let tokens: Vec<u128> = (0..n)
        .map(|k| sessions.write().unwrap().issue_session(format!("user-{k}")))
        .collect();
    for (k, token) in tokens.iter().enumerate() {
        let owner = sessions.write().unwrap().validate_now(*token).unwrap();
        let task = Task::create(draft(k), owner);
        insert(&db, &task.to_sql_insert());
    }
    let mut total = 0;
    for k in 0..n {
        let rows = query(&db, &Task::select_by_owner(&format!("user-{k}")));
        let tasks: Vec<Task> = query_to_object(&rows);
        assert_eq!(tasks.len(), 1);
        assert_eq!(tasks[0].title, draft(k).title);
        assert_eq!(tasks[0].recurring_stop, draft(k).recurring_stop);
        assert_eq!(tasks[0].recurring_n, k as u32);
        assert_eq!(tasks[0].assign_date, draft(k).assign_date);
        total += tasks.len();
    }
    assert_eq!(total, n);
}

#[test]
fn stored_task_reads_back_from_the_store() {
    let db = open();
    let task = Task::create(draft(3), "owner".to_string());
    insert(&db, &task.to_sql_insert());
    let tasks: Vec<Task> = query_to_object(&query(&db, &Task::select_by_owner("owner")));
    assert_eq!(tasks.len(), 1);
    assert_eq!(tasks[0].to_json(), task.to_json());
}
