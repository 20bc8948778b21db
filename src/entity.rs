//! The stored entities, how each maps to and from a row, and the JSON that
//! a client sees of it.

use vstd::prelude::*;
use vstd::string::StringExecFns;
use vstd::utf8::encode_utf8;
use crate::date::{date_text, lemma_date_text_round_trip, Date};
use crate::response::{json_quote, json_quoted, push_text};
use crate::row::{
    cell, column, date_cell, int_cell, opt_date_cell, text_cell, text_val, text_value, Cells,
    Insert, Query,
    RowError, SqlRow, SqlVal, SqlValue,
};
use crate::text::{decimal, push_decimal};

verus! {

broadcast use {vstd::utf8::encode_utf8_decode_utf8, vstd::utf8::encode_utf8_valid_utf8};

/// An entity that is stored as one row of a table.
pub trait Sql: Sized + View {
    /// The table that holds the entity.
    spec fn table() -> Seq<char>;

    /// The columns that an insert of the entity stores.
    spec fn to_cells(v: Self::V) -> Cells;

    /// The entity that a row describes, read by column name.
    spec fn of_cells(cells: Cells) -> Option<Self::V>;

    /// The insert that stores the entity, its values bound as parameters.
    fn to_sql_insert(&self) -> (r: Insert)
        ensures
            r.table@ == Self::table(),
            r.row@ == Self::to_cells(self@),
    ;

    /// Reads the entity from a row, by column name.
    fn from_sql_row(row: &SqlRow) -> (r: Result<Self, RowError>)
        ensures
            match r {
                Ok(e) => Self::of_cells(row@) == Some(e@),
                Err(_) => Self::of_cells(row@) is None,
            },
    ;
}

/// The entities that rows describe, in order; a row that describes none is
/// left out.
pub open spec fn objects_of<T: Sql>(rows: Seq<Cells>) -> Seq<T::V>
    decreases rows.len(),
{
    if rows.len() == 0 {
        seq![]
    } else {
        let prev = objects_of::<T>(rows.drop_last());
        match T::of_cells(rows.last()) {
            Some(v) => prev.push(v),
            None => prev,
        }
    }
}

pub open spec fn row_views(rows: Seq<SqlRow>) -> Seq<Cells> {
    rows.map_values(|r: SqlRow| r@)
}

pub open spec fn entity_views<T: View>(es: Seq<T>) -> Seq<T::V> {
    es.map_values(|e: T| e@)
}

/// The entities that the rows of a query describe.
pub fn query_to_object<T: Sql>(rows: &Vec<SqlRow>) -> (r: Vec<T>)
    ensures
        entity_views(r@) == objects_of::<T>(row_views(rows@)),
{
    let mut r: Vec<T> = Vec::new();
    let mut i: usize = 0;
    while i < rows.len()
        invariant
            i <= rows@.len(),
            entity_views(r@) == objects_of::<T>(row_views(rows@.subrange(0, i as int))),
        decreases rows@.len() - i,
    {
        let ghost before = r@;
        assert(row_views(rows@.subrange(0, i + 1)).drop_last() =~= row_views(
            rows@.subrange(0, i as int),
        ));
        assert(row_views(rows@.subrange(0, i + 1)).last() == rows@[i as int]@);
        match T::from_sql_row(&rows[i]) {
            Ok(e) => {
                r.push(e);
                assert(entity_views(r@) =~= entity_views(before).push(e@));
            },
            Err(_) => {},
        }
        i = i + 1;
    }
    assert(rows@.subrange(0, rows@.len() as int) =~= rows@);
    r
}

/// Relies on `uuid::Uuid::now_v7`: a fresh time-ordered identifier, as
/// hyphenated text.
#[verifier::external_body]
pub(crate) fn new_entity_id() -> String {
    uuid::Uuid::now_v7().to_string()
}

/// Appends `"name":` with the name quoted.
fn push_key(out: &mut Vec<u8>, first: bool, name: &str)
    ensures
        final(out)@ == old(out)@ + (if first {
            seq![]
        } else {
            encode_utf8(","@)
        }) + encode_utf8("\""@) + encode_utf8(name@) + encode_utf8("\":"@),
{
    if !first {
        push_text(out, ",");
    }
    push_text(out, "\"");
    push_text(out, name);
    push_text(out, "\":");
    proof {
        if first {
            assert(final(out)@ =~= old(out)@ + seq![] + encode_utf8("\""@) + encode_utf8(name@)
                + encode_utf8("\":"@));
        }
    }
}

/// A JSON member `"name":value` for a text value, after a comma unless it
/// comes first.
pub open spec fn text_member(first: bool, name: Seq<char>, value: Seq<char>) -> Seq<u8> {
    (if first {
        seq![]
    } else {
        encode_utf8(","@)
    }) + encode_utf8("\""@) + encode_utf8(name) + encode_utf8("\":"@) + encode_utf8(json_quoted(value))
}

/// A JSON member whose value is written as it is.
pub open spec fn raw_member(first: bool, name: Seq<char>, value: Seq<u8>) -> Seq<u8> {
    (if first {
        seq![]
    } else {
        encode_utf8(","@)
    }) + encode_utf8("\""@) + encode_utf8(name) + encode_utf8("\":"@) + value
}

/// A date as a JSON string.
pub open spec fn date_json(d: Date) -> Seq<u8> {
    encode_utf8("\""@) + date_text(d) + encode_utf8("\""@)
}

pub open spec fn bool_json(b: bool) -> Seq<u8> {
    if b {
        encode_utf8("true"@)
    } else {
        encode_utf8("false"@)
    }
}

pub(crate) fn push_text_member(out: &mut Vec<u8>, first: bool, name: &str, value: &str)
    ensures
        final(out)@ == old(out)@ + text_member(first, name@, value@),
{
    push_key(out, first, name);
    let q = json_quote(value);
    push_text(out, q.as_str());
    assert(final(out)@ =~= old(out)@ + text_member(first, name@, value@));
}

fn push_date_member(out: &mut Vec<u8>, name: &str, d: Date)
    ensures
        final(out)@ == old(out)@ + raw_member(false, name@, date_json(d)),
{
    push_key(out, false, name);
    push_text(out, "\"");
    let t = d.to_text();
    out.extend_from_slice(t.as_slice());
    push_text(out, "\"");
    assert(final(out)@ =~= old(out)@ + raw_member(false, name@, date_json(d)));
}

/// A user. The password field holds the salted digest, never the password
/// itself, once the user is registered.
pub struct User {
    pub id: String,
    pub username: String,
    pub password: String,
    pub salt: u8,
}

/// What a `User` holds.
pub struct UserModel {
    pub id: Seq<char>,
    pub username: Seq<char>,
    pub password: Seq<char>,
    pub salt: u8,
}

impl View for User {
    type V = UserModel;

    open spec fn view(&self) -> UserModel {
        UserModel { id: self.id@, username: self.username@, password: self.password@, salt: self.salt }
    }
}

/// The JSON of a user as a client sees it: its id and username, never its
/// password digest or salt.
pub open spec fn user_json(u: UserModel) -> Seq<u8> {
    encode_utf8("{"@) + text_member(true, "id"@, u.id) + text_member(false, "username"@, u.username)
        + encode_utf8("}"@)
}

impl Sql for User {
    open spec fn table() -> Seq<char> {
        "users"@
    }

    open spec fn to_cells(v: UserModel) -> Cells {
        seq![
            ("id"@, text_val(v.id)),
            ("username"@, text_val(v.username)),
            ("password"@, text_val(v.password)),
            ("salt"@, SqlVal::Integer(v.salt as i64)),
        ]
    }

    open spec fn of_cells(cells: Cells) -> Option<UserModel> {
        match (
            text_cell(column(cells, "id"@)),
            text_cell(column(cells, "username"@)),
            text_cell(column(cells, "password"@)),
            int_cell(column(cells, "salt"@)),
        ) {
            (Some(id), Some(username), Some(password), Some(salt)) => if 0 <= salt <= 255 {
                Some(UserModel { id, username, password, salt: salt as u8 })
            } else {
                None
            },
            _ => None,
        }
    }

    fn to_sql_insert(&self) -> (r: Insert) {
        let columns = vec![
            cell("id", text_value(self.id.as_str())),
            cell("username", text_value(self.username.as_str())),
            cell("password", text_value(self.password.as_str())),
            cell("salt", SqlValue::Integer(self.salt as i64)),
        ];
        let r = Insert { table: "users", row: SqlRow { columns } };
        assert(r.row@ =~= Self::to_cells(self@));
        r
    }

    fn from_sql_row(row: &SqlRow) -> (r: Result<User, RowError>) {
        let id = row.text("id")?;
        let username = row.text("username")?;
        let password = row.text("password")?;
        let salt = row.integer("salt")?;
        if salt < 0 || salt > 255 {
            return Err(RowError::InvalidValue);
        }
        Ok(User { id, username, password, salt: salt as u8 })
    }
}

impl User {
    /// The JSON that a client sees of the user.
    pub fn to_json(&self) -> (r: Vec<u8>)
        ensures
            r@ == user_json(self@),
    {
        let mut r: Vec<u8> = Vec::new();
        push_text(&mut r, "{");
        push_text_member(&mut r, true, "id", self.id.as_str());
        push_text_member(&mut r, false, "username", self.username.as_str());
        push_text(&mut r, "}");
        assert(r@ =~= user_json(self@));
        r
    }

    /// The query for the users with a given username.
    pub fn select_by_username(username: &str) -> (r: Query)
        ensures
            r.sql@ == "SELECT * FROM users WHERE username = ?1"@,
            r.params@.len() == 1,
            r.params@[0]@ == text_val(username@),
    {
        Query { sql: "SELECT * FROM users WHERE username = ?1", params: vec![text_value(username)] }
    }
}

/// A stored user reads back as the same user.
pub proof fn lemma_user_row_round_trip(u: UserModel)
    ensures
        User::of_cells(User::to_cells(u)) == Some(u),
{
    reveal_strlit("id");
    reveal_strlit("username");
    reveal_strlit("password");
    reveal_strlit("salt");
    reveal_with_fuel(crate::row::column_from, 5);
    let c = User::to_cells(u);
    assert("id"@.len() == 2 && "username"@.len() == 8 && "password"@.len() == 8 && "salt"@.len() == 4);
    assert("username"@[0] != "password"@[0]);
    assert(column(c, "id"@) == Some(text_val(u.id)));
    assert(column(c, "username"@) == Some(text_val(u.username)));
    assert(column(c, "password"@) == Some(text_val(u.password)));
    assert(column(c, "salt"@) == Some(SqlVal::Integer(u.salt as i64)));
}


fn push_raw_member(out: &mut Vec<u8>, name: &str, value: &[u8])
    ensures
        final(out)@ == old(out)@ + raw_member(false, name@, value@),
{
    push_key(out, false, name);
    out.extend_from_slice(value);
    assert(final(out)@ =~= old(out)@ + raw_member(false, name@, value@));
}

fn bool_text(b: bool) -> (r: Vec<u8>)
    ensures
        r@ == bool_json(b),
{
    let mut r: Vec<u8> = Vec::new();
    if b {
        push_text(&mut r, "true");
    } else {
        push_text(&mut r, "false");
    }
    assert(r@ =~= bool_json(b));
    r
}

fn date_value(d: Date) -> (r: SqlValue)
    ensures
        r@ == SqlVal::Text(date_text(d)),
{
    SqlValue::Text(d.to_text())
}

/// A date column that may be empty: null where there is no date.
pub open spec fn opt_date_val(d: Option<Date>) -> SqlVal {
    match d {
        Some(d) => SqlVal::Text(date_text(d)),
        None => SqlVal::Null,
    }
}

fn opt_date_value(d: Option<Date>) -> (r: SqlValue)
    ensures
        r@ == opt_date_val(d),
{
    match d {
        Some(d) => date_value(d),
        None => SqlValue::Null,
    }
}

/// A date, or `null`, as JSON.
pub open spec fn opt_date_json(d: Option<Date>) -> Seq<u8> {
    match d {
        Some(d) => date_json(d),
        None => encode_utf8("null"@),
    }
}

fn opt_date_text(d: Option<Date>) -> (r: Vec<u8>)
    ensures
        r@ == opt_date_json(d),
{
    let mut r: Vec<u8> = Vec::new();
    match d {
        Some(d) => {
            push_text(&mut r, "\"");
            let t = d.to_text();
            r.extend_from_slice(t.as_slice());
            push_text(&mut r, "\"");
        },
        None => push_text(&mut r, "null"),
    }
    assert(r@ =~= opt_date_json(d));
    r
}

/// A task of a user, with its optional monthly recurrence.
pub struct Task {
    pub id: String,
    pub assign_date: Date,
    pub title: String,
    pub description: String,
    pub recurring_month: bool,
    pub recurring_n: u32,
    pub recurring_stop: Option<Date>,
    /// The owner, always the user of the session that created the task.
    pub user_id: String,
}

/// What a `Task` holds.
pub struct TaskModel {
    pub id: Seq<char>,
    pub assign_date: Date,
    pub title: Seq<char>,
    pub description: Seq<char>,
    pub recurring_month: bool,
    pub recurring_n: u32,
    pub recurring_stop: Option<Date>,
    pub user_id: Seq<char>,
}

impl View for Task {
    type V = TaskModel;

    open spec fn view(&self) -> TaskModel {
        TaskModel {
            id: self.id@,
            assign_date: self.assign_date,
            title: self.title@,
            description: self.description@,
            recurring_month: self.recurring_month,
            recurring_n: self.recurring_n,
            recurring_stop: self.recurring_stop,
            user_id: self.user_id@,
        }
    }
}

/// The fields of a task that a client chooses; the id and the owner are
/// the server's.
pub struct TaskDraft {
    pub assign_date: Date,
    pub title: String,
    pub description: String,
    pub recurring_month: bool,
    pub recurring_n: u32,
    pub recurring_stop: Option<Date>,
}

/// The JSON of a task.
#[verifier::opaque]
pub open spec fn task_json(t: TaskModel) -> Seq<u8> {
    encode_utf8("{"@) + text_member(true, "id"@, t.id) + raw_member(
        false,
        "assignDate"@,
        date_json(t.assign_date),
    ) + text_member(false, "title"@, t.title) + text_member(false, "description"@, t.description)
        + raw_member(false, "recurringMonth"@, bool_json(t.recurring_month)) + raw_member(
        false,
        "recurringN"@,
        decimal(t.recurring_n as nat),
    ) + raw_member(false, "recurringStop"@, opt_date_json(t.recurring_stop)) + text_member(
        false,
        "userId"@,
        t.user_id,
    ) + encode_utf8("}"@)
}

impl Sql for Task {
    open spec fn table() -> Seq<char> {
        "tasks"@
    }

    open spec fn to_cells(v: TaskModel) -> Cells {
        seq![
            ("id"@, text_val(v.id)),
            ("assign_date"@, SqlVal::Text(date_text(v.assign_date))),
            ("title"@, text_val(v.title)),
            ("description"@, text_val(v.description)),
            ("recurring_month"@, SqlVal::Integer(if v.recurring_month { 1 } else { 0 })),
            ("recurring_n"@, SqlVal::Integer(v.recurring_n as i64)),
            ("recurring_stop"@, opt_date_val(v.recurring_stop)),
            ("user_id"@, text_val(v.user_id)),
        ]
    }

    open spec fn of_cells(cells: Cells) -> Option<TaskModel> {
        match (
            text_cell(column(cells, "id"@)),
            date_cell(column(cells, "assign_date"@)),
            text_cell(column(cells, "title"@)),
            text_cell(column(cells, "description"@)),
            int_cell(column(cells, "recurring_month"@)),
            int_cell(column(cells, "recurring_n"@)),
            opt_date_cell(column(cells, "recurring_stop"@)),
            text_cell(column(cells, "user_id"@)),
        ) {
            (
                Some(id),
                Some(assign_date),
                Some(title),
                Some(description),
                Some(month),
                Some(n),
                Some(recurring_stop),
                Some(user_id),
            ) => if 0 <= n <= u32::MAX {
                Some(
                    TaskModel {
                        id,
                        assign_date,
                        title,
                        description,
                        recurring_month: month != 0,
                        recurring_n: n as u32,
                        recurring_stop,
                        user_id,
                    },
                )
            } else {
                None
            },
            _ => None,
        }
    }

    fn to_sql_insert(&self) -> (r: Insert) {
        let columns = vec![
            cell("id", text_value(self.id.as_str())),
            cell("assign_date", date_value(self.assign_date)),
            cell("title", text_value(self.title.as_str())),
            cell("description", text_value(self.description.as_str())),
            cell("recurring_month", SqlValue::Integer(if self.recurring_month { 1 } else { 0 })),
            cell("recurring_n", SqlValue::Integer(self.recurring_n as i64)),
            cell("recurring_stop", opt_date_value(self.recurring_stop)),
            cell("user_id", text_value(self.user_id.as_str())),
        ];
        let r = Insert { table: "tasks", row: SqlRow { columns } };
        assert(r.row@ =~= Self::to_cells(self@));
        r
    }

    fn from_sql_row(row: &SqlRow) -> (r: Result<Task, RowError>) {
        let id = row.text("id")?;
        let assign_date = row.date("assign_date")?;
        let title = row.text("title")?;
        let description = row.text("description")?;
        let month = row.integer("recurring_month")?;
        let n = row.integer("recurring_n")?;
        let recurring_stop = row.optional_date("recurring_stop")?;
        let user_id = row.text("user_id")?;
        if n < 0 || n > u32::MAX as i64 {
            return Err(RowError::InvalidValue);
        }
        Ok(
            Task {
                id,
                assign_date,
                title,
                description,
                recurring_month: month != 0,
                recurring_n: n as u32,
                recurring_stop,
                user_id,
            },
        )
    }
}

impl Task {
    /// A new task from the fields a client chose, owned by `owner`, under a
    /// fresh server-made id. No id or owner of the client's is taken.
    pub fn create(draft: TaskDraft, owner: String) -> (r: Task)
        ensures
            r.assign_date == draft.assign_date,
            r.title == draft.title,
            r.description == draft.description,
            r.recurring_month == draft.recurring_month,
            r.recurring_n == draft.recurring_n,
            r.recurring_stop == draft.recurring_stop,
            r.user_id == owner,
    {
        Task {
            id: new_entity_id(),
            assign_date: draft.assign_date,
            title: draft.title,
            description: draft.description,
            recurring_month: draft.recurring_month,
            recurring_n: draft.recurring_n,
            recurring_stop: draft.recurring_stop,
            user_id: owner,
        }
    }

    /// The JSON of the task.
    pub fn to_json(&self) -> (r: Vec<u8>)
        ensures
            r@ == task_json(self@),
    {
        let mut r: Vec<u8> = Vec::new();
        push_text(&mut r, "{");
        push_text_member(&mut r, true, "id", self.id.as_str());
        push_date_member(&mut r, "assignDate", self.assign_date);
        push_text_member(&mut r, false, "title", self.title.as_str());
        push_text_member(&mut r, false, "description", self.description.as_str());
        let b = bool_text(self.recurring_month);
        push_raw_member(&mut r, "recurringMonth", b.as_slice());
        let mut n: Vec<u8> = Vec::new();
        push_decimal(&mut n, self.recurring_n as usize);
        assert(n@ =~= decimal(self.recurring_n as nat));
        push_raw_member(&mut r, "recurringN", n.as_slice());
        let stop = opt_date_text(self.recurring_stop);
        push_raw_member(&mut r, "recurringStop", stop.as_slice());
        push_text_member(&mut r, false, "userId", self.user_id.as_str());
        push_text(&mut r, "}");
        reveal(task_json);
        assert(r@ =~= task_json(self@));
        r
    }

    /// The query for the tasks of a user.
    pub fn select_by_owner(user_id: &str) -> (r: Query)
        ensures
            r.sql@ == "SELECT * FROM tasks WHERE user_id = ?1"@,
            r.params@.len() == 1,
            r.params@[0]@ == text_val(user_id@),
    {
        Query { sql: "SELECT * FROM tasks WHERE user_id = ?1", params: vec![text_value(user_id)] }
    }
}

/// Whether a task's dates are real days.
pub open spec fn task_dates_wf(t: TaskModel) -> bool {
    &&& t.assign_date.wf()
    &&& t.recurring_stop matches Some(d) ==> d.wf()
}

/// A stored task with real dates reads back as the same task.
pub proof fn lemma_task_row_round_trip(t: TaskModel)
    requires
        task_dates_wf(t),
    ensures
        Task::of_cells(Task::to_cells(t)) == Some(t),
{
    reveal_strlit("id");
    reveal_strlit("assign_date");
    reveal_strlit("title");
    reveal_strlit("description");
    reveal_strlit("recurring_month");
    reveal_strlit("recurring_n");
    reveal_strlit("recurring_stop");
    reveal_strlit("user_id");
    reveal_with_fuel(crate::row::column_from, 9);
    lemma_date_text_round_trip(t.assign_date);
    if let Some(d) = t.recurring_stop {
        lemma_date_text_round_trip(d);
    }
    let c = Task::to_cells(t);
    assert("id"@.len() == 2 && "title"@.len() == 5 && "user_id"@.len() == 7);
    assert("assign_date"@.len() == 11 && "description"@.len() == 11 && "recurring_n"@.len() == 11);
    assert("recurring_month"@.len() == 15 && "recurring_stop"@.len() == 14);
    assert("assign_date"@[0] != "description"@[0] && "assign_date"@[0] != "recurring_n"@[0]
        && "description"@[0] != "recurring_n"@[0]);
    assert(column(c, "id"@) == Some(c[0].1));
    assert(column(c, "assign_date"@) == Some(c[1].1));
    assert(column(c, "title"@) == Some(c[2].1));
    assert(column(c, "description"@) == Some(c[3].1));
    assert(column(c, "recurring_month"@) == Some(c[4].1));
    assert(column(c, "recurring_n"@) == Some(c[5].1));
    assert(column(c, "recurring_stop"@) == Some(c[6].1));
    assert(column(c, "user_id"@) == Some(c[7].1));
}

/// Tasks that were stored, each with real dates, are listed back exactly as
/// they were created and in the same order: every field, the server's id
/// and owner included, with no row lost and none repeated.
pub proof fn lemma_stored_tasks_list_back(ts: Seq<TaskModel>)
    requires
        forall|i: int| 0 <= i < ts.len() ==> task_dates_wf(#[trigger] ts[i]),
    ensures
        objects_of::<Task>(ts.map_values(|t: TaskModel| Task::to_cells(t))) == ts,
    decreases ts.len(),
{
    let rows = ts.map_values(|t: TaskModel| Task::to_cells(t));
    if ts.len() > 0 {
        let last = ts.last();
        assert(last == ts[ts.len() - 1]);
        lemma_task_row_round_trip(last);
        assert(rows.drop_last() =~= ts.drop_last().map_values(|t: TaskModel| Task::to_cells(t)));
        lemma_stored_tasks_list_back(ts.drop_last());
        assert(ts.drop_last().push(last) =~= ts);
    } else {
        assert(rows =~= Seq::<Cells>::empty());
        assert(ts =~= Seq::<TaskModel>::empty());
    }
}

/// A record that a task was done on a day.
pub struct CompleteTask {
    pub id: String,
    pub completed: Date,
    pub task_id: String,
}

/// What a `CompleteTask` holds.
pub struct CompleteTaskModel {
    pub id: Seq<char>,
    pub completed: Date,
    pub task_id: Seq<char>,
}

impl View for CompleteTask {
    type V = CompleteTaskModel;

    open spec fn view(&self) -> CompleteTaskModel {
        CompleteTaskModel { id: self.id@, completed: self.completed, task_id: self.task_id@ }
    }
}

/// The JSON of a completion: its id and day; the task stays implicit.
pub open spec fn complete_task_json(c: CompleteTaskModel) -> Seq<u8> {
    encode_utf8("{"@) + text_member(true, "id"@, c.id) + raw_member(
        false,
        "completed"@,
        date_json(c.completed),
    ) + encode_utf8("}"@)
}

impl Sql for CompleteTask {
    open spec fn table() -> Seq<char> {
        "complete_tasks"@
    }

    open spec fn to_cells(v: CompleteTaskModel) -> Cells {
        seq![
            ("id"@, text_val(v.id)),
            ("completed"@, SqlVal::Text(date_text(v.completed))),
            ("task_id"@, text_val(v.task_id)),
        ]
    }

    open spec fn of_cells(cells: Cells) -> Option<CompleteTaskModel> {
        match (
            text_cell(column(cells, "id"@)),
            date_cell(column(cells, "completed"@)),
            text_cell(column(cells, "task_id"@)),
        ) {
            (Some(id), Some(completed), Some(task_id)) => Some(
                CompleteTaskModel { id, completed, task_id },
            ),
            _ => None,
        }
    }

    fn to_sql_insert(&self) -> (r: Insert) {
        let columns = vec![
            cell("id", text_value(self.id.as_str())),
            cell("completed", date_value(self.completed)),
            cell("task_id", text_value(self.task_id.as_str())),
        ];
        let r = Insert { table: "complete_tasks", row: SqlRow { columns } };
        assert(r.row@ =~= Self::to_cells(self@));
        r
    }

    fn from_sql_row(row: &SqlRow) -> (r: Result<CompleteTask, RowError>) {
        let id = row.text("id")?;
        let completed = row.date("completed")?;
        let task_id = row.text("task_id")?;
        Ok(CompleteTask { id, completed, task_id })
    }
}

impl CompleteTask {
    /// A new completion of `task_id` on `completed`, under a fresh id.
    pub fn create(completed: Date, task_id: String) -> (r: CompleteTask)
        ensures
            r.completed == completed,
            r.task_id == task_id,
    {
        CompleteTask { id: new_entity_id(), completed, task_id }
    }

    /// The JSON of the completion.
    pub fn to_json(&self) -> (r: Vec<u8>)
        ensures
            r@ == complete_task_json(self@),
    {
        let mut r: Vec<u8> = Vec::new();
        push_text(&mut r, "{");
        push_text_member(&mut r, true, "id", self.id.as_str());
        push_date_member(&mut r, "completed", self.completed);
        push_text(&mut r, "}");
        assert(r@ =~= complete_task_json(self@));
        r
    }
}

/// A stored completion with a real day reads back as the same one.
pub proof fn lemma_complete_task_row_round_trip(c: CompleteTaskModel)
    requires
        c.completed.wf(),
    ensures
        CompleteTask::of_cells(CompleteTask::to_cells(c)) == Some(c),
{
    reveal_strlit("id");
    reveal_strlit("completed");
    reveal_strlit("task_id");
    reveal_with_fuel(crate::row::column_from, 4);
    lemma_date_text_round_trip(c.completed);
    let cells = CompleteTask::to_cells(c);
    assert("id"@.len() == 2 && "completed"@.len() == 9 && "task_id"@.len() == 7);
    assert(column(cells, "id"@) == Some(cells[0].1));
    assert(column(cells, "completed"@) == Some(cells[1].1));
    assert(column(cells, "task_id"@) == Some(cells[2].1));
}

/// Where the server serves from and listens, and how many workers it runs.
pub struct Settings {
    pub root_path: String,
    pub bind_addr: String,
    pub bind_port: String,
    pub n_threads: usize,
    pub data_path: String,
}

impl Settings {
    /// The address to listen on: `addr:port`.
    pub fn address(&self) -> (r: String)
        ensures
            r@ == self.bind_addr@ + ":"@ + self.bind_port@,
    {
        let mut r = self.bind_addr.as_str().to_owned();
        r.append(":");
        r.append(self.bind_port.as_str());
        r
    }
}

/// A body that carries only an id.
pub struct IdCarrier {
    pub id: String,
}

} // verus!
