//! Rows as plain values: the columns that a query gives, by name, and the
//! parameters that a statement binds. Entities are read from a row by
//! column name, never by position.

use vstd::prelude::*;
use vstd::utf8::{decode_utf8, encode_utf8, valid_utf8};
use crate::date::{date_of_text, Date};
use crate::request::bytes_eq;
use crate::response::push_text;
use crate::text::{decimal, push_decimal};

verus! {

broadcast use {vstd::utf8::encode_utf8_decode_utf8, vstd::utf8::encode_utf8_valid_utf8};

/// A value in a column.
#[derive(Clone, Debug)]
pub enum SqlValue {
    Null,
    Integer(i64),
    /// Text, as its UTF-8 bytes.
    Text(Vec<u8>),
}

/// What a `SqlValue` holds.
pub enum SqlVal {
    Null,
    Integer(i64),
    Text(Seq<u8>),
}

impl View for SqlValue {
    type V = SqlVal;

    open spec fn view(&self) -> SqlVal {
        match self {
            SqlValue::Null => SqlVal::Null,
            SqlValue::Integer(i) => SqlVal::Integer(*i),
            SqlValue::Text(t) => SqlVal::Text(t@),
        }
    }
}

/// A named column with its value.
#[derive(Clone, Debug)]
pub struct Column {
    pub name: String,
    pub value: SqlValue,
}

/// A row: its columns in the order the query gave them.
#[derive(Clone, Debug)]
pub struct SqlRow {
    pub columns: Vec<Column>,
}

/// Columns as names and values.
pub type Cells = Seq<(Seq<char>, SqlVal)>;

impl View for SqlRow {
    type V = Cells;

    open spec fn view(&self) -> Cells {
        self.columns@.map_values(|c: Column| (c.name@, c.value@))
    }
}

/// Why a row does not describe an entity.
#[derive(Clone, Copy, Debug, PartialEq, Eq, Structural)]
pub enum RowError {
    /// A column that the entity needs is not in the row.
    MissingColumn,
    /// A column holds a value of the wrong kind or out of range.
    InvalidValue,
}

/// The text that describes a row error.
pub open spec fn row_error_text(e: RowError) -> Seq<char> {
    match e {
        RowError::MissingColumn => "a column is missing from the row"@,
        RowError::InvalidValue => "a column holds a value of the wrong kind"@,
    }
}

impl RowError {
    /// A text that describes the error.
    pub fn message(&self) -> (r: &'static str)
        ensures
            r@ == row_error_text(*self),
    {
        match self {
            RowError::MissingColumn => "a column is missing from the row",
            RowError::InvalidValue => "a column holds a value of the wrong kind",
        }
    }
}

/// The value of the first column named `name`, from position `i` on.
pub open spec fn column_from(cells: Cells, name: Seq<char>, i: int) -> Option<SqlVal>
    decreases cells.len() - i,
{
    if i >= cells.len() {
        None
    } else if cells[i].0 == name {
        Some(cells[i].1)
    } else {
        column_from(cells, name, i + 1)
    }
}

/// The value of the first column named `name`.
pub open spec fn column(cells: Cells, name: Seq<char>) -> Option<SqlVal> {
    column_from(cells, name, 0)
}

/// A text column, read as characters.
pub open spec fn text_cell(v: Option<SqlVal>) -> Option<Seq<char>> {
    match v {
        Some(SqlVal::Text(b)) => if valid_utf8(b) {
            Some(decode_utf8(b))
        } else {
            None
        },
        _ => None,
    }
}

/// An integer column.
pub open spec fn int_cell(v: Option<SqlVal>) -> Option<i64> {
    match v {
        Some(SqlVal::Integer(i)) => Some(i),
        _ => None,
    }
}

/// A date column, stored as its text.
pub open spec fn date_cell(v: Option<SqlVal>) -> Option<Date> {
    match v {
        Some(SqlVal::Text(b)) => date_of_text(b),
        _ => None,
    }
}

/// A date column that may be null: `Some(None)` for null.
pub open spec fn opt_date_cell(v: Option<SqlVal>) -> Option<Option<Date>> {
    match v {
        Some(SqlVal::Null) => Some(None),
        Some(SqlVal::Text(b)) => match date_of_text(b) {
            Some(d) => Some(Some(d)),
            None => None,
        },
        _ => None,
    }
}

/// A text value holding the UTF-8 bytes of `s`.
pub open spec fn text_val(s: Seq<char>) -> SqlVal {
    SqlVal::Text(encode_utf8(s))
}

/// Relies on `String::from_utf8`: the text that the bytes encode, or none
/// where they are not UTF-8.
#[verifier::external_body]
pub(crate) fn text_of(b: &[u8]) -> (r: Option<String>)
    ensures
        match r {
            Some(s) => valid_utf8(b@) && s@ == decode_utf8(b@),
            None => !valid_utf8(b@),
        },
{
    String::from_utf8(b.to_vec()).ok()
}

/// Equality of two texts.
pub fn str_eq(a: &str, b: &str) -> (r: bool)
    ensures
        r == (a@ == b@),
{
    let e = bytes_eq(a.as_bytes(), b.as_bytes());
    proof {
        if e {
            assert(decode_utf8(encode_utf8(a@)) == decode_utf8(encode_utf8(b@)));
        }
    }
    e
}

/// The bytes of a text, as a text value.
pub fn text_value(s: &str) -> (r: SqlValue)
    ensures
        r@ == text_val(s@),
{
    let mut b: Vec<u8> = Vec::new();
    push_text(&mut b, s);
    assert(b@ =~= encode_utf8(s@));
    SqlValue::Text(b)
}

/// A named column.
pub fn cell(name: &str, value: SqlValue) -> (r: Column)
    ensures
        r.name@ == name@,
        r.value == value,
{
    Column { name: name.to_owned(), value }
}

impl SqlRow {
    /// The value of the first column named `name`.
    pub fn get(&self, name: &str) -> (r: Option<&SqlValue>)
        ensures
            match r {
                Some(v) => column(self@, name@) == Some(v@),
                None => column(self@, name@) is None,
            },
    {
        let mut i: usize = 0;
        while i < self.columns.len()
            invariant
                i <= self.columns@.len(),
                column(self@, name@) == column_from(self@, name@, i as int),
            decreases self.columns@.len() - i,
        {
            if str_eq(self.columns[i].name.as_str(), name) {
                return Some(&self.columns[i].value);
            }
            i = i + 1;
        }
        None
    }

    /// A text column, read as characters.
    pub fn text(&self, name: &str) -> (r: Result<String, RowError>)
        ensures
            match r {
                Ok(s) => text_cell(column(self@, name@)) == Some(s@),
                Err(_) => text_cell(column(self@, name@)) is None,
            },
    {
        match self.get(name) {
            Some(SqlValue::Text(b)) => match text_of(b.as_slice()) {
                Some(s) => Ok(s),
                None => Err(RowError::InvalidValue),
            },
            Some(_) => Err(RowError::InvalidValue),
            None => Err(RowError::MissingColumn),
        }
    }

    /// An integer column.
    pub fn integer(&self, name: &str) -> (r: Result<i64, RowError>)
        ensures
            match r {
                Ok(i) => int_cell(column(self@, name@)) == Some(i),
                Err(_) => int_cell(column(self@, name@)) is None,
            },
    {
        match self.get(name) {
            Some(SqlValue::Integer(i)) => Ok(*i),
            Some(_) => Err(RowError::InvalidValue),
            None => Err(RowError::MissingColumn),
        }
    }

    /// A date column, stored as its text.
    pub fn date(&self, name: &str) -> (r: Result<Date, RowError>)
        ensures
            match r {
                Ok(d) => date_cell(column(self@, name@)) == Some(d),
                Err(_) => date_cell(column(self@, name@)) is None,
            },
    {
        match self.get(name) {
            Some(SqlValue::Text(b)) => match Date::from_text(b.as_slice()) {
                Some(d) => Ok(d),
                None => Err(RowError::InvalidValue),
            },
            Some(_) => Err(RowError::InvalidValue),
            None => Err(RowError::MissingColumn),
        }
    }
}

impl SqlRow {
    /// A date column that may be null.
    pub fn optional_date(&self, name: &str) -> (r: Result<Option<Date>, RowError>)
        ensures
            match r {
                Ok(d) => opt_date_cell(column(self@, name@)) == Some(d),
                Err(_) => opt_date_cell(column(self@, name@)) is None,
            },
    {
        match self.get(name) {
            Some(SqlValue::Null) => Ok(None),
            Some(SqlValue::Text(b)) => match Date::from_text(b.as_slice()) {
                Some(d) => Ok(Some(d)),
                None => Err(RowError::InvalidValue),
            },
            Some(_) => Err(RowError::InvalidValue),
            None => Err(RowError::MissingColumn),
        }
    }
}

/// A statement with parameters bound by position: `?1` takes the first.
pub struct Query {
    pub sql: &'static str,
    pub params: Vec<SqlValue>,
}

/// An insert of one row into a table.
pub struct Insert {
    pub table: &'static str,
    pub row: SqlRow,
}

/// The parameter list `?1, ?2, ...` for positions `from` up to `n`.
pub open spec fn placeholders(from: nat, n: nat) -> Seq<u8>
    decreases n - from,
{
    if from >= n {
        seq![]
    } else {
        let sep: Seq<u8> = if from == 0 {
            seq![]
        } else {
            encode_utf8(", "@)
        };
        sep + encode_utf8("?"@) + decimal(from + 1) + placeholders(from + 1, n)
    }
}

/// The column names of a row, joined with `, `, from position `from` on.
pub open spec fn column_list(cells: Cells, from: int) -> Seq<u8>
    decreases cells.len() - from,
{
    if from >= cells.len() {
        seq![]
    } else {
        let sep: Seq<u8> = if from == 0 {
            seq![]
        } else {
            encode_utf8(", "@)
        };
        sep + encode_utf8(cells[from].0) + column_list(cells, from + 1)
    }
}

/// The text of an insert: `INSERT INTO t (a, b) VALUES (?1, ?2)`.
pub open spec fn insert_sql(table: Seq<char>, cells: Cells) -> Seq<u8> {
    encode_utf8("INSERT INTO "@) + encode_utf8(table) + encode_utf8(" ("@) + column_list(cells, 0)
        + encode_utf8(") VALUES ("@) + placeholders(0, cells.len()) + encode_utf8(")"@)
}

impl Insert {
    /// The statement text, one numbered parameter per column; the values
    /// bind in column order.
    pub fn sql(&self) -> (r: Vec<u8>)
        ensures
            r@ == insert_sql(self.table@, self.row@),
    {
        let mut r: Vec<u8> = Vec::new();
        push_text(&mut r, "INSERT INTO ");
        push_text(&mut r, self.table);
        push_text(&mut r, " (");
        let cols = &self.row.columns;
        let n = cols.len();
        let ghost pre = r@;
        let mut i: usize = 0;
        while i < n
            invariant
                n == cols@.len() == self.row@.len(),
                cols@ == self.row.columns@,
                i <= n,
                pre + column_list(self.row@, 0) == r@ + column_list(self.row@, i as int),
            decreases n - i,
        {
            let ghost before = r@;
            if i > 0 {
                push_text(&mut r, ", ");
            }
            push_text(&mut r, cols[i].name.as_str());
            assert(self.row@[i as int].0 == cols@[i as int].name@);
            proof {
                let sep: Seq<u8> = if i == 0 {
                    seq![]
                } else {
                    encode_utf8(", "@)
                };
                assert(r@ =~= before + sep + encode_utf8(self.row@[i as int].0));
                assert(before + column_list(self.row@, i as int) =~= r@ + column_list(
                    self.row@,
                    i + 1,
                ));
            }
            i = i + 1;
        }
        assert(r@ + column_list(self.row@, n as int) =~= r@);
        push_text(&mut r, ") VALUES (");
        let ghost pre2 = r@;
        let mut k: usize = 0;
        while k < n
            invariant
                n == self.row@.len(),
                k <= n,
                pre2 + placeholders(0, n as nat) == r@ + placeholders(k as nat, n as nat),
            decreases n - k,
        {
            let ghost before = r@;
            if k > 0 {
                push_text(&mut r, ", ");
            }
            push_text(&mut r, "?");
            push_decimal(&mut r, k + 1);
            proof {
                let sep: Seq<u8> = if k == 0 {
                    seq![]
                } else {
                    encode_utf8(", "@)
                };
                assert(r@ =~= before + sep + encode_utf8("?"@) + decimal((k + 1) as nat));
                assert(before + placeholders(k as nat, n as nat) =~= r@ + placeholders(
                    (k + 1) as nat,
                    n as nat,
                ));
            }
            k = k + 1;
        }
        assert(r@ + placeholders(n as nat, n as nat) =~= r@);
        push_text(&mut r, ")");
        assert(r@ =~= insert_sql(self.table@, self.row@));
        r
    }
}

} // verus!
