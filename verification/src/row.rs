//! Decoding of delivered rows into todos. A row is read column by column,
//! by name; a row that lacks a column, or holds a value of another type in
//! it, fails the whole listing.

use vstd::prelude::*;
use sqlx::Row;
use sqlx::sqlite::SqliteRow;
use crate::listing::{collect_rows, is_listing_of, views};
use crate::todo::{Todo, TodoView};

verus! {

/// A row as the engine delivers it.
#[verifier::external_type_specification]
#[verifier::external_body]
pub struct ExSqliteRow(sqlx::sqlite::SqliteRow);

/// The error of the storage layer.
#[verifier::external_type_specification]
#[verifier::external_body]
pub struct ExSqlxError(sqlx::Error);

/// The columns of `row` that read as a 64-bit integer, by name.
pub uninterp spec fn integer_columns(row: SqliteRow) -> Map<Seq<char>, int>;

/// The columns of `row` that read as text, by name.
pub uninterp spec fn text_columns(row: SqliteRow) -> Map<Seq<char>, Seq<char>>;

/// The columns of `row` that read as a truth value, by name.
pub uninterp spec fn flag_columns(row: SqliteRow) -> Map<Seq<char>, bool>;

/// Reads the column `name` of `row` as an `i64` with `sqlx::Row::try_get`.
///
/// Trusted: the call succeeds exactly on the columns that
/// [`integer_columns`] names, with the value it gives there; on any other
/// name it returns the engine's error (no such column, or a value that is
/// no integer).
#[verifier::external_body]
fn integer_column(row: &SqliteRow, name: &str) -> (out: Result<i64, sqlx::Error>)
    ensures
        out is Ok <==> integer_columns(*row).contains_key(name@),
        out is Ok ==> integer_columns(*row)[name@] == out->Ok_0,
{
    row.try_get::<i64, &str>(name)
}

/// Reads the column `name` of `row` as a `String` with `sqlx::Row::try_get`.
///
/// Trusted: the call succeeds exactly on the columns that [`text_columns`]
/// names, with the text it gives there; on any other name it returns the
/// engine's error.
#[verifier::external_body]
fn text_column(row: &SqliteRow, name: &str) -> (out: Result<String, sqlx::Error>)
    ensures
        out is Ok <==> text_columns(*row).contains_key(name@),
        out is Ok ==> text_columns(*row)[name@] == out->Ok_0@,
{
    row.try_get::<String, &str>(name)
}

/// Reads the column `name` of `row` as a `bool` with `sqlx::Row::try_get`.
///
/// Trusted: the call succeeds exactly on the columns that [`flag_columns`]
/// names, with the value it gives there; on any other name it returns the
/// engine's error.
#[verifier::external_body]
fn flag_column(row: &SqliteRow, name: &str) -> (out: Result<bool, sqlx::Error>)
    ensures
        out is Ok <==> flag_columns(*row).contains_key(name@),
        out is Ok ==> flag_columns(*row)[name@] == out->Ok_0,
{
    row.try_get::<bool, &str>(name)
}

/// The error of the first column that failed, in the order `id`, `uuid`,
/// `text`, `completed`, `created_at`; `None` where all five were read.
pub open spec fn first_error<E>(
    id: Result<i64, E>,
    uuid: Result<String, E>,
    text: Result<String, E>,
    completed: Result<bool, E>,
    created_at: Result<String, E>,
) -> Option<E> {
    if id is Err {
        Some(id->Err_0)
    } else if uuid is Err {
        Some(uuid->Err_0)
    } else if text is Err {
        Some(text->Err_0)
    } else if completed is Err {
        Some(completed->Err_0)
    } else if created_at is Err {
        Some(created_at->Err_0)
    } else {
        None
    }
}

/// Puts the five columns of a row together. Where all were read, the todo
/// holds each value unmodified; else the error of the first column that
/// failed comes back and no todo is made.
pub fn todo_from_columns<E>(
    id: Result<i64, E>,
    uuid: Result<String, E>,
    text: Result<String, E>,
    completed: Result<bool, E>,
    created_at: Result<String, E>,
) -> (out: Result<Todo, E>)
    ensures
        out is Ok <==> first_error(id, uuid, text, completed, created_at) is None,
        out is Ok ==> out->Ok_0@ == (TodoView {
            id: id->Ok_0 as int,
            uuid: uuid->Ok_0@,
            text: text->Ok_0@,
            completed: completed->Ok_0,
            created_at: created_at->Ok_0@,
        }),
        out is Err ==> first_error(id, uuid, text, completed, created_at) == Some(out->Err_0),
{
    let id = match id {
        Ok(v) => v,
        Err(e) => { return Err(e); },
    };
    let uuid = match uuid {
        Ok(v) => v,
        Err(e) => { return Err(e); },
    };
    let text = match text {
        Ok(v) => v,
        Err(e) => { return Err(e); },
    };
    let completed = match completed {
        Ok(v) => v,
        Err(e) => { return Err(e); },
    };
    let created_at = match created_at {
        Ok(v) => v,
        Err(e) => { return Err(e); },
    };
    Ok(Todo { id, uuid, text, completed, created_at })
}

/// `row` holds the five columns of a todo, each of its type.
pub open spec fn has_todo_columns(row: SqliteRow) -> bool {
    &&& integer_columns(row).contains_key("id"@)
    &&& text_columns(row).contains_key("uuid"@)
    &&& text_columns(row).contains_key("text"@)
    &&& flag_columns(row).contains_key("completed"@)
    &&& text_columns(row).contains_key("created_at"@)
}

/// The todo that the five columns of `row` hold.
pub open spec fn row_todo(row: SqliteRow) -> TodoView {
    TodoView {
        id: integer_columns(row)["id"@],
        uuid: text_columns(row)["uuid"@],
        text: text_columns(row)["text"@],
        completed: flag_columns(row)["completed"@],
        created_at: text_columns(row)["created_at"@],
    }
}

/// Decodes one delivered row: a todo with the values of its five columns
/// where the row holds them all, else the error of the first column that
/// could not be read.
pub fn decode_row(row: &SqliteRow) -> (out: Result<Todo, sqlx::Error>)
    ensures
        out is Ok <==> has_todo_columns(*row),
        out is Ok ==> out->Ok_0@ == row_todo(*row),
{
    let id = integer_column(row, "id");
    let uuid = text_column(row, "uuid");
    let text = text_column(row, "text");
    let completed = flag_column(row, "completed");
    let created_at = text_column(row, "created_at");
    todo_from_columns(id, uuid, text, completed, created_at)
}

/// The todos that the delivered `rows` hold.
pub open spec fn row_todos(rows: Seq<SqliteRow>) -> Seq<TodoView> {
    rows.map_values(|r: SqliteRow| row_todo(r))
}

/// Decodes the delivered rows and orders them into a listing. One row that
/// cannot be decoded fails the call: no partial listing comes back.
pub fn todos_from_rows(rows: &Vec<SqliteRow>) -> (out: Result<Vec<Todo>, sqlx::Error>)
    ensures
        out is Ok <==> forall|k: int| 0 <= k < rows@.len() ==> has_todo_columns(#[trigger] rows@[k]),
        out is Ok ==> is_listing_of(views(out->Ok_0@), row_todos(rows@)),
{
    let mut delivered: Vec<Todo> = Vec::new();
    let mut k: usize = 0;
    while k < rows.len()
        invariant
            k <= rows@.len(),
            delivered@.len() == k,
            forall|m: int| 0 <= m < k ==> has_todo_columns(#[trigger] rows@[m]),
            forall|m: int| 0 <= m < k ==> (#[trigger] delivered@[m])@ == row_todo(rows@[m]),
        decreases rows@.len() - k,
    {
        match decode_row(&rows[k]) {
            Ok(todo) => {
                delivered.push(todo);
            },
            Err(e) => {
                assert(!has_todo_columns(rows@[k as int]));
                return Err(e);
            },
        }
        k += 1;
    }
    assert(views(delivered@) =~= row_todos(rows@));
    Ok(collect_rows(delivered))
}

} // verus!
