//! The four parameterized statements of the todo repository. Each is the
//! statement's text together with the values bound to its placeholders, in
//! the order of the placeholders; running it is left to the caller.

use vstd::prelude::*;
use crate::todo::Todo;

verus! {

/// Text of the statement that reads every row, ascending by id.
pub const LIST_SQL: &'static str = "SELECT * FROM todos ORDER BY id ASC";

/// Text of the statement that inserts one row; the id is left to the engine.
pub const ADD_SQL: &'static str =
    "INSERT INTO todos (uuid, text, completed, created_at) VALUES (?, ?, ?, ?)";

/// Text of the statement that deletes the row of one id.
pub const DELETE_SQL: &'static str = "DELETE FROM todos WHERE id = ?";

/// Text of the statement that sets `text` and `completed` on the row of one id.
pub const UPDATE_SQL: &'static str = "UPDATE todos SET text = ?, completed = ? WHERE id = ?";

/// Mathematical value of a [`Param`].
pub enum ParamView {
    Integer(int),
    Text(Seq<char>),
    Boolean(bool),
}

/// A value bound to one placeholder of a statement.
#[derive(Debug, PartialEq, Eq)]
pub enum Param {
    Integer(i64),
    Text(String),
    Boolean(bool),
}

impl View for Param {
    type V = ParamView;

    open spec fn view(&self) -> ParamView {
        match self {
            Param::Integer(n) => ParamView::Integer(*n as int),
            Param::Text(s) => ParamView::Text(s@),
            Param::Boolean(b) => ParamView::Boolean(*b),
        }
    }
}

/// Mathematical value of a [`Statement`].
pub struct StatementView {
    pub sql: Seq<char>,
    pub params: Seq<ParamView>,
}

/// A statement's text and the values for its placeholders, first to last.
#[derive(Debug, PartialEq, Eq)]
pub struct Statement {
    pub sql: &'static str,
    pub params: Vec<Param>,
}

impl View for Statement {
    type V = StatementView;

    open spec fn view(&self) -> StatementView {
        StatementView { sql: self.sql@, params: self.params@.map_values(|p: Param| p@) }
    }
}

/// Number of placeholders among the first `n` characters of `sql`.
pub open spec fn placeholders_before(sql: Seq<char>, n: nat) -> nat
    decreases n,
{
    if n == 0 {
        0
    } else {
        let rest = placeholders_before(sql, (n - 1) as nat);
        if sql[n - 1] == '?' {
            rest + 1
        } else {
            rest
        }
    }
}

/// Number of placeholders in the text `sql`.
pub open spec fn placeholders(sql: Seq<char>) -> nat {
    placeholders_before(sql, sql.len())
}

impl Statement {
    /// As many values are bound as the text has placeholders.
    pub open spec fn well_formed(&self) -> bool {
        placeholders(self.sql@) == self.params@.len()
    }
}

/// The text of the listing has no placeholder.
proof fn lemma_list_placeholders()
    ensures
        placeholders(LIST_SQL@) == 0,
{
    reveal_strlit("SELECT * FROM todos ORDER BY id ASC");
    reveal_with_fuel(placeholders_before, 40);
}

/// The text of the insertion has four placeholders.
proof fn lemma_add_placeholders()
    ensures
        placeholders(ADD_SQL@) == 4,
{
    reveal_strlit("INSERT INTO todos (uuid, text, completed, created_at) VALUES (?, ?, ?, ?)");
    reveal_with_fuel(placeholders_before, 80);
}

/// The text of the deletion has one placeholder.
proof fn lemma_delete_placeholders()
    ensures
        placeholders(DELETE_SQL@) == 1,
{
    reveal_strlit("DELETE FROM todos WHERE id = ?");
    reveal_with_fuel(placeholders_before, 40);
}

/// The text of the update has three placeholders.
proof fn lemma_update_placeholders()
    ensures
        placeholders(UPDATE_SQL@) == 3,
{
    reveal_strlit("UPDATE todos SET text = ?, completed = ? WHERE id = ?");
    reveal_with_fuel(placeholders_before, 60);
}

/// The statement behind a listing: all rows, ascending by id, nothing bound.
pub fn get_todos() -> (out: Statement)
    ensures
        out@ == (StatementView { sql: LIST_SQL@, params: Seq::empty() }),
        out.well_formed(),
{
    let out = Statement { sql: LIST_SQL, params: Vec::new() };
    assert(out@.params =~= Seq::empty());
    proof {
        lemma_list_placeholders();
    }
    out
}

/// The statement that stores `todo`: its `uuid`, `text`, `completed` and
/// `created_at` are bound unmodified, in the order of the columns named in
/// the text. The `id` of `todo` is not bound: the engine assigns it.
pub fn add_todo(todo: Todo) -> (out: Statement)
    ensures
        out@ == (StatementView {
            sql: ADD_SQL@,
            params: seq![
                ParamView::Text(todo@.uuid),
                ParamView::Text(todo@.text),
                ParamView::Boolean(todo@.completed),
                ParamView::Text(todo@.created_at),
            ],
        }),
        out.well_formed(),
{
    proof {
        lemma_add_placeholders();
    }
    let mut params: Vec<Param> = Vec::new();
    params.push(Param::Text(todo.uuid));
    params.push(Param::Text(todo.text));
    params.push(Param::Boolean(todo.completed));
    params.push(Param::Text(todo.created_at));
    let out = Statement { sql: ADD_SQL, params };
    assert(out@.params =~= seq![
        ParamView::Text(todo@.uuid),
        ParamView::Text(todo@.text),
        ParamView::Boolean(todo@.completed),
        ParamView::Text(todo@.created_at),
    ]);
    out
}

/// The statement that deletes the row with the id `id`.
pub fn delete_todo(id: i64) -> (out: Statement)
    ensures
        out@ == (StatementView { sql: DELETE_SQL@, params: seq![ParamView::Integer(id as int)] }),
        out.well_formed(),
{
    proof {
        lemma_delete_placeholders();
    }
    let mut params: Vec<Param> = Vec::new();
    params.push(Param::Integer(id));
    let out = Statement { sql: DELETE_SQL, params };
    assert(out@.params =~= seq![ParamView::Integer(id as int)]);
    out
}

/// The statement that sets `text` and `completed` on the row with the id
/// `id`: the new text first, then the flag, then the id, as the placeholders
/// stand in the text.
pub fn update_todo(id: i64, text: &str, completed: bool) -> (out: Statement)
    ensures
        out@ == (StatementView {
            sql: UPDATE_SQL@,
            params: seq![
                ParamView::Text(text@),
                ParamView::Boolean(completed),
                ParamView::Integer(id as int),
            ],
        }),
        out.well_formed(),
{
    proof {
        lemma_update_placeholders();
    }
    let mut params: Vec<Param> = Vec::new();
    params.push(Param::Text(text.to_owned()));
    params.push(Param::Boolean(completed));
    params.push(Param::Integer(id));
    let out = Statement { sql: UPDATE_SQL, params };
    assert(out@.params =~= seq![
        ParamView::Text(text@),
        ParamView::Boolean(completed),
        ParamView::Integer(id as int),
    ]);
    out
}

} // verus!
