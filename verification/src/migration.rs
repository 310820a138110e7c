//! The schema of the database, as an ordered list of forward migrations.
//! Applying them, and keeping book of which were applied, is the caller's
//! part.

use vstd::prelude::*;

verus! {

/// Text of the migration that creates the `todos` table.
pub const CREATE_TODOS_SQL: &'static str =
    "CREATE TABLE todos (id INTEGER PRIMARY KEY AUTOINCREMENT, uuid TEXT, text TEXT, completed BOOLEAN, created_at TEXT)";

/// What the first migration is called in the bookkeeping.
pub const CREATE_TODOS_NAME: &'static str = "create todos";

/// Mathematical value of a [`Migration`].
pub struct MigrationView {
    pub version: int,
    pub description: Seq<char>,
    pub sql: Seq<char>,
}

/// One forward step of the schema.
#[derive(Debug, Clone, Copy, PartialEq, Eq)]
pub struct Migration {
    pub version: i64,
    pub description: &'static str,
    pub sql: &'static str,
}

impl View for Migration {
    type V = MigrationView;

    open spec fn view(&self) -> MigrationView {
        MigrationView {
            version: self.version as int,
            description: self.description@,
            sql: self.sql@,
        }
    }
}

/// Versions are positive and grow strictly from each step to the next.
pub open spec fn is_ordered(steps: Seq<Migration>) -> bool {
    &&& forall|i: int| 0 <= i < steps.len() ==> (#[trigger] steps[i]).version > 0
    &&& forall|i: int, j: int| 0 <= i < j < steps.len() ==> steps[i].version < steps[j].version
}

/// The migrations of this schema, in the order in which they apply: one
/// step, version 1, which creates the `todos` table.
pub fn migrations() -> (steps: Vec<Migration>)
    ensures
        steps@.len() == 1,
        steps@[0]@ == (MigrationView {
            version: 1,
            description: CREATE_TODOS_NAME@,
            sql: CREATE_TODOS_SQL@,
        }),
        is_ordered(steps@),
{
    let mut steps: Vec<Migration> = Vec::new();
    steps.push(Migration { version: 1, description: CREATE_TODOS_NAME, sql: CREATE_TODOS_SQL });
    steps
}

} // verus!
