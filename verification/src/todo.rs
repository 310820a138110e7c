//! The todo entity and its creation.

use vstd::prelude::*;

verus! {

/// Mathematical value of a [`Todo`].
pub struct TodoView {
    pub id: int,
    pub uuid: Seq<char>,
    pub text: Seq<char>,
    pub completed: bool,
    pub created_at: Seq<char>,
}

/// One persisted task item.
///
/// `id` is assigned by the storage engine; a value that has not been stored
/// yet carries `0` there. `uuid` and `created_at` are fixed at creation,
/// `text` and `completed` may change afterwards.
#[derive(Debug, PartialEq, Eq)]
pub struct Todo {
    pub id: i64,
    pub uuid: String,
    pub text: String,
    pub completed: bool,
    pub created_at: String,
}

impl View for Todo {
    type V = TodoView;

    open spec fn view(&self) -> TodoView {
        TodoView {
            id: self.id as int,
            uuid: self.uuid@,
            text: self.text@,
            completed: self.completed,
            created_at: self.created_at@,
        }
    }
}

impl Clone for Todo {
    fn clone(&self) -> (out: Todo)
        ensures
            out == *self,
    {
        Todo {
            id: self.id,
            uuid: self.uuid.clone(),
            text: self.text.clone(),
            completed: self.completed,
            created_at: self.created_at.clone(),
        }
    }
}

/// Whether `c` is a digit of lower-case hexadecimal notation.
pub open spec fn is_lower_hex(c: char) -> bool {
    ||| c == '0'
    ||| c == '1'
    ||| c == '2'
    ||| c == '3'
    ||| c == '4'
    ||| c == '5'
    ||| c == '6'
    ||| c == '7'
    ||| c == '8'
    ||| c == '9'
    ||| c == 'a'
    ||| c == 'b'
    ||| c == 'c'
    ||| c == 'd'
    ||| c == 'e'
    ||| c == 'f'
}

/// Whether `s` has the hyphenated shape of a random (version 4) identifier:
/// 36 characters, a hyphen after the 8th, 12th, 16th and 20th digit,
/// lower-case hexadecimal digits elsewhere, the version digit `4` and a
/// variant digit of `8`, `9`, `a` or `b`.
pub open spec fn is_hyphenated_v4(s: Seq<char>) -> bool {
    &&& s.len() == 36
    &&& forall|i: int|
        0 <= i < 36 ==> if i == 8 || i == 13 || i == 18 || i == 23 {
            #[trigger] s[i] == '-'
        } else {
            is_lower_hex(s[i])
        }
    &&& s[14] == '4'
    &&& (s[19] == '8' || s[19] == '9' || s[19] == 'a' || s[19] == 'b')
}

/// Draws a random identifier with `uuid::Uuid::new_v4` and renders it through
/// its `Display` impl.
///
/// Trusted: the text is the hyphenated lower-case form, 36 characters with
/// hyphens at offsets 8, 13, 18 and 23 and hexadecimal digits elsewhere; the
/// version digit at offset 14 is `4` and the variant digit at offset 19 is
/// one of `8`, `9`, `a`, `b`. Which identifier is drawn is left open.
#[verifier::external_body]
fn fresh_uuid() -> (out: String)
    ensures
        is_hyphenated_v4(out@),
{
    uuid::Uuid::new_v4().to_string()
}

/// Reads the clock with `chrono::Utc::now` and renders the instant with
/// `DateTime::to_rfc3339`.
///
/// Trusted: nothing is claimed of the text, which depends on the time of the
/// call.
#[verifier::external_body]
fn timestamp_now() -> (out: String)
{
    chrono::Utc::now().to_rfc3339()
}

impl Todo {
    /// A fresh, not yet stored todo: `completed` is `false`, `id` is `0`, and
    /// the three strings are kept as given.
    pub fn new(uuid: String, text: String, created_at: String) -> (out: Todo)
        ensures
            out@ == (TodoView {
                id: 0,
                uuid: uuid@,
                text: text@,
                completed: false,
                created_at: created_at@,
            }),
    {
        Todo { id: 0, uuid, text, completed: false, created_at }
    }

    /// A fresh todo for `text`, stamped with a random identifier and the
    /// current time. Whatever identifier and time come back, the text is kept,
    /// the item is open and it carries no storage id yet.
    pub fn create(text: &str) -> (out: Todo)
        ensures
            out@.id == 0,
            out@.text == text@,
            !out@.completed,
            is_hyphenated_v4(out@.uuid),
    {
        let uuid = fresh_uuid();
        let created_at = timestamp_now();
        Todo::new(uuid, text.to_owned(), created_at)
    }
}

} // verus!
