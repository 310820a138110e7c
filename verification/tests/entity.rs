use simple_todo::config::{ConnectConfig, JournalMode, Synchronous};
use simple_todo::migration::{migrations, CREATE_TODOS_NAME, CREATE_TODOS_SQL};
use simple_todo::statement::{
    add_todo, delete_todo, get_todos, update_todo, Param, ADD_SQL, DELETE_SQL, LIST_SQL,
    UPDATE_SQL,
};
use simple_todo::todo::Todo;

#[test]
fn new_todo_is_open_and_unstored() {
    let t = Todo::new("u-1".to_string(), "buy milk".to_string(), "2024-05-06T07:08:09+00:00".to_string());
    assert_eq!(t.id, 0);
    assert_eq!(t.uuid, "u-1");
    assert_eq!(t.text, "buy milk");
    assert!(!t.completed);
    assert_eq!(t.created_at, "2024-05-06T07:08:09+00:00");
}

#[test]
fn clone_keeps_every_field() {
    let t = Todo { id: 5, uuid: "u".to_string(), text: "t".to_string(), completed: true, created_at: "c".to_string() };
    assert_eq!(t.clone(), t);
}

#[test]
fn created_todo_keeps_text_and_is_stamped() {
    let t = Todo::create("walk dog");
    assert_eq!(t.id, 0);
    assert_eq!(t.text, "walk dog");
    assert!(!t.completed);
    let uuid: Vec<char> = t.uuid.chars().collect();
    assert_eq!(uuid.len(), 36);
    assert_eq!(uuid[8], '-');
    assert_eq!(uuid[13], '-');
    assert_eq!(uuid[18], '-');
    assert_eq!(uuid[23], '-');
    assert_eq!(uuid[14], '4');
    assert!(matches!(uuid[19], '8' | '9' | 'a' | 'b'));
    for (i, c) in uuid.iter().enumerate() {
        if i != 8 && i != 13 && i != 18 && i != 23 {
            assert!(c.is_ascii_hexdigit() && !c.is_ascii_uppercase());
        }
    }
    assert!(t.created_at.len() >= 25);
    assert!(t.created_at.ends_with("+00:00"));
    assert_eq!(&t.created_at[10..11], "T");
}

#[test]
fn created_todos_differ_in_uuid() {
    let a = Todo::create("same");
    let b = Todo::create("same");
    assert_ne!(a.uuid, b.uuid);
}

#[test]
fn created_todo_keeps_empty_and_unicode_text() {
    assert_eq!(Todo::create("").text, "");
    assert_eq!(Todo::create("caf\u{00e9} \u{1f600}").text, "caf\u{00e9} \u{1f600}");
}

#[test]
fn list_statement_binds_nothing() {
    let st = get_todos();
    assert_eq!(st.sql, "SELECT * FROM todos ORDER BY id ASC");
    assert_eq!(st.sql, LIST_SQL);
    assert!(st.params.is_empty());
}

#[test]
fn add_statement_binds_the_four_fields_in_order() {
    let t = Todo { id: 77, uuid: "u-9".to_string(), text: "buy milk".to_string(), completed: false, created_at: "now".to_string() };
    let st = add_todo(t);
    assert_eq!(st.sql, "INSERT INTO todos (uuid, text, completed, created_at) VALUES (?, ?, ?, ?)");
    assert_eq!(st.sql, ADD_SQL);
    assert_eq!(
        st.params,
        vec![
            Param::Text("u-9".to_string()),
            Param::Text("buy milk".to_string()),
            Param::Boolean(false),
            Param::Text("now".to_string()),
        ]
    );
}

#[test]
fn add_statement_keeps_a_set_flag() {
    let t = Todo { id: 0, uuid: String::new(), text: String::new(), completed: true, created_at: String::new() };
    let st = add_todo(t);
    assert_eq!(st.params[2], Param::Boolean(true));
}

#[test]
fn delete_statement_binds_the_id() {
    let st = delete_todo(42);
    assert_eq!(st.sql, "DELETE FROM todos WHERE id = ?");
    assert_eq!(st.sql, DELETE_SQL);
    assert_eq!(st.params, vec![Param::Integer(42)]);
    assert_eq!(delete_todo(i64::MIN).params, vec![Param::Integer(i64::MIN)]);
}

#[test]
fn update_statement_binds_text_flag_id() {
    let st = update_todo(1, "buy oat milk", true);
    assert_eq!(st.sql, "UPDATE todos SET text = ?, completed = ? WHERE id = ?");
    assert_eq!(st.sql, UPDATE_SQL);
    assert_eq!(
        st.params,
        vec![Param::Text("buy oat milk".to_string()), Param::Boolean(true), Param::Integer(1)]
    );
}

#[test]
fn pool_settings_are_wal_and_normal() {
    let c = ConnectConfig::for_url("sqlite:///home/me/.simple-todo-db/db.sqlite");
    assert_eq!(c.url, "sqlite:///home/me/.simple-todo-db/db.sqlite");
    assert!(c.create_if_missing);
    assert_eq!(c.journal_mode, JournalMode::Wal);
    assert_eq!(c.synchronous, Synchronous::Normal);
}

#[test]
fn schema_has_one_step() {
    let steps = migrations();
    assert_eq!(steps.len(), 1);
    assert_eq!(steps[0].version, 1);
    assert_eq!(steps[0].description, CREATE_TODOS_NAME);
    assert_eq!(steps[0].sql, CREATE_TODOS_SQL);
    assert!(steps[0].sql.starts_with("CREATE TABLE todos (id INTEGER PRIMARY KEY"));
}

#[test]
fn database_url_joins_scheme_directory_and_file() {
    assert_eq!(
        simple_todo::config::database_url("/home/me/.simple-todo-db"),
        "sqlite:///home/me/.simple-todo-db/db.sqlite"
    );
}

#[test]
fn database_url_turns_backslashes_into_slashes() {
    assert_eq!(
        simple_todo::config::database_url("C:\\Users\\me\\.simple-todo-db"),
        "sqlite://C:/Users/me/.simple-todo-db/db.sqlite"
    );
}

#[test]
fn database_url_of_empty_directory() {
    assert_eq!(simple_todo::config::database_url(""), "sqlite:///db.sqlite");
}

#[test]
fn database_url_keeps_other_characters() {
    assert_eq!(
        simple_todo::config::database_url("/t\u{00e9}st dir/\u{4e2d}"),
        "sqlite:///t\u{00e9}st dir/\u{4e2d}/db.sqlite"
    );
    assert_eq!(simple_todo::config::DATABASE_DIR, ".simple-todo-db");
    assert_eq!(simple_todo::config::DATABASE_FILE, "db.sqlite");
}

#[test]
fn statements_bind_one_value_per_placeholder() {
    let t = Todo { id: 0, uuid: "u".to_string(), text: "t".to_string(), completed: false, created_at: "c".to_string() };
    for st in [get_todos(), add_todo(t), delete_todo(1), update_todo(1, "x", false)] {
        assert_eq!(st.sql.chars().filter(|c| *c == '?').count(), st.params.len());
    }
}
