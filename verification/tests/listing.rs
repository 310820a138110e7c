use simple_todo::listing::collect_rows;
use simple_todo::todo::Todo;

fn row(id: i64, text: &str) -> Todo {
    Todo {
        id,
        uuid: format!("uuid-{}", id),
        text: text.to_string(),
        completed: false,
        created_at: "2024-01-01T00:00:00+00:00".to_string(),
    }
}

fn ids(rows: &Vec<Todo>) -> Vec<i64> {
    let mut out: Vec<i64> = Vec::new();
    for r in rows {
        out.push(r.id);
    }
    out
}

#[test]
fn empty_delivery_lists_nothing() {
    assert_eq!(collect_rows(Vec::new()), Vec::<Todo>::new());
}

#[test]
fn ascending_delivery_is_kept() {
    let listed = collect_rows(vec![row(1, "a"), row(2, "b"), row(3, "c")]);
    assert_eq!(listed, vec![row(1, "a"), row(2, "b"), row(3, "c")]);
}

#[test]
fn unordered_delivery_is_sorted_by_id() {
    let listed = collect_rows(vec![row(3, "c"), row(1, "a"), row(2, "b")]);
    assert_eq!(ids(&listed), vec![1, 2, 3]);
    assert_eq!(listed, vec![row(1, "a"), row(2, "b"), row(3, "c")]);
}

#[test]
fn descending_delivery_is_reversed() {
    let listed = collect_rows(vec![row(9, "z"), row(5, "m"), row(-4, "neg"), row(-7, "low")]);
    assert_eq!(ids(&listed), vec![-7, -4, 5, 9]);
}

#[test]
fn last_row_of_an_id_stays() {
    let listed = collect_rows(vec![row(2, "first"), row(1, "one"), row(2, "second")]);
    assert_eq!(listed, vec![row(1, "one"), row(2, "second")]);
}

#[test]
fn many_rows_of_one_id_give_one() {
    let listed = collect_rows(vec![row(7, "a"), row(7, "b"), row(7, "c")]);
    assert_eq!(listed, vec![row(7, "c")]);
}

#[test]
fn rows_are_carried_over_unmodified() {
    let odd = Todo {
        id: i64::MAX,
        uuid: "  spaced \u{00e9}\u{4e2d}  ".to_string(),
        text: "line\nbreak\t'quote' \"double\" \\".to_string(),
        completed: true,
        created_at: String::new(),
    };
    let listed = collect_rows(vec![odd.clone(), row(i64::MIN, "min")]);
    assert_eq!(listed.len(), 2);
    assert_eq!(listed[0], row(i64::MIN, "min"));
    assert_eq!(listed[1], odd);
}

#[test]
fn listing_is_strictly_ascending() {
    let listed = collect_rows(vec![
        row(4, "d"), row(2, "b"), row(4, "d2"), row(8, "h"), row(1, "a"), row(2, "b2"),
    ]);
    assert_eq!(ids(&listed), vec![1, 2, 4, 8]);
    for i in 1..listed.len() {
        assert!(listed[i - 1].id < listed[i].id);
    }
    assert_eq!(listed[1].text, "b2");
    assert_eq!(listed[2].text, "d2");
}
