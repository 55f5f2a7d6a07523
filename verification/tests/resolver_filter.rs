use tarea::error::TaskError;
use tarea::resolve::{
    find_task_by_id, format_task_not_found_message, is_number, parse_index, resolve_task, short_id,
};
use tarea::status::{Status, StatusFilter};
use tarea::store::{build_task_query, get_db_path};
use tarea::task::Task;

fn task(id: &str, name: &str, status: Status) -> Task {
    Task {
        id: id.to_string(),
        date: "2024-01-01 10:00:00".to_string(),
        name: name.to_string(),
        description: String::new(),
        status,
        due_date: None,
    }
}

#[test]
fn resolver_positional_reference_picks_by_position() {
    let tasks = vec![
        task("aaaa1111xxxx", "A", Status::Pending),
        task("bbbb2222yyyy", "B", Status::Pending),
        task("cccc3333zzzz", "C", Status::Pending),
    ];
    let found = resolve_task(&tasks, "2", false).unwrap().unwrap();
    assert_eq!(found.name, "B");
    let first = resolve_task(&tasks, "1", false).unwrap().unwrap();
    assert_eq!(first.name, "A");
    let last = resolve_task(&tasks, "3", false).unwrap().unwrap();
    assert_eq!(last.name, "C");
}

#[test]
fn resolver_ambiguous_prefix_lists_short_ids() {
    let tasks = vec![
        task("abc123456789", "first", Status::Pending),
        task("abc999999999", "second", Status::Pending),
    ];
    let err = resolve_task(&tasks, "abc", false).unwrap_err();
    match err {
        TaskError::InvalidId(msg) => {
            assert_eq!(msg, "Ambiguous ID 'abc', matches: abc12345, abc99999");
        }
        other => panic!("expected InvalidId, got {:?}", other),
    }
}

#[test]
fn resolver_unknown_reference_is_not_found() {
    let tasks = vec![
        task("aaaa1111xxxx", "A", Status::Pending),
        task("bbbb2222yyyy", "B", Status::Pending),
    ];
    assert!(resolve_task(&tasks, "zzz", false).unwrap().is_none());
}

#[test]
fn resolver_numeric_reference_falls_through_to_prefix() {
    // "42" names no position in a 1-element list, but is a legal id prefix.
    let tasks = vec![task("42numeric-id", "numbered", Status::Pending)];
    let found = resolve_task(&tasks, "42", false).unwrap().unwrap();
    assert_eq!(found.name, "numbered");
    // An out-of-range position with no matching prefix is simply not found.
    let more = vec![
        task("aaaa1111xxxx", "A", Status::Pending),
        task("bbbb2222yyyy", "B", Status::Pending),
    ];
    assert!(resolve_task(&more, "7", false).unwrap().is_none());
    // Position zero does not exist in a 1-based list.
    assert!(resolve_task(&more, "0", false).unwrap().is_none());
}

#[test]
fn resolver_scope_hides_done_tasks_unless_all() {
    let tasks = vec![
        task("aaaa1111xxxx", "finished", Status::Done),
        task("bbbb2222yyyy", "open", Status::Pending),
    ];
    // Scoped to pending, position 1 is the pending task.
    let scoped = resolve_task(&tasks, "1", false).unwrap().unwrap();
    assert_eq!(scoped.name, "open");
    // Scoped to all, position 1 is the newest task of any status.
    let all = resolve_task(&tasks, "1", true).unwrap().unwrap();
    assert_eq!(all.name, "finished");
}

#[test]
fn find_task_by_id_single_match_returns_it() {
    let tasks = vec![
        task("abc123456789", "first", Status::Pending),
        task("xyz999999999", "second", Status::Done),
    ];
    let found = find_task_by_id(&tasks, "xyz").unwrap().unwrap();
    assert_eq!(found.name, "second");
    assert!(find_task_by_id(&tasks, "nope").unwrap().is_none());
}

#[test]
fn short_id_keeps_eight_characters() {
    assert_eq!(short_id("abcdefghij"), "abcdefgh");
    assert_eq!(short_id("short"), "short");
}

#[test]
fn is_number_accepts_digits_only() {
    assert!(is_number("123"));
    assert!(is_number("0"));
    assert!(!is_number(""));
    assert!(!is_number("12a"));
    assert!(!is_number("-3"));
}

#[test]
fn parse_index_reads_positions() {
    assert_eq!(parse_index("12"), Some(12));
    assert_eq!(parse_index("0"), Some(0));
    assert_eq!(parse_index(""), None);
    assert_eq!(parse_index("99999999999999999999999999"), None);
}

#[test]
fn any_of_empty_matches_exactly_pending_only() {
    // The empty AnyOf filter is the same predicate as PendingOnly...
    let empty = StatusFilter::AnyOf(vec![]);
    let pending = StatusFilter::PendingOnly;
    for s in [Status::Pending, Status::Done, Status::Standby] {
        assert_eq!(empty.admits(s), pending.admits(s));
    }
    // ...and produces the identical query shape.
    assert_eq!(empty.to_sql(), pending.to_sql());
}

#[test]
fn to_sql_shapes() {
    let (all_clause, all_params) = StatusFilter::All.to_sql();
    assert_eq!(all_clause, "");
    assert!(all_params.is_empty());

    let (pending_clause, pending_params) = StatusFilter::PendingOnly.to_sql();
    assert_eq!(pending_clause, "WHERE status = ?1");
    assert_eq!(pending_params, vec!["pending".to_string()]);

    let (in_clause, in_params) =
        StatusFilter::AnyOf(vec![Status::Done, Status::Standby]).to_sql();
    assert_eq!(in_clause, "WHERE status IN (?, ?)");
    assert_eq!(in_params, vec!["done".to_string(), "standby".to_string()]);
}

#[test]
fn build_task_query_appends_order() {
    let (sql, params) = build_task_query(&StatusFilter::All);
    assert_eq!(
        sql,
        "SELECT id, date, name, description, status, due_date FROM tasks ORDER BY date DESC"
    );
    assert!(params.is_empty());

    let (sql2, params2) = build_task_query(&StatusFilter::AnyOf(vec![Status::Done, Status::Pending]));
    assert_eq!(
        sql2,
        "SELECT id, date, name, description, status, due_date FROM tasks WHERE status IN (?, ?) ORDER BY date DESC"
    );
    assert_eq!(params2, vec!["done".to_string(), "pending".to_string()]);
}

#[test]
fn status_labels_round() {
    assert_eq!(Status::Pending.label(), "pending");
    assert_eq!(Status::Done.label(), "done");
    assert_eq!(Status::Standby.label(), "standby");
    assert_eq!(Status::from_label("Pending"), Some(Status::Pending));
    assert_eq!(Status::from_label("DONE"), Some(Status::Done));
    assert_eq!(Status::from_label("standby"), Some(Status::Standby));
    assert_eq!(Status::from_label("archived"), None);
}

#[test]
fn db_path_is_under_home() {
    assert_eq!(get_db_path("/home/u"), "/home/u/.tarea/tasks.db");
}

#[test]
fn not_found_message_carries_context() {
    assert_eq!(
        format_task_not_found_message("abc", None),
        "task 'abc' not found"
    );
    assert_eq!(
        format_task_not_found_message("abc", Some(" in pending tasks")),
        "task 'abc' not found in pending tasks"
    );
}
