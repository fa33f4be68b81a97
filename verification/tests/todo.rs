use todo_list::command::{parse_command, Command};
use todo_list::digits::parse_index;
use todo_list::list::{TodoError, TodoList};

fn list_of(tasks: &[(&str, bool)]) -> TodoList {
    let mut list = TodoList::new();
    for (i, (name, completed)) in tasks.iter().enumerate() {
        list.add_task(name.to_string());
        if *completed {
            assert_eq!(list.mark_completed(i), Ok(()));
        }
    }
    list
}

fn pairs_of(list: &TodoList) -> Vec<(String, bool)> {
    let mut out = Vec::new();
    for i in 0..list.len() {
        out.push((list.name_at(i).clone(), list.completed_at(i)));
    }
    out
}

#[test]
fn scenario_add_done_delete() {
    let mut list = TodoList::load_from(None);
    assert_eq!(list.render(), "");
    list.add_task("buy milk".to_string());
    assert_eq!(list.render(), "0 - [ ] - buy milk\n");
    assert_eq!(list.mark_completed(0), Ok(()));
    assert_eq!(list.render(), "0 - [x] - buy milk\n");
    assert_eq!(list.delete_task(0), Ok(()));
    assert_eq!(list.render(), "");
}

#[test]
fn adds_appear_in_insertion_order() {
    let mut list = TodoList::new();
    let names = ["first", "second", "third", "fourth"];
    for name in names {
        list.add_task(name.to_string());
    }
    assert_eq!(list.len(), names.len());
    for (i, name) in names.iter().enumerate() {
        assert_eq!(list.name_at(i).as_str(), *name);
        assert!(!list.completed_at(i));
    }
}

#[test]
fn done_is_idempotent() {
    let mut list = list_of(&[("a", false), ("b", false), ("c", false)]);
    assert_eq!(list.mark_completed(1), Ok(()));
    let once = pairs_of(&list);
    assert_eq!(list.mark_completed(1), Ok(()));
    assert_eq!(pairs_of(&list), once);
    assert!(list.completed_at(1));
    assert!(!list.completed_at(0));
    assert!(!list.completed_at(2));
}

#[test]
fn delete_shifts_later_tasks_down() {
    let mut list = list_of(&[("a", false), ("b", true), ("c", false), ("d", true)]);
    assert_eq!(list.delete_task(1), Ok(()));
    assert_eq!(list.len(), 3);
    assert_eq!(list.name_at(0).as_str(), "a");
    assert_eq!(list.name_at(1).as_str(), "c");
    assert_eq!(list.name_at(2).as_str(), "d");
    assert!(!list.completed_at(1));
    assert!(list.completed_at(2));
}

#[test]
fn round_trip_reproduces_the_list() {
    let tasks: &[(&str, bool)] = &[
        ("buy milk", false),
        ("", true),
        ("back\\slash", true),
        ("two\nlines", false),
        ("x", true),
        ("0 - [ ] - decoy", false),
    ];
    let list = list_of(tasks);
    let stored = list.serialize();
    let loaded = TodoList::load_from(Some(&stored));
    assert_eq!(pairs_of(&loaded), pairs_of(&list));
}

#[test]
fn round_trip_of_the_empty_list() {
    let list = TodoList::new();
    let loaded = TodoList::load_from(Some(&list.serialize()));
    assert_eq!(loaded.len(), 0);
}

#[test]
fn stored_form_is_exact() {
    let list = list_of(&[("ab", false), ("c", true)]);
    assert_eq!(list.serialize(), " \\a\\b\nx\\c\n");
}

#[test]
fn deserialize_reads_the_stored_form() {
    let list = TodoList::deserialize("x\\o\\k\n \\n\\o\n").expect("well-formed");
    assert_eq!(list.len(), 2);
    assert_eq!(list.name_at(0).as_str(), "ok");
    assert!(list.completed_at(0));
    assert_eq!(list.name_at(1).as_str(), "no");
    assert!(!list.completed_at(1));
}

#[test]
fn missing_storage_loads_empty() {
    assert_eq!(TodoList::load_from(None).len(), 0);
}

#[test]
fn empty_storage_loads_empty() {
    assert_eq!(TodoList::load_from(Some("")).len(), 0);
}

#[test]
fn corrupt_storage_loads_empty() {
    let corrupt = [
        "garbage",
        "q\\a\n",      // bad completion marker
        " \\a",        // record not closed by a newline
        " a\n",        // name character without its backslash
        " \\a\nx",     // trailing half record
        "x\\",         // quote at the very end
        "{\"list\":[]}",
    ];
    for text in corrupt {
        assert_eq!(TodoList::load_from(Some(text)).len(), 0, "for {:?}", text);
    }
}

#[test]
fn invalid_index_mutates_nothing() {
    let mut list = list_of(&[("a", true), ("b", false)]);
    let before = pairs_of(&list);
    assert_eq!(list.mark_completed(2), Err(TodoError::IndexOutOfRange));
    assert_eq!(list.delete_task(2), Err(TodoError::IndexOutOfRange));
    assert_eq!(list.mark_completed(usize::MAX), Err(TodoError::IndexOutOfRange));
    assert_eq!(pairs_of(&list), before);
    assert_eq!(list.serialize(), list_of(&[("a", true), ("b", false)]).serialize());
}

#[test]
fn render_uses_multi_digit_indices() {
    let mut list = TodoList::new();
    for _ in 0..11 {
        list.add_task("t".to_string());
    }
    let rendered = list.render();
    let lines: Vec<&str> = rendered.lines().collect();
    assert_eq!(lines.len(), 11);
    assert_eq!(lines[9], "9 - [ ] - t");
    assert_eq!(lines[10], "10 - [ ] - t");
}

#[test]
fn render_shows_markers_and_names() {
    let list = list_of(&[("tea", true), ("cake", false)]);
    assert_eq!(list.render(), "0 - [x] - tea\n1 - [ ] - cake\n");
}

#[test]
fn parse_get() {
    let args = vec!["get".to_string()];
    assert!(matches!(parse_command(&args), Ok(Command::Get)));
}

#[test]
fn parse_get_ignores_extra_arguments() {
    let args = vec!["get".to_string(), "junk".to_string()];
    assert!(matches!(parse_command(&args), Ok(Command::Get)));
}

#[test]
fn parse_add() {
    let args = vec!["add".to_string(), "buy milk".to_string()];
    match parse_command(&args) {
        Ok(Command::Add(name)) => assert_eq!(name, "buy milk"),
        other => panic!("unexpected: {:?}", other.is_ok()),
    }
}

#[test]
fn parse_done_and_delete() {
    let args = vec!["done".to_string(), "3".to_string()];
    assert!(matches!(parse_command(&args), Ok(Command::Done(3))));
    let args = vec!["delete".to_string(), "+7".to_string()];
    assert!(matches!(parse_command(&args), Ok(Command::Delete(7))));
}

#[test]
fn parse_usage_errors() {
    let empty: Vec<String> = Vec::new();
    assert!(matches!(parse_command(&empty), Err(TodoError::UsageError)));
    for args in [
        vec!["frobnicate".to_string()],
        vec!["add".to_string()],
        vec!["done".to_string()],
        vec!["delete".to_string()],
        vec!["ADD".to_string(), "x".to_string()],
    ] {
        assert!(matches!(parse_command(&args), Err(TodoError::UsageError)));
    }
}

#[test]
fn parse_index_errors() {
    for args in [
        vec!["done".to_string(), "abc".to_string()],
        vec!["done".to_string(), "-1".to_string()],
        vec!["done".to_string(), "".to_string()],
        vec!["done".to_string(), "+".to_string()],
        vec!["done".to_string(), "4 2".to_string()],
        vec!["delete".to_string(), "1.5".to_string()],
    ] {
        assert!(matches!(parse_command(&args), Err(TodoError::ParseError)));
    }
}

#[test]
fn parse_index_values() {
    assert_eq!(parse_index("0"), Some(0));
    assert_eq!(parse_index("007"), Some(7));
    assert_eq!(parse_index("+42"), Some(42));
    assert_eq!(parse_index("18446744073709551615"), Some(usize::MAX));
    assert_eq!(parse_index("18446744073709551616"), None);
    assert_eq!(parse_index("99999999999999999999999999"), None);
    assert_eq!(parse_index("++1"), None);
}

#[test]
fn apply_get_reads_only() {
    let mut list = list_of(&[("a", false)]);
    let before = pairs_of(&list);
    assert_eq!(list.apply(Command::Get), Ok(false));
    assert_eq!(pairs_of(&list), before);
}

#[test]
fn apply_mutators_ask_for_a_save() {
    let mut list = TodoList::new();
    assert_eq!(list.apply(Command::Add("a".to_string())), Ok(true));
    assert_eq!(list.apply(Command::Done(0)), Ok(true));
    assert_eq!(list.apply(Command::Delete(0)), Ok(true));
    assert_eq!(list.len(), 0);
}

#[test]
fn apply_rejects_bad_indices_without_mutating() {
    let mut list = list_of(&[("a", false)]);
    let before = pairs_of(&list);
    assert_eq!(list.apply(Command::Done(1)), Err(TodoError::IndexOutOfRange));
    assert_eq!(list.apply(Command::Delete(1)), Err(TodoError::IndexOutOfRange));
    assert_eq!(pairs_of(&list), before);
}

#[test]
fn error_messages_are_distinct() {
    let usage = TodoError::UsageError.message();
    let parse = TodoError::ParseError.message();
    let range = TodoError::IndexOutOfRange.message();
    assert_eq!(range, "the index is out of range");
    assert_ne!(usage, parse);
    assert_ne!(usage, range);
    assert_ne!(parse, range);
}
