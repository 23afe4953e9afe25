use text_editor::{
    AddTextCommand, Command, CommandHistory, DeleteTextCommand, EditCommand, EditError,
    TextEditor, remove_matches,
};

fn add(s: &str) -> EditCommand {
    EditCommand::Add(AddTextCommand::new(s.to_string()))
}

fn delete(s: &str) -> EditCommand {
    EditCommand::Delete(DeleteTextCommand::new(s.to_string()))
}

#[test]
fn new_editor_is_empty() {
    let editor = TextEditor::new();
    assert_eq!(editor.get_text(), "");
}

#[test]
fn undo_on_empty_history_changes_nothing() {
    let mut editor = TextEditor::new();
    let mut history = CommandHistory::new();
    assert_eq!(history.undo(&mut editor), Ok(()));
    assert_eq!(editor.get_text(), "");
    history.execute_command(add("abc"), &mut editor);
    assert_eq!(history.undo(&mut editor), Ok(()));
    assert_eq!(history.undo(&mut editor), Ok(()));
    assert_eq!(editor.get_text(), "");
}

#[test]
fn add_on_empty_editor() {
    let mut editor = TextEditor::new();
    let mut history = CommandHistory::new();
    history.execute_command(add("Hello, "), &mut editor);
    assert_eq!(editor.get_text(), "Hello, ");
}

#[test]
fn delete_after_add() {
    let mut editor = TextEditor::new();
    let mut history = CommandHistory::new();
    history.execute_command(add("Hello, "), &mut editor);
    history.execute_command(delete("Hello, "), &mut editor);
    assert_eq!(editor.get_text(), "");
}

#[test]
fn demo_sequence_with_undos() {
    let mut editor = TextEditor::new();
    let mut history = CommandHistory::new();
    history.execute_command(add("Hello, "), &mut editor);
    assert_eq!(editor.get_text(), "Hello, ");
    history.execute_command(delete("Hello, "), &mut editor);
    assert_eq!(editor.get_text(), "");
    history.execute_command(add("Hello, "), &mut editor);
    history.execute_command(add("World!"), &mut editor);
    assert_eq!(editor.get_text(), "Hello, World!");
    assert_eq!(history.undo(&mut editor), Ok(()));
    assert_eq!(editor.get_text(), "Hello, ");
    assert_eq!(history.undo(&mut editor), Ok(()));
    assert_eq!(editor.get_text(), "");
}

#[test]
fn undo_of_delete_appends_text() {
    let mut editor = TextEditor::new();
    let mut history = CommandHistory::new();
    history.execute_command(add("Hello, "), &mut editor);
    history.execute_command(delete("Hello, "), &mut editor);
    assert_eq!(history.undo(&mut editor), Ok(()));
    assert_eq!(editor.get_text(), "Hello, ");
    assert_eq!(history.undo(&mut editor), Ok(()));
    assert_eq!(editor.get_text(), "");
}

#[test]
fn get_text_is_stable() {
    let mut editor = TextEditor::new();
    let mut history = CommandHistory::new();
    history.execute_command(add("xyz"), &mut editor);
    let first = editor.get_text().clone();
    let second = editor.get_text().clone();
    assert_eq!(first, second);
    assert_eq!(editor.get_text(), &first);
}

#[test]
fn appends_then_undos_restore_content() {
    let mut editor = TextEditor::new();
    let mut history = CommandHistory::new();
    history.execute_command(add("base"), &mut editor);
    history.execute_command(add("é-ü"), &mut editor);
    history.execute_command(add(""), &mut editor);
    history.execute_command(add("tail"), &mut editor);
    assert_eq!(editor.get_text(), "baseé-ütail");
    for _ in 0..3 {
        assert_eq!(history.undo(&mut editor), Ok(()));
    }
    assert_eq!(editor.get_text(), "base");
}

#[test]
fn mixed_round_trip_where_delete_takes_the_end() {
    let mut editor = TextEditor::new();
    let mut history = CommandHistory::new();
    history.execute_command(add("one "), &mut editor);
    history.execute_command(add("two"), &mut editor);
    history.execute_command(delete("two"), &mut editor);
    assert_eq!(editor.get_text(), "one ");
    history.execute_command(add("three"), &mut editor);
    assert_eq!(editor.get_text(), "one three");
    for _ in 0..3 {
        assert_eq!(history.undo(&mut editor), Ok(()));
    }
    assert_eq!(editor.get_text(), "one ");
}

#[test]
fn delete_of_repeated_text_is_not_fully_undone() {
    let mut editor = TextEditor::new();
    let mut history = CommandHistory::new();
    history.execute_command(add("Hello, Hello, "), &mut editor);
    history.execute_command(delete("Hello, "), &mut editor);
    assert_eq!(editor.get_text(), "");
    assert_eq!(history.undo(&mut editor), Ok(()));
    assert_eq!(editor.get_text(), "Hello, ");
}

#[test]
fn delete_in_the_middle_is_undone_at_the_end() {
    let mut editor = TextEditor::new();
    let mut history = CommandHistory::new();
    history.execute_command(add("ab"), &mut editor);
    history.execute_command(delete("a"), &mut editor);
    assert_eq!(editor.get_text(), "b");
    assert_eq!(history.undo(&mut editor), Ok(()));
    assert_eq!(editor.get_text(), "ba");
}

#[test]
fn rollback_of_add_on_short_content_fails() {
    let mut editor = TextEditor::new();
    let command = AddTextCommand::new("abc".to_string());
    assert_eq!(command.rollback(&mut editor), Err(EditError::InvariantViolation));
    assert_eq!(editor.get_text(), "");
}

#[test]
fn failed_undo_still_drops_command() {
    let mut first = TextEditor::new();
    let mut second = TextEditor::new();
    let mut history = CommandHistory::new();
    history.execute_command(add("abc"), &mut first);
    assert!(history.last().is_some());
    assert_eq!(history.undo(&mut second), Err(EditError::InvariantViolation));
    assert_eq!(second.get_text(), "");
    assert!(history.last().is_none());
    assert_eq!(history.undo(&mut first), Ok(()));
    assert_eq!(first.get_text(), "abc");
}

#[test]
fn last_names_most_recent_command() {
    let mut editor = TextEditor::new();
    let mut history = CommandHistory::new();
    assert!(history.last().is_none());
    history.execute_command(add("ab"), &mut editor);
    history.execute_command(delete("b"), &mut editor);
    assert!(matches!(history.last(), Some(EditCommand::Delete(_))));
    assert_eq!(history.undo(&mut editor), Ok(()));
    assert!(matches!(history.last(), Some(EditCommand::Add(_))));
}

#[test]
fn add_rollback_counts_characters() {
    let mut editor = TextEditor::new();
    let mut history = CommandHistory::new();
    history.execute_command(add("ab"), &mut editor);
    history.execute_command(delete("b"), &mut editor);
    history.execute_command(add("ü"), &mut editor);
    assert_eq!(editor.get_text(), "aü");
    assert_eq!(history.undo(&mut editor), Ok(()));
    assert_eq!(editor.get_text(), "a");
}

#[test]
fn commands_run_directly() {
    let mut editor = TextEditor::new();
    let add_cmd = AddTextCommand::new("xyx".to_string());
    add_cmd.execute(&mut editor);
    let del_cmd = DeleteTextCommand::new("x".to_string());
    del_cmd.execute(&mut editor);
    assert_eq!(editor.get_text(), "y");
    assert_eq!(del_cmd.rollback(&mut editor), Ok(()));
    assert_eq!(editor.get_text(), "yx");
}

#[test]
fn remove_matches_cases() {
    assert_eq!(remove_matches("abcabc", "abc"), "");
    assert_eq!(remove_matches("aaa", "aa"), "a");
    assert_eq!(remove_matches("xaby", "ab"), "xy");
    assert_eq!(remove_matches("hello", ""), "hello");
    assert_eq!(remove_matches("", "a"), "");
    assert_eq!(remove_matches("ab", "abc"), "ab");
    assert_eq!(remove_matches("ünï-ünï", "ï"), "ün-ün");
    assert_eq!(remove_matches("ababa", "aba"), "ba");
}
