use pelican::editing::{apply_edit, backspace_at_carats, insert_at_carats};
use pelican::handle::WeakView;
use pelican::history::{CaratSnapshot, CursorMovement, TextBackspace, TextEdit, TextInsertion};

fn carats(indexes: &[usize]) -> Vec<CaratSnapshot> {
    indexes.iter().map(|i| CaratSnapshot::new(*i, None)).collect()
}

fn indexes(carats: &Vec<CaratSnapshot>) -> Vec<usize> {
    carats.iter().map(|c| c.character_index()).collect()
}

fn undo(text: &String, edits: &Vec<TextEdit>) -> String {
    let mut text = text.clone();
    for edit in edits.iter() {
        text = apply_edit(&text, edit);
    }
    text
}

fn insertion(start: &str, at: Vec<CaratSnapshot>, inserted: &str) -> (TextInsertion, String) {
    let mut action = TextInsertion::new(WeakView::none(), inserted.to_string(), at);
    let text = action.forward(&start.to_string());
    (action, text)
}

fn backspace(
    start: &str,
    at: Vec<CaratSnapshot>,
    amount: usize,
    movement: CursorMovement,
    boundaries: Vec<usize>,
) -> (TextBackspace, String) {
    let mut action = TextBackspace::new(WeakView::none(), amount, movement, at);
    let text = action.forward(&start.to_string(), &boundaries);
    (action, text)
}

#[test]
fn test_forward() {
    let (action, text) = insertion("", carats(&[0]), "Hello");
    assert_eq!(text, "Hello");
    assert_eq!(indexes(&action.cursors_after), vec![5]);
}

#[test]
fn test_forward_multi_cursor() {
    let (action, text) = insertion("|", carats(&[0, 1]), "Hello");
    assert_eq!(text, "Hello|Hello");
    assert_eq!(indexes(&action.cursors_after), vec![5, 11]);
}

#[test]
fn test_backward() {
    let (action, text) = insertion("", carats(&[0]), "Hello");
    assert_eq!(undo(&text, &action.backward_edits().unwrap()), "");
    let (text, carats_back) = action.backward(&text).unwrap();
    assert_eq!(text, "");
    assert_eq!(indexes(&carats_back), vec![0]);
}

#[test]
fn test_backward_multi_cursor() {
    let (action, text) = insertion("|", carats(&[0, 1]), "Hello");
    assert_eq!(text, "Hello|Hello");
    assert_eq!(action.cursors_after, carats(&[5, 11]));
    assert_eq!(undo(&text, &action.backward_edits().unwrap()), "|");
    let (text, carats_back) = action.backward(&text).unwrap();
    assert_eq!(text, "|");
    assert_eq!(carats_back, carats(&[0, 1]));
}

#[test]
fn test_insertion_with_selection() {
    let (action, text) = insertion("Hi world", vec![CaratSnapshot::new(0, Some(0..2))], "Hello");
    assert_eq!(text, "Hello world");
    assert_eq!(action.cursors_after, carats(&[5]));
    assert_eq!(action.text_replaced, vec![Some("Hi".to_string())]);
    assert_eq!(undo(&text, &action.backward_edits().unwrap()), "Hi world");
    let (text, carats_back) = action.backward(&text).unwrap();
    assert_eq!(text, "Hi world");
    assert_eq!(carats_back, vec![CaratSnapshot::new(0, Some(0..2))]);
}

#[test]
fn insertion_tidies_the_carats_first() {
    let (r_text, replaced, after) =
        insert_at_carats(&"ab".to_string(), &carats(&[2, 0, 2]), &"x".to_string());
    assert_eq!(r_text, "xabx");
    assert_eq!(replaced, vec![None, None]);
    assert_eq!(after, carats(&[1, 4]));
}

#[test]
fn insertion_counts_characters() {
    let (r_text, _, after) = insert_at_carats(&"é".to_string(), &carats(&[1]), &"ü".to_string());
    assert_eq!(r_text, "éü");
    assert_eq!(after, carats(&[2]));
}

#[test]
fn test_single_cursor_single_character() {
    let (action, text) = backspace("abc", carats(&[3]), 1, CursorMovement::Character, vec![]);
    assert_eq!(text, "ab");
    assert_eq!(indexes(&action.cursors_after), vec![2]);
    assert_eq!(undo(&text, &action.backward_edits().unwrap()), "abc");
    let (back, carats_back) = action.backward(&text).unwrap();
    assert_eq!(back, "abc");
    assert_eq!(indexes(&carats_back), vec![3]);
}

#[test]
fn test_single_cursor_multiple_characters() {
    let (action, text) = backspace("abc", carats(&[3]), 2, CursorMovement::Character, vec![]);
    assert_eq!(text, "a");
    assert_eq!(indexes(&action.cursors_after), vec![1]);
    assert_eq!(undo(&text, &action.backward_edits().unwrap()), "abc");
    let (back, carats_back) = action.backward(&text).unwrap();
    assert_eq!(back, "abc");
    assert_eq!(indexes(&carats_back), vec![3]);
}

#[test]
fn test_single_cursor_word() {
    let (action, text) = backspace("abc def", carats(&[7]), 1, CursorMovement::Word, vec![4]);
    assert_eq!(text, "abc ");
    assert_eq!(indexes(&action.cursors_after), vec![4]);
    assert_eq!(undo(&text, &action.backward_edits().unwrap()), "abc def");
    let (back, carats_back) = action.backward(&text).unwrap();
    assert_eq!(back, "abc def");
    assert_eq!(indexes(&carats_back), vec![7]);
}

#[test]
fn test_single_cursor_line() {
    let (action, text) = backspace("abc def", carats(&[7]), 1, CursorMovement::Line, vec![0]);
    assert_eq!(text, "");
    assert_eq!(indexes(&action.cursors_after), vec![0]);
    assert_eq!(undo(&text, &action.backward_edits().unwrap()), "abc def");
    let (back, carats_back) = action.backward(&text).unwrap();
    assert_eq!(back, "abc def");
    assert_eq!(indexes(&carats_back), vec![7]);
}

#[test]
fn test_multiple_cursors_single_character() {
    let (action, text) = backspace("abc", carats(&[1, 3]), 1, CursorMovement::Character, vec![]);
    assert_eq!(text, "b");
    assert_eq!(indexes(&action.cursors_after), vec![0, 1]);
    assert_eq!(undo(&text, &action.backward_edits().unwrap()), "abc");
    let (back, carats_back) = action.backward(&text).unwrap();
    assert_eq!(back, "abc");
    assert_eq!(indexes(&carats_back), vec![1, 3]);
}

#[test]
fn test_multiple_cursors_multiple_characters() {
    let (action, text) = backspace("abc", carats(&[1, 3]), 1, CursorMovement::Character, vec![]);
    assert_eq!(text, "b");
    assert_eq!(indexes(&action.cursors_after), vec![0, 1]);
    assert_eq!(undo(&text, &action.backward_edits().unwrap()), "abc");
    let (back, carats_back) = action.backward(&text).unwrap();
    assert_eq!(back, "abc");
    assert_eq!(indexes(&carats_back), vec![1, 3]);
}

#[test]
fn test_multiple_cursors_word() {
    let (action, text) = backspace("abc def", carats(&[3, 7]), 1, CursorMovement::Word, vec![0, 1]);
    assert_eq!(text, " ");
    assert_eq!(indexes(&action.cursors_after), vec![0, 1]);
    assert_eq!(undo(&text, &action.backward_edits().unwrap()), "abc def");
    let (back, carats_back) = action.backward(&text).unwrap();
    assert_eq!(back, "abc def");
    assert_eq!(indexes(&carats_back), vec![3, 7]);
}

#[test]
fn test_multiple_cursors_line() {
    let (action, text) = backspace("abc def", carats(&[3, 7]), 1, CursorMovement::Line, vec![0, 0]);
    assert_eq!(text, "");
    assert_eq!(indexes(&action.cursors_after), vec![0, 0]);
    assert_eq!(undo(&text, &action.backward_edits().unwrap()), "abc def");
    let (back, carats_back) = action.backward(&text).unwrap();
    assert_eq!(back, "abc def");
    assert_eq!(indexes(&carats_back), vec![3, 7]);
}

#[test]
fn test_deletion_with_selection_single_cursor() {
    let (action, text) =
        backspace("abc def", vec![CaratSnapshot::new(0, Some(0..3))], 1, CursorMovement::Character, vec![]);
    assert_eq!(text, " def");
    assert_eq!(action.cursors_after, carats(&[0]));
    assert_eq!(undo(&text, &action.backward_edits().unwrap()), "abc def");
    let (back, carats_back) = action.backward(&text).unwrap();
    assert_eq!(back, "abc def");
    assert_eq!(carats_back, vec![CaratSnapshot::new(0, Some(0..3))]);
}

#[test]
fn test_deletion_with_selection_single_cursor_when_specifying_word() {
    let (action, text) =
        backspace("abc def", vec![CaratSnapshot::new(3, Some(1..3))], 1, CursorMovement::Word, vec![0]);
    assert_eq!(text, "a def");
    assert_eq!(action.cursors_after, carats(&[1]));
    assert_eq!(undo(&text, &action.backward_edits().unwrap()), "abc def");
    let (back, carats_back) = action.backward(&text).unwrap();
    assert_eq!(back, "abc def");
    assert_eq!(carats_back, vec![CaratSnapshot::new(3, Some(1..3))]);
}

#[test]
fn test_deletion_with_selection_single_cursor_when_specifying_line() {
    let (action, text) =
        backspace("abc def", vec![CaratSnapshot::new(3, Some(1..3))], 1, CursorMovement::Line, vec![0]);
    assert_eq!(text, "a def");
    assert_eq!(action.cursors_after, carats(&[1]));
    assert_eq!(undo(&text, &action.backward_edits().unwrap()), "abc def");
    let (back, carats_back) = action.backward(&text).unwrap();
    assert_eq!(back, "abc def");
    assert_eq!(carats_back, vec![CaratSnapshot::new(3, Some(1..3))]);
}

#[test]
fn test_multiple_selections() {
    let before = vec![CaratSnapshot::new(0, Some(0..3)), CaratSnapshot::new(3, Some(3..6))];
    let (action, text) = backspace("abc def", before.clone(), 1, CursorMovement::Character, vec![]);
    assert_eq!(text, "f");
    assert_eq!(action.cursors_after, carats(&[0, 0]));
    assert_eq!(undo(&text, &action.backward_edits().unwrap()), "abc def");
    let (back, carats_back) = action.backward(&text).unwrap();
    assert_eq!(back, "abc def");
    assert_eq!(carats_back, before);
}

#[test]
fn backspace_stops_at_the_start() {
    let (text, deleted, after) =
        backspace_at_carats(&"ab".to_string(), &carats(&[1]), CursorMovement::Character, 5, &vec![]);
    assert_eq!(text, "b");
    assert_eq!(deleted, vec!["a".to_string()]);
    assert_eq!(after, carats(&[0]));
}

#[test]
fn an_unperformed_action_undoes_nothing() {
    let a = TextInsertion::new(WeakView::none(), "x".to_string(), carats(&[0]));
    assert!(a.backward(&"abc".to_string()).is_none());
    let b = TextBackspace::new(WeakView::none(), 1, CursorMovement::Character, carats(&[1]));
    assert!(b.backward(&"abc".to_string()).is_none());
}
