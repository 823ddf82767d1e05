use pelican::editing::apply_edit;
use pelican::handle::WeakView;
use pelican::history::{CaratSnapshot, CursorMovement, TextAction, TextBackspace, TextEdit, TextInsertion};

fn undo(text: &String, edits: &Vec<TextEdit>) -> String {
    let mut text = text.clone();
    for edit in edits.iter() {
        text = apply_edit(&text, edit);
    }
    text
}

fn carats(indexes: &[usize]) -> Vec<CaratSnapshot> {
    indexes.iter().map(|i| CaratSnapshot::new(*i, None)).collect()
}

#[test]
fn text_insertion_test_merge() {
    let text = "".to_string();
    let mut text_insertion1 = TextInsertion::new(WeakView::none(), "Hello".to_string(), carats(&[0]));
    let mut text_insertion2 = TextInsertion::new(WeakView::none(), " world".to_string(), carats(&[5]));

    let text = text_insertion1.forward(&text);
    let text = text_insertion2.forward(&text);
    assert_eq!(text, "Hello world");

    let result = text_insertion1.merge(&text_insertion2);
    assert!(result.is_some());
    let mut result = result.unwrap();
    let text = undo(&text, &result.backward_edits().unwrap());
    assert_eq!(text, "");

    let text = result.forward(&text);
    assert_eq!(text, "Hello world");
}

#[test]
fn text_insertion_test_merge_negative() {
    // " world" typed at 0, then "Hello" typed at 0 again.
    let mut text_insertion1 = TextInsertion::new(WeakView::none(), " world".to_string(), carats(&[0]));
    let mut text_insertion2 = TextInsertion::new(WeakView::none(), "Hello".to_string(), carats(&[0]));
    text_insertion1.did_forward(vec![None], carats(&[6]));
    text_insertion2.did_forward(vec![None], carats(&[5]));

    let result = text_insertion1.merge(&text_insertion2);
    assert!(result.is_none());
}

#[test]
fn text_backspace_test_merge() {
    // "abc def": four characters deleted from 7, then three from 3.
    let mut action1 = TextBackspace::new(WeakView::none(), 4, CursorMovement::Character, carats(&[7]));
    let mut action2 = TextBackspace::new(WeakView::none(), 3, CursorMovement::Character, carats(&[3]));
    action1.did_forward(vec![" def".to_string()], carats(&[3]));
    action2.did_forward(vec!["abc".to_string()], carats(&[0]));

    let result = action1.merge(&action2);
    assert!(result.is_some());
    let result = result.unwrap();
    assert_eq!(result.count, 7);
    assert_eq!(result.texts_deleted, vec!["abc def".to_string()]);

    // Undoing puts "abc def" back at 0.
    let edits = result.backward_edits().unwrap();
    assert_eq!(edits.len(), 1);
    assert_eq!(edits[0].range, 0..0);
    assert_eq!(edits[0].replacement, "abc def");
}

#[test]
fn text_backspace_test_merge_negative() {
    let mut action1 = TextBackspace::new(WeakView::none(), 4, CursorMovement::Character, carats(&[7]));
    let mut action2 = TextBackspace::new(WeakView::none(), 2, CursorMovement::Character, carats(&[2]));
    action1.did_forward(vec![" def".to_string()], carats(&[3]));
    action2.did_forward(vec!["ab".to_string()], carats(&[0]));

    let result = action1.merge(&action2);
    assert!(result.is_none());
}

#[test]
fn backspace_movements_must_agree_to_merge() {
    let mut a = TextBackspace::new(WeakView::none(), 1, CursorMovement::Character, carats(&[3]));
    let mut b = TextBackspace::new(WeakView::none(), 1, CursorMovement::Word, carats(&[2]));
    a.did_forward(vec!["c".to_string()], carats(&[2]));
    b.did_forward(vec!["ab".to_string()], carats(&[0]));
    assert!(a.merge(&b).is_none());
}

#[test]
fn merged_insertion_undoes_to_the_start() {
    // "Hello" replaces the selected "Hi" of "Hi world", then " there" is
    // typed after it.
    let text = "Hi world".to_string();
    let mut a = TextInsertion::new(WeakView::none(), "Hello".to_string(), vec![CaratSnapshot::new(0, Some(0..2))]);
    let text = a.forward(&text);
    assert_eq!(text, "Hello world");
    let mut b = TextInsertion::new(WeakView::none(), " there".to_string(), a.cursors_after.clone());
    let text = b.forward(&text);
    assert_eq!(text, "Hello there world");

    let m = a.merge(&b).unwrap();
    // One replaced text per carat.
    assert_eq!(m.text_replaced, vec![Some("Hi".to_string())]);
    assert_eq!(m.cursors_before, vec![CaratSnapshot::new(0, Some(0..2))]);
    assert_eq!(undo(&text, &m.backward_edits().unwrap()), "Hi world");
}

#[test]
fn insertion_backward_edits_last_carat_first() {
    let mut a = TextInsertion::new(WeakView::none(), "Hello".to_string(), carats(&[0, 1]));
    a.did_forward(vec![None, Some("z".to_string())], carats(&[5, 11]));
    let edits = a.backward_edits().unwrap();
    assert_eq!(edits.len(), 2);
    assert_eq!(edits[0].range, 6..11);
    assert_eq!(edits[0].replacement, "z");
    assert_eq!(edits[1].range, 0..5);
    assert_eq!(edits[1].replacement, "");
}

#[test]
fn unperformed_actions_undo_nothing() {
    let a = TextInsertion::new(WeakView::none(), "Hello".to_string(), carats(&[0]));
    assert!(a.backward_edits().is_none());
    let b = TextBackspace::new(WeakView::none(), 1, CursorMovement::Line, carats(&[0]));
    assert!(b.backward_edits().is_none());
}

#[test]
fn actions_of_different_kinds_do_not_merge() {
    let mut a = TextInsertion::new(WeakView::none(), "a".to_string(), carats(&[0]));
    a.did_forward(vec![None], carats(&[1]));
    let mut b = TextBackspace::new(WeakView::none(), 1, CursorMovement::Character, carats(&[1]));
    b.did_forward(vec!["a".to_string()], carats(&[0]));
    let a = TextAction::Insertion(a);
    let b = TextAction::Backspace(b);
    assert_eq!(a.name(), "TextInsertion");
    assert_eq!(b.name(), "TextBackspace");
    assert!(a.merge(&b).is_none());
    assert!(b.merge(&a).is_none());
}
