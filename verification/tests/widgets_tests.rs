use osdat::widgets::{
    detail_note, status_icon, BinaryField, BinaryFieldState, ProgressList, ProgressListState,
    ProgressStatus, TextInput, TextInputState,
};

#[test]
fn binary_field_toggles() {
    let f = BinaryField::new("Login", true);
    assert_eq!(f.label(), "Login");
    assert!(f.is_focused());
    let mut s = BinaryFieldState::new(0);
    s.toggle();
    assert_eq!(s.value, 1);
    s.toggle();
    assert_eq!(s.value, 0);
    let mut odd = BinaryFieldState::new(7);
    odd.toggle();
    assert_eq!(odd.value, 0);
}

#[test]
fn text_input_editing() {
    let t = TextInput::new("Root URL", false);
    assert_eq!(t.label(), "Root URL");
    assert!(!t.is_focused());
    let mut s = TextInputState::new("ab".into());
    assert_eq!(s.cursor, 2);
    s.move_left();
    s.insert('é');
    assert_eq!(s.value, "aéb");
    assert_eq!(s.cursor, 3);
    s.delete_back();
    assert_eq!(s.value, "ab");
    assert_eq!(s.cursor, 1);
    s.move_left();
    s.move_left();
    assert_eq!(s.cursor, 0);
    s.delete_back();
    assert_eq!(s.value, "ab");
    s.move_right();
    s.move_right();
    s.move_right();
    assert_eq!(s.cursor, 2);
    assert!(s.cursor_is_valid());
    let bad = TextInputState { value: "é".into(), cursor: 1 };
    assert!(!bad.cursor_is_valid());
}

#[test]
fn text_input_display_parts() {
    let mut s = TextInputState::new("héllo".into());
    assert_eq!(s.display_parts(), ("héllo".to_string(), ' ', String::new()));
    s.move_left();
    s.move_left();
    s.move_left();
    s.move_left();
    assert_eq!(s.display_parts(), ("h".to_string(), 'é', "llo".to_string()));
    let (before, under, after) = s.display_parts();
    assert_eq!(format!("{}{}{}", before, under, after), s.value);
}

#[test]
fn progress_lists() {
    let l = ProgressList::new("URLs");
    assert_eq!(l.title(), "URLs");
    assert!(ProgressListState::new().items.is_empty());
    assert_eq!(status_icon(ProgressStatus::Done), "✓");
    assert_eq!(status_icon(ProgressStatus::Active), "⟳");
    assert_eq!(status_icon(ProgressStatus::Pending), "○");
    assert_eq!(status_icon(ProgressStatus::Failed), "✗");
    assert_eq!(detail_note("3 files"), "  3 files");
    assert_eq!(detail_note(""), "");
}

#[test]
fn insert_then_delete_back_restores() {
    let mut s = TextInputState::new("héllo".into());
    s.move_left();
    s.move_left();
    let before = (s.value.clone(), s.cursor);
    s.insert('ß');
    assert_eq!(s.value, "hélßlo");
    s.delete_back();
    assert_eq!((s.value.clone(), s.cursor), before);
}
