use alidraw::{ConfirmResponse, PendingDialog, Session};

const CANCEL: ConfirmResponse = ConfirmResponse { cancel_clicked: true, confirm_clicked: false };
const CONFIRM: ConfirmResponse = ConfirmResponse { cancel_clicked: false, confirm_clicked: true };
const NOTHING: ConfirmResponse = ConfirmResponse { cancel_clicked: false, confirm_clicked: false };

#[test]
fn close_is_held_until_confirmed() {
    let mut s: Session<String> = Session::new();
    assert!(!s.interaction_blocked());
    assert!(s.close_requested());
    assert_eq!(s.pending, PendingDialog::ConfirmClose);
    assert!(s.interaction_blocked());
    assert!(!s.answer_close(NOTHING));
    assert_eq!(s.pending, PendingDialog::ConfirmClose);
    assert!(!s.answer_close(CANCEL));
    assert_eq!(s.pending, PendingDialog::Idle);
    assert!(s.close_requested());
    assert!(s.answer_close(CONFIRM));
    assert!(s.allow_native_close);
    assert!(!s.close_requested());
    assert_eq!(s.pending, PendingDialog::Idle);
}

#[test]
fn quit_withdraws_permission() {
    let mut s: Session<String> = Session::new();
    s.allow_native_close = true;
    s.quit_clicked();
    assert!(!s.allow_native_close);
    assert_eq!(s.pending, PendingDialog::ConfirmClose);
}

#[test]
fn answers_only_apply_to_their_dialog() {
    let mut s: Session<String> = Session::new();
    s.new_drawing_clicked();
    assert!(!s.answer_close(CONFIRM));
    assert_eq!(s.answer_open(CONFIRM), None);
    assert_eq!(s.pending, PendingDialog::ConfirmNewDrawing);
    assert!(s.answer_new_drawing(CONFIRM));
    assert_eq!(s.pending, PendingDialog::Idle);
    s.new_drawing_clicked();
    assert!(!s.answer_new_drawing(CANCEL));
    assert_eq!(s.pending, PendingDialog::Idle);
}

#[test]
fn opening_asks_only_when_there_is_a_drawing() {
    let mut s: Session<String> = Session::new();
    assert_eq!(s.open_chosen("a.png".to_string(), true), Some("a.png".to_string()));
    assert_eq!(s.pending, PendingDialog::Idle);
    assert_eq!(s.open_chosen("b.png".to_string(), false), None);
    assert_eq!(s.pending, PendingDialog::ConfirmOpen("b.png".to_string()));
    assert_eq!(s.answer_open(NOTHING), None);
    assert_eq!(s.pending, PendingDialog::ConfirmOpen("b.png".to_string()));
    assert_eq!(s.answer_open(CONFIRM), Some("b.png".to_string()));
    assert_eq!(s.pending, PendingDialog::Idle);
    s.open_chosen("c.png".to_string(), false);
    assert_eq!(s.answer_open(CANCEL), None);
    assert_eq!(s.pending, PendingDialog::Idle);
}
