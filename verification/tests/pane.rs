use loom_cli::pane::{CtrlCAction, Handled};

#[test]
fn test_handled_variants_are_distinct() {
    assert_ne!(Handled::Handled, Handled::NotHandled);
}

#[test]
fn test_handled_debug_format() {
    assert_eq!(format!("{:?}", Handled::Handled), "Handled");
    assert_eq!(format!("{:?}", Handled::NotHandled), "NotHandled");
}

#[test]
fn test_handled_clone() {
    let h = Handled::Handled;
    let c = h;
    assert_eq!(h, c);
}

#[test]
fn test_ctrl_c_action_variants_are_distinct() {
    assert_ne!(CtrlCAction::NotHandled, CtrlCAction::Handled);
    assert_ne!(CtrlCAction::NotHandled, CtrlCAction::Cancel);
    assert_ne!(CtrlCAction::Handled, CtrlCAction::Cancel);
}

#[test]
fn test_ctrl_c_action_debug_format() {
    assert_eq!(format!("{:?}", CtrlCAction::NotHandled), "NotHandled");
    assert_eq!(format!("{:?}", CtrlCAction::Handled), "Handled");
    assert_eq!(format!("{:?}", CtrlCAction::Cancel), "Cancel");
}
