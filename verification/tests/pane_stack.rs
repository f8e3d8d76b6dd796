use loom_cli::approval::{ApprovalOverlay, ApprovalRequest, ApprovalResult};
use loom_cli::key::{KeyCode, KeyEvent};
use loom_cli::pane::{CtrlCAction, Handled, PaneStack, Panel};
use loom_cli::selection::{SelectionItem, SelectionList};

fn key(code: KeyCode) -> KeyEvent {
    KeyEvent::plain(code)
}

fn approval() -> Panel {
    Panel::Approval(ApprovalOverlay::new(ApprovalRequest::Command {
        command: "ls".into(),
        description: "List".into(),
    }))
}

fn selection() -> Panel {
    Panel::Selection(SelectionList::new(
        vec![SelectionItem::new("A", "a"), SelectionItem::new("B", "b")],
        "Pick".to_string(),
    ))
}

#[test]
fn stack_starts_empty() {
    let stack = PaneStack::new();
    assert_eq!(stack.depth(), 0);
    assert!(!stack.is_active());
    assert_eq!(PaneStack::default().depth(), 0);
}

#[test]
fn push_pop_depth() {
    let mut stack = PaneStack::new();
    stack.push(approval());
    stack.push(selection());
    assert_eq!(stack.depth(), 2);
    assert!(matches!(stack.pop(), Some(Panel::Selection(_))));
    assert_eq!(stack.depth(), 1);
    assert!(stack.is_active());
}

#[test]
fn key_goes_to_top_and_completed_are_removed() {
    let mut stack = PaneStack::new();
    stack.push(approval());
    stack.push(selection());
    assert_eq!(stack.handle_key_event(key(KeyCode::Down)), Handled::Handled);
    assert_eq!(stack.depth(), 2);
    assert_eq!(stack.handle_key_event(key(KeyCode::Enter)), Handled::Handled);
    assert_eq!(stack.depth(), 1);
    assert_eq!(stack.handle_key_event(key(KeyCode::Char('z'))), Handled::NotHandled);
    assert_eq!(stack.depth(), 1);
    assert_eq!(stack.handle_key_event(key(KeyCode::Char('n'))), Handled::Handled);
    assert_eq!(stack.depth(), 0);
}

#[test]
fn base_panel_takes_input_when_empty() {
    let mut stack = PaneStack::new();
    assert_eq!(stack.handle_key_event(key(KeyCode::Enter)), Handled::NotHandled);
    assert_eq!(stack.handle_ctrl_c(), CtrlCAction::NotHandled);
    stack.set_base(approval());
    assert!(stack.is_active());
    assert_eq!(stack.handle_key_event(key(KeyCode::Char('a'))), Handled::Handled);
    match stack.active() {
        Some(Panel::Approval(a)) => assert_eq!(a.result(), Some(ApprovalResult::AlwaysAllow)),
        _ => panic!("base expected"),
    }
}

#[test]
fn ctrl_c_closes_top_without_removing_it() {
    let mut stack = PaneStack::new();
    stack.push(selection());
    assert_eq!(stack.handle_ctrl_c(), CtrlCAction::Handled);
    assert_eq!(stack.depth(), 1);
    let top = stack.active().unwrap();
    assert!(top.is_complete());
    assert_eq!(top.view_id(), Some("selection"));
}
