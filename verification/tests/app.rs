use loom_cli::app::{AgentEvent, App, HistoryCell, ShellAction, SystemMessageStyle, ToolStatus};
use loom_cli::approval::{ApprovalOverlay, ApprovalRequest, ApprovalResult};
use loom_cli::event::TuiEvent;
use loom_cli::key::{KeyCode, KeyEvent, KeyModifiers};
use loom_cli::notification::NotificationType;
use loom_cli::pane::Panel;
use loom_cli::state::AppState;
use loom_cli::status::AiStatus;

fn key(code: KeyCode) -> KeyEvent {
    KeyEvent::plain(code)
}

fn ctrl(c: char) -> KeyEvent {
    KeyEvent::new(KeyCode::Char(c), KeyModifiers::control())
}

fn type_text(app: &mut App, text: &str) {
    for c in text.chars() {
        app.handle_key(key(KeyCode::Char(c)));
    }
}

#[test]
fn start_shows_welcome() {
    let mut app = App::new();
    assert_eq!(app.start(), vec![ShellAction::Render]);
    match &app.history()[0] {
        HistoryCell::SystemMessage { text, style } => {
            assert!(text.contains("Loom TUI"));
            assert_eq!(*style, SystemMessageStyle::Info);
        }
        _ => panic!("expected a system message"),
    }
    assert_eq!(app.state(), AppState::Idle);
}

#[test]
fn submit_then_stream_then_complete() {
    let mut app = App::new();
    type_text(&mut app, "hi");
    let acts = app.handle_key(key(KeyCode::Enter));
    assert_eq!(acts, vec![ShellAction::OpenAgent, ShellAction::Render]);
    assert!(app.is_agent_running());
    assert_eq!(app.state(), AppState::Submitting);
    assert_eq!(app.status_bar().message(), Some("正在思考..."));
    assert!(matches!(&app.history()[0], HistoryCell::UserMessage(t) if t == "hi"));

    app.handle_agent_event(AgentEvent::TextDelta("Hello".to_string()));
    app.handle_agent_event(AgentEvent::TextDelta(", world".to_string()));
    assert_eq!(app.active_cell().unwrap().content(), "Hello, world");
    assert_eq!(app.state(), AppState::Processing);

    let acts = app.handle_agent_event(AgentEvent::Completed);
    assert_eq!(acts, vec![ShellAction::CloseAgent, ShellAction::Render]);
    assert!(!app.is_agent_running());
    assert!(app.active_cell().is_none());
    assert!(matches!(app.history().last(), Some(HistoryCell::AssistantMessage(t)) if t == "Hello, world"));
    assert_eq!(app.state(), AppState::Idle);
    assert_eq!(app.status_bar().status(), AiStatus::Idle);
}

#[test]
fn completion_notifies_when_unfocused() {
    let mut app = App::new();
    app.handle_event(TuiEvent::FocusLost);
    assert!(!app.is_focused());
    let acts = app.handle_agent_event(AgentEvent::Completed);
    assert_eq!(
        acts,
        vec![
            ShellAction::CloseAgent,
            ShellAction::Notify(NotificationType::ReplyComplete),
            ShellAction::Render
        ]
    );
}

#[test]
fn tool_events_update_last_tool_cell() {
    let mut app = App::new();
    app.handle_agent_event(AgentEvent::ToolCall {
        call_id: None,
        name: "bash".to_string(),
        arguments: serde_json::Value::Null,
    });
    assert_eq!(app.status_bar().status(), AiStatus::Executing);
    assert_eq!(app.status_bar().message(), Some("调用: bash"));
    app.handle_agent_event(AgentEvent::ToolOutput {
        call_id: None,
        name: "bash".to_string(),
        content: "partial".to_string(),
    });
    app.handle_agent_event(AgentEvent::ToolEnd {
        call_id: None,
        name: "bash".to_string(),
        result: "done".to_string(),
        is_error: true,
        raw_result: None,
    });
    match app.history().last() {
        Some(HistoryCell::ToolCall { name, result, status, .. }) => {
            assert_eq!(name, "bash");
            assert_eq!(result.as_deref(), Some("done"));
            assert_eq!(*status, ToolStatus::Failed);
        }
        _ => panic!("expected a tool call"),
    }
    assert_eq!(app.status_bar().message(), Some("bash 完成"));
    assert_eq!(app.status_bar().status(), AiStatus::Thinking);
}

#[test]
fn error_event_records_and_stops() {
    let mut app = App::new();
    type_text(&mut app, "x");
    app.handle_key(key(KeyCode::Enter));
    let acts = app.handle_agent_event(AgentEvent::Error("boom".to_string()));
    assert_eq!(acts, vec![ShellAction::CloseAgent, ShellAction::Render]);
    assert!(matches!(app.history().last(), Some(HistoryCell::SystemMessage { text, style: SystemMessageStyle::Error }) if text == " 错误: boom "));
    assert_eq!(app.state(), AppState::Error);
    assert_eq!(app.status_bar().message(), Some("boom"));
    assert!(!app.is_agent_running());
}

#[test]
fn global_keys() {
    let mut app = App::new();
    type_text(&mut app, "abc");
    app.handle_key(key(KeyCode::Enter));
    let acts = app.handle_key(ctrl('c'));
    assert_eq!(acts, vec![ShellAction::CloseAgent, ShellAction::Render]);
    assert_eq!(app.state(), AppState::Interrupted);
    assert_eq!(app.status_bar().message(), Some("已中断"));
    let acts = app.handle_key(ctrl('l'));
    assert_eq!(acts, vec![ShellAction::Render]);
    assert_eq!(app.history().len(), 1);
    assert!(app.is_running());
    assert!(app.handle_key(ctrl('d')).is_empty());
    assert!(!app.is_running());
}

#[test]
fn overlay_takes_keys_first() {
    let mut app = App::new();
    app.push_pane(Panel::Approval(ApprovalOverlay::new(ApprovalRequest::Command {
        command: "ls".into(),
        description: "List".into(),
    })));
    assert_eq!(app.pane_stack().depth(), 1);
    let acts = app.handle_key(key(KeyCode::Char('y')));
    assert_eq!(acts, vec![ShellAction::Render]);
    assert_eq!(app.pane_stack().depth(), 0);
    assert_eq!(app.composer().content(), "");
    app.handle_key(key(KeyCode::Char('y')));
    assert_eq!(app.composer().content(), "y");
}

#[test]
fn ctrl_c_goes_to_overlay() {
    let mut app = App::new();
    app.push_pane(Panel::Approval(ApprovalOverlay::new(ApprovalRequest::Command {
        command: "ls".into(),
        description: "List".into(),
    })));
    let acts = app.handle_key(ctrl('c'));
    assert_eq!(acts, vec![ShellAction::Render]);
    assert_eq!(app.state(), AppState::Idle);
    match app.pane_stack().active() {
        Some(Panel::Approval(a)) => assert_eq!(a.result(), Some(ApprovalResult::Deny)),
        _ => panic!("overlay expected"),
    }
}

#[test]
fn terminal_events() {
    let mut app = App::new();
    assert_eq!(
        app.handle_event(TuiEvent::Resize(100, 40)),
        vec![ShellAction::Resize(100, 40), ShellAction::Render]
    );
    app.handle_event(TuiEvent::Draw);
    assert_eq!(app.status_bar().spinner_frame(), 1);
    assert_eq!(app.handle_event(TuiEvent::Suspend), vec![ShellAction::Suspend]);
    assert_eq!(app.resumed(), vec![ShellAction::Render]);
    assert_eq!(app.status_bar().message(), Some("已恢复"));
    app.handle_event(TuiEvent::Paste("pasted".to_string()));
    assert_eq!(app.composer().content(), "pasted");
    app.handle_event(TuiEvent::Resume);
    assert_eq!(app.status_bar().message(), Some("已恢复 (fg)"));
}
