use loom_cli::event::{translate_event, TermEvent, TuiEvent};
use loom_cli::key::{KeyCode, KeyEvent, KeyModifiers};

#[test]
fn ctrl_z_becomes_suspend() {
    let k = KeyEvent::new(KeyCode::Char('z'), KeyModifiers::control());
    assert_eq!(translate_event(TermEvent::Key(k)), Some(TuiEvent::Suspend));
}

#[test]
fn other_input_passes_through() {
    let k = KeyEvent::plain(KeyCode::Char('z'));
    assert_eq!(translate_event(TermEvent::Key(k)), Some(TuiEvent::Key(k)));
    assert_eq!(
        translate_event(TermEvent::Paste("hi".to_string())),
        Some(TuiEvent::Paste("hi".to_string()))
    );
    assert_eq!(translate_event(TermEvent::Resize(80, 24)), Some(TuiEvent::Resize(80, 24)));
    assert_eq!(translate_event(TermEvent::FocusGained), Some(TuiEvent::FocusGained));
    assert_eq!(translate_event(TermEvent::FocusLost), Some(TuiEvent::FocusLost));
    assert_eq!(translate_event(TermEvent::Other), None);
}
