use yazi_nav::prompt::{next_action, InputEvent, PromptAction};

#[test]
fn submitted_line_is_trimmed_into_cd() {
    match next_action(InputEvent::Submitted("  /tmp/x \n".to_string())) {
        PromptAction::Cd(u) => {
            assert_eq!(u.path(), "/tmp/x");
            assert!(u.is_regular());
        }
        _ => panic!("expected a directory change"),
    }
}

#[test]
fn completion_request_is_forwarded() {
    match next_action(InputEvent::Completed("/ho".to_string(), 4)) {
        PromptAction::Complete(b, t) => {
            assert_eq!(b, "/ho");
            assert_eq!(t, 4);
        }
        _ => panic!("expected a completion request"),
    }
}

#[test]
fn closed_stops() {
    assert!(matches!(next_action(InputEvent::Closed), PromptAction::Stop));
}
