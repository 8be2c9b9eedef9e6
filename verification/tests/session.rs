use zynsearch::session::{session_action, SessionAction};

#[test]
fn session_lines_prompt_close_or_search() {
    assert_eq!(session_action(""), SessionAction::Prompt);
    assert_eq!(session_action(" \t\r\n"), SessionAction::Prompt);
    assert_eq!(session_action("exit"), SessionAction::Close);
    assert_eq!(session_action("quit"), SessionAction::Close);
    assert_eq!(session_action("exit now"), SessionAction::Search("exit now".to_string()));
    assert_eq!(session_action("fast car"), SessionAction::Search("fast car".to_string()));
}
