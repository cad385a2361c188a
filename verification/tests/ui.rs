use omnis_app::input::tool_for;
use omnis_app::sim::ShellCommand;
use omnis_app::ui::{RollLog, ROLL_LOG_CAPACITY};
use omnis_app::widget::ToolButton;

#[test]
fn the_roll_log_keeps_its_newest_lines() {
    let mut log = RollLog::default();
    for i in 0..40 {
        log.push(format!("line {i}"));
        assert!(log.0.len() <= ROLL_LOG_CAPACITY);
    }
    assert_eq!(log.0.len(), 32);
    assert_eq!(log.0[0], "line 8", "the oldest eight went");
    assert_eq!(log.0[31], "line 39");
    log.clear();
    assert!(log.0.is_empty());
}

#[test]
fn tool_buttons_send_what_their_keys_send() {
    // C casts, M toggles the automap, Escape pauses.
    assert_eq!(tool_for(ToolButton::Spells), Some(ShellCommand::Cast));
    assert_eq!(tool_for(ToolButton::Automap), Some(ShellCommand::ToggleAutomap));
    assert_eq!(tool_for(ToolButton::Menu), Some(ShellCommand::Pause));
    assert_eq!(tool_for(ToolButton::Items), None);
    assert_eq!(tool_for(ToolButton::Look), None);
}
