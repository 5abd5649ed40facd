use lockpilot::actions::{action_plan, Attempt};
use lockpilot::timer::TimerAction;

fn script(text: &str) -> Attempt {
    Attempt::Script(text.to_string())
}

#[test]
fn popup_shows_the_message_in_a_dialog() {
    assert_eq!(
        action_plan(&TimerAction::Popup, Some("Take a break")),
        vec![script(
            "display dialog \"Take a break\" with title \"LockPilot\" buttons {\"OK\"} default button \"OK\""
        )]
    );
}

#[test]
fn popup_escapes_double_quotes() {
    assert_eq!(
        action_plan(&TimerAction::Popup, Some("say \"hi\" \\ now")),
        vec![script(
            "display dialog \"say \\\"hi\\\" \\ now\" with title \"LockPilot\" buttons {\"OK\"} default button \"OK\""
        )]
    );
    assert_eq!(
        action_plan(&TimerAction::Popup, Some("")),
        vec![script("display dialog \"\" with title \"LockPilot\" buttons {\"OK\"} default button \"OK\"")]
    );
}

#[test]
fn popup_without_message_does_nothing() {
    assert_eq!(action_plan(&TimerAction::Popup, None), Vec::new());
}

#[test]
fn lock_falls_back_twice() {
    assert_eq!(
        action_plan(&TimerAction::Lock, Some("ignored")),
        vec![
            script("tell application \"System Events\" to keystroke \"q\" using {control down, command down}"),
            script("tell application \"System Events\" to start current screen saver"),
            Attempt::DisplaySleep,
        ]
    );
}

#[test]
fn shutdown_and_reboot_are_one_script_each() {
    assert_eq!(
        action_plan(&TimerAction::Shutdown, None),
        vec![script("tell application \"System Events\" to shut down")]
    );
    assert_eq!(
        action_plan(&TimerAction::Reboot, None),
        vec![script("tell application \"System Events\" to restart")]
    );
}
