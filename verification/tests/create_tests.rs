use lockpilot::commands::{admit_timer, cancel_timer, create_timer, list_timers, present};
use lockpilot::error::ValidationError;
use lockpilot::instant::Instant;
use lockpilot::recurrence::{RecurrenceConfig, RecurrencePreset};
use lockpilot::registry::TimerRegistry;
use lockpilot::scheduler::{on_wakeup, remaining_wait, settle, LoopState, Wakeup};
use lockpilot::text::{is_white_space_char, trimmed_text};
use lockpilot::timer::{CreateTimerRequest, TimerAction};

fn at(secs: i64) -> Instant {
    Instant::from_parts(secs, 0).unwrap()
}

fn request(action: TimerAction, target: &str, message: Option<&str>) -> CreateTimerRequest {
    CreateTimerRequest {
        action,
        target_time: target.to_string(),
        recurrence: None,
        message: message.map(|m| m.to_string()),
    }
}

#[test]
fn white_space_is_what_the_standard_library_says() {
    let mut u: u32 = 0;
    while u <= 0x10FFFF {
        if let Some(c) = char::from_u32(u) {
            assert_eq!(is_white_space_char(c), c.is_whitespace(), "U+{:04X}", u);
        }
        u += 1;
    }
}

#[test]
fn trimmed_text_drops_white_space_at_both_ends() {
    assert_eq!(trimmed_text("  Take a break \n"), "Take a break");
    assert_eq!(trimmed_text("\u{3000}a b\u{2003}"), "a b");
    assert_eq!(trimmed_text(" \t "), "");
    assert_eq!(trimmed_text(""), "");
    assert_eq!(trimmed_text("x"), "x");
}

#[test]
fn admit_rejects_unparsed_time() {
    let mut reg = TimerRegistry::new();
    let r = admit_timer(&mut reg, request(TimerAction::Lock, "soon", None), None, at(0), "id".to_string());
    assert_eq!(r, Err(ValidationError::InvalidTime));
    assert_eq!(reg.len(), 0);
}

#[test]
fn admit_rejects_time_not_in_future() {
    let mut reg = TimerRegistry::new();
    let req = request(TimerAction::Lock, "x", None);
    let r = admit_timer(&mut reg, req.clone(), Some((100, 0)), at(100), "id".to_string());
    assert_eq!(r, Err(ValidationError::NotInFuture));
    let r = admit_timer(&mut reg, req, Some((99, 999_999_999)), at(100), "id".to_string());
    assert_eq!(r, Err(ValidationError::NotInFuture));
    assert_eq!(reg.len(), 0);
}

#[test]
fn admit_rejects_popup_without_message() {
    let mut reg = TimerRegistry::new();
    let r = admit_timer(&mut reg, request(TimerAction::Popup, "x", None), Some((101, 0)), at(100), "id".to_string());
    assert_eq!(r, Err(ValidationError::MessageRequired));
    let r = admit_timer(&mut reg, request(TimerAction::Popup, "x", Some(" \t\n")), Some((101, 0)), at(100), "id".to_string());
    assert_eq!(r, Err(ValidationError::MessageRequired));
    assert_eq!(reg.len(), 0);
}

#[test]
fn admit_rejects_bad_recurrence() {
    let mut reg = TimerRegistry::new();
    let mut req = request(TimerAction::Lock, "x", None);
    req.recurrence = Some(RecurrenceConfig {
        preset: RecurrencePreset::EveryNHours,
        interval_hours: Some(25),
        interval_minutes: None,
    });
    let r = admit_timer(&mut reg, req, Some((101, 0)), at(100), "id".to_string());
    assert_eq!(r, Err(ValidationError::HoursIntervalOutOfRange));
    assert_eq!(reg.len(), 0);
}

#[test]
fn faults_are_reported_in_order() {
    let mut reg = TimerRegistry::new();
    let mut req = request(TimerAction::Popup, "x", None);
    req.recurrence = Some(RecurrenceConfig {
        preset: RecurrencePreset::EveryNMinutes,
        interval_hours: None,
        interval_minutes: None,
    });
    assert_eq!(admit_timer(&mut reg, req.clone(), None, at(100), "i".to_string()), Err(ValidationError::InvalidTime));
    assert_eq!(admit_timer(&mut reg, req.clone(), Some((1, 0)), at(100), "i".to_string()), Err(ValidationError::NotInFuture));
    assert_eq!(admit_timer(&mut reg, req.clone(), Some((101, 0)), at(100), "i".to_string()), Err(ValidationError::MessageRequired));
    req.message = Some("hi".to_string());
    assert_eq!(admit_timer(&mut reg, req, Some((101, 0)), at(100), "i".to_string()), Err(ValidationError::MinutesIntervalMissing));
}

#[test]
fn admit_enters_the_record() {
    let mut reg = TimerRegistry::new();
    let now = Instant::from_parts(100, 5).unwrap();
    let r = admit_timer(&mut reg, request(TimerAction::Popup, "x", Some("  Take a break ")), Some((101, 7)), now, "id-1".to_string()).unwrap();
    assert_eq!(r.id, "id-1");
    assert_eq!(r.action, TimerAction::Popup);
    assert_eq!(r.target_time, Instant::from_parts(101, 7).unwrap());
    assert_eq!(r.message, Some("Take a break".to_string()));
    assert_eq!(r.created_at, now);
    assert_eq!(r.recurrence, None);
    assert_eq!(reg.snapshot(), vec![r]);
}

#[test]
fn admit_trims_the_message_of_any_action() {
    let mut reg = TimerRegistry::new();
    let r = admit_timer(&mut reg, request(TimerAction::Reboot, "x", Some("  ")), Some((101, 0)), at(100), "a".to_string()).unwrap();
    assert_eq!(r.message, Some(String::new()));
}

#[test]
fn admit_carries_a_leap_second_forward() {
    let mut reg = TimerRegistry::new();
    let r = admit_timer(&mut reg, request(TimerAction::Lock, "x", None), Some((119, 1_250_000_000)), at(100), "a".to_string()).unwrap();
    assert_eq!(r.target_time, Instant::from_parts(120, 250_000_000).unwrap());
}

#[test]
fn create_rejects_malformed_time() {
    let mut reg = TimerRegistry::new();
    assert_eq!(create_timer(&mut reg, request(TimerAction::Lock, "tomorrow", None)), Err(ValidationError::InvalidTime));
    assert_eq!(create_timer(&mut reg, request(TimerAction::Lock, "2024-13-01T00:00:00Z", None)), Err(ValidationError::InvalidTime));
    assert_eq!(reg.len(), 0);
}

#[test]
fn create_rejects_past_time() {
    let mut reg = TimerRegistry::new();
    assert_eq!(create_timer(&mut reg, request(TimerAction::Lock, "2001-02-03T04:05:06Z", None)), Err(ValidationError::NotInFuture));
    assert_eq!(reg.len(), 0);
}

#[test]
fn create_parses_the_target_time_with_its_offset() {
    let mut reg = TimerRegistry::new();
    let info = create_timer(&mut reg, request(TimerAction::Shutdown, "2999-01-01T01:00:00.25+01:00", None)).unwrap();
    // 2999-01-01T00:00:00Z
    assert_eq!(info.target_time, Instant::from_parts(32_472_144_000, 250_000_000).unwrap());
    assert_eq!(info.action, TimerAction::Shutdown);
    assert!(info.target_time.is_after(&info.created_at));
    assert_eq!(info.id.len(), 36);
    assert_eq!(reg.snapshot(), vec![info]);
}

#[test]
fn create_gives_distinct_ids() {
    let mut reg = TimerRegistry::new();
    let a = create_timer(&mut reg, request(TimerAction::Lock, "2999-01-01T00:00:00Z", None)).unwrap();
    let b = create_timer(&mut reg, request(TimerAction::Lock, "2999-01-01T00:00:00Z", None)).unwrap();
    assert_ne!(a.id, b.id);
    assert_eq!(reg.len(), 2);
}

#[test]
fn popup_in_five_seconds_fires_once_and_leaves_the_list() {
    let mut reg = TimerRegistry::new();
    let target = chrono::Utc::now() + chrono::Duration::seconds(5);
    let info = create_timer(&mut reg, request(TimerAction::Popup, &target.to_rfc3339(), Some("Take a break"))).unwrap();
    assert_eq!(info.target_time.seconds(), target.timestamp());
    assert_eq!(info.target_time.subsec_nanos(), target.timestamp_subsec_nanos());
    assert_eq!(info.message, Some("Take a break".to_string()));
    assert_eq!(reg.snapshot(), vec![info.clone()]);

    let state = LoopState::Waiting(info.target_time);
    let wait = remaining_wait(info.target_time, info.created_at);
    assert!(wait.secs <= 5);
    let state = on_wakeup(state, Wakeup::DeadlineReached);
    assert_eq!(state, LoopState::Firing(info.target_time));
    let after = info.target_time.plus_seconds(1).unwrap();
    let s = settle(&mut reg, &info.id, info.target_time, info.recurrence.as_ref(), after);
    assert_eq!(s.state, LoopState::Retired);
    assert!(reg.snapshot().is_empty());
}

#[test]
fn cancel_takes_the_timer_off_the_list() {
    let mut reg = TimerRegistry::new();
    let a = create_timer(&mut reg, request(TimerAction::Lock, "2999-01-01T00:00:00Z", None)).unwrap();
    let b = create_timer(&mut reg, request(TimerAction::Reboot, "2998-01-01T00:00:00Z", None)).unwrap();
    assert_eq!(list_timers(&reg), vec![b.clone(), a.clone()]);
    assert!(cancel_timer(&mut reg, &a.id));
    assert_eq!(list_timers(&reg), vec![b]);
    assert!(!cancel_timer(&mut reg, &a.id));
    assert!(!cancel_timer(&mut reg, "no such id"));
}

#[test]
fn present_is_a_plausible_reading_of_the_clock() {
    let before = chrono::Utc::now().timestamp();
    let now = present();
    let after = chrono::Utc::now().timestamp();
    assert!(before <= now.seconds() && now.seconds() <= after);
    assert!(now.subsec_nanos() < 1_000_000_000);
}
