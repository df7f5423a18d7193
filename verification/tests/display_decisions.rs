use hdr_game_switcher::display::{
    choose_monitor, console_mode_value, mode_change_outcome, second_switch_follows, console_write_step, hdr_request, mode_plan, monitor_description,
    select_physical_monitor, ConsoleAction, ConsoleEvent, DisplayError, DisplaySwitch, PhysicalMonitor,
};
use hdr_game_switcher::wide::utf16_units;

fn monitor(description: &str) -> PhysicalMonitor {
    let mut d = utf16_units(description);
    d.resize(128, 0);
    PhysicalMonitor { description: d }
}

#[test]
fn error_messages() {
    assert_eq!(DisplayError::QueryFailed.message(), "could not query display configuration");
    assert_eq!(DisplayError::ReadFailed(1004).message(), "could not read display configuration (1004)");
    assert_eq!(DisplayError::HdrChangeFailed.message(), "could not change HDR state");
    assert_eq!(DisplayError::ConsoleWriteFailed.message(), "could not set AW2725D Console Mode");
    assert_eq!(DisplayError::ReadBackFailed.message(), "VCP F4 write succeeded, but read-back failed");
    assert_eq!(
        DisplayError::ConsoleRejected { desired: 113, read_back: 112 }.message(),
        "AW2725D rejected Console Mode value 113 (read back 112)"
    );
    assert_eq!(DisplayError::MonitorNotFound.message(), "AW2725D was not found through DDC/CI");
    assert_eq!(DisplayError::System("Access is denied.".to_string()).message(), "Access is denied.");
}

#[test]
fn monitor_choice() {
    assert_eq!(choose_monitor(&[1, 2, 3], Some(2)), Some(2));
    assert_eq!(choose_monitor(&[1, 2, 3], Some(9)), Some(1));
    assert_eq!(choose_monitor(&[1, 2, 3], None), Some(1));
    assert_eq!(choose_monitor(&[], Some(2)), None);
}

#[test]
fn descriptions() {
    let m = monitor("Dell AW2725D");
    assert_eq!(monitor_description(&m.description), "Dell AW2725D");
}

#[test]
fn physical_monitor_choice() {
    let ms = vec![monitor("Generic PnP"), monitor("dell aw2725d"), monitor("AW2725D")];
    assert_eq!(select_physical_monitor(&ms), Some(1));
    let others = vec![monitor("Generic PnP"), monitor("Other"), monitor("AW2724D")];
    assert_eq!(select_physical_monitor(&others), None);
    assert_eq!(select_physical_monitor(&[]), None);
}

#[test]
fn console_values() {
    assert_eq!(console_mode_value(true), 113);
    assert_eq!(console_mode_value(false), 112);
}

#[test]
fn console_write_decisions() {
    assert!(matches!(console_write_step(113, 0, ConsoleEvent::ReadBack(113)), ConsoleAction::Finish(Ok(()))));
    assert!(matches!(
        console_write_step(113, 1, ConsoleEvent::ReadBack(112)),
        ConsoleAction::Finish(Err(DisplayError::ConsoleRejected { desired: 113, read_back: 112 }))
    ));
    assert!(matches!(console_write_step(112, 0, ConsoleEvent::ReadBackFailed), ConsoleAction::RetryAfterPause));
    assert!(matches!(console_write_step(112, 1, ConsoleEvent::ReadBackFailed), ConsoleAction::RetryAfterPause));
    assert!(matches!(
        console_write_step(112, 2, ConsoleEvent::ReadBackFailed),
        ConsoleAction::Finish(Err(DisplayError::ReadBackFailed))
    ));
    assert!(matches!(
        console_write_step(112, 7, ConsoleEvent::ReadBackFailed),
        ConsoleAction::Finish(Err(DisplayError::ReadBackFailed))
    ));
    assert!(matches!(
        console_write_step(112, 0, ConsoleEvent::WriteRefused),
        ConsoleAction::Finish(Err(DisplayError::ConsoleWriteFailed))
    ));
}

#[test]
fn hdr_requests() {
    assert_eq!(hdr_request(true, 0, 0b11), Some(1));
    assert_eq!(hdr_request(false, 0, 0b1), Some(0));
    assert_eq!(hdr_request(true, 0, 0b10), None);
    assert_eq!(hdr_request(true, 87, 0b1), None);
}

#[test]
fn mode_plans() {
    let on = mode_plan(true);
    assert!(matches!(on.first, DisplaySwitch::Hdr));
    assert_eq!(on.pause_ms, 350);
    assert!(matches!(on.second, DisplaySwitch::ConsoleMode));
    let off = mode_plan(false);
    assert!(matches!(off.first, DisplaySwitch::ConsoleMode));
    assert_eq!(off.pause_ms, 100);
    assert!(matches!(off.second, DisplaySwitch::Hdr));
    assert!(off.second_despite_failure);
    assert!(!on.second_despite_failure);
}

#[test]
fn switching_off_disables_hdr_after_a_console_failure() {
    let off = mode_plan(false);
    assert!(second_switch_follows(&off, &Err(DisplayError::MonitorNotFound)));
    assert!(second_switch_follows(&off, &Ok(())));
    let on = mode_plan(true);
    assert!(!second_switch_follows(&on, &Err(DisplayError::HdrChangeFailed)));
    assert!(second_switch_follows(&on, &Ok(())));
    assert!(matches!(
        mode_change_outcome(Err(DisplayError::MonitorNotFound), Some(Ok(()))),
        Err(DisplayError::MonitorNotFound)
    ));
    assert!(matches!(
        mode_change_outcome(Ok(()), Some(Err(DisplayError::HdrChangeFailed))),
        Err(DisplayError::HdrChangeFailed)
    ));
    assert!(matches!(mode_change_outcome(Ok(()), Some(Ok(()))), Ok(())));
    assert!(matches!(mode_change_outcome(Err(DisplayError::QueryFailed), None), Err(DisplayError::QueryFailed)));
}
