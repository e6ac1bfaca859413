use window_switcher::dispatch::{command_message, decode_message, message_result, AppEvent};
use window_switcher::groups::WindowGroups;
use window_switcher::keyboard::Command;
use window_switcher::switcher::{Effect, Switcher};
use window_switcher::utils::create_task_file;

const NOTHING: Effect = Effect { activate: None, repaint: false, hide: false };

fn three_apps() -> WindowGroups {
    let mut groups = WindowGroups::new();
    groups.push("notepad.exe", 1);
    groups.push("notepad.exe", 2);
    groups.push("notepad.exe", 3);
    groups.push("calc.exe", 4);
    groups.push("explorer.exe", 5);
    groups
}

#[test]
fn messages_decode_to_events() {
    assert_eq!(decode_message(6000, 0, 0x0202, 0), AppEvent::TrayMenu);
    assert_eq!(decode_message(6000, 0, 0x0205, 0), AppEvent::TrayMenu);
    assert_eq!(decode_message(6000, 0, 0x0200, 0), AppEvent::TrayOther);
    assert_eq!(decode_message(6001, 0, 0, 0), AppEvent::RegisterTrayIcon);
    assert_eq!(decode_message(49300, 0, 0, 49300), AppEvent::RegisterTrayIcon);
    assert_eq!(decode_message(49300, 0, 0, 49301), AppEvent::Other);
    assert_eq!(
        decode_message(6010, 0, 1, 0),
        AppEvent::Gesture(Command::GestureStep { binding_id: 2, reverse: true })
    );
    assert_eq!(
        decode_message(6010, 0, 0, 0),
        AppEvent::Gesture(Command::GestureStep { binding_id: 2, reverse: false })
    );
    assert_eq!(
        decode_message(6010, 0, 2, 0),
        AppEvent::Gesture(Command::GestureStep { binding_id: 2, reverse: false })
    );
    assert_eq!(decode_message(6011, 0, 0, 0), AppEvent::Gesture(Command::GestureFinished { binding_id: 2 }));
    assert_eq!(decode_message(6012, 0, 0, 0), AppEvent::Gesture(Command::GestureCancel));
    assert_eq!(
        decode_message(6020, 0, 1, 0),
        AppEvent::Gesture(Command::GestureStep { binding_id: 1, reverse: true })
    );
    assert_eq!(decode_message(6021, 0, 0, 0), AppEvent::Gesture(Command::GestureFinished { binding_id: 1 }));
    assert_eq!(decode_message(0x0084, 0, 0, 0), AppEvent::HitTest);
    assert_eq!(decode_message(0x0202, 0, 0, 0), AppEvent::Click);
    assert_eq!(decode_message(0x0014, 0, 0, 0), AppEvent::EraseBackground);
    assert_eq!(decode_message(0x0010, 0, 0, 0), AppEvent::Other);
    // a user message number wins over the taskbar message of the same number
    assert_eq!(decode_message(6000, 0, 0, 6000), AppEvent::TrayOther);
}

#[test]
fn tray_message_is_read_from_the_low_32_bits() {
    let high: i64 = 0x7_0000_0000;
    assert_eq!(decode_message(6000, 0, (high | 0x0202) as isize, 0), AppEvent::TrayMenu);
    assert_eq!(decode_message(6000, 0, (high | 0x0205) as isize, 0), AppEvent::TrayMenu);
    assert_eq!(decode_message(6000, 0, (high | 0x0200) as isize, 0), AppEvent::TrayOther);
    assert_eq!(decode_message(6000, 0, (-0x1_0000_0000i64 | 0x0205) as isize, 0), AppEvent::TrayMenu);
    assert_eq!(decode_message(6000, 0, -1, 0), AppEvent::TrayOther);
}

#[test]
fn menu_commands_decode_by_their_low_word() {
    assert_eq!(decode_message(0x0111, 1, 0, 0), AppEvent::MenuExit);
    assert_eq!(decode_message(0x0111, 2, 0, 0), AppEvent::MenuStartup);
    assert_eq!(decode_message(0x0111, 3, 0, 0), AppEvent::MenuConfigure);
    assert_eq!(decode_message(0x0111, 4, 0, 0), AppEvent::Other);
    assert_eq!(decode_message(0x0111, 0, 0, 0), AppEvent::Other);
    // an accelerator or a control, not a menu
    assert_eq!(decode_message(0x0111, 0x1_0001, 0, 0), AppEvent::Other);
    assert_eq!(decode_message(0x0111, 0xffff_0002, 0, 0), AppEvent::Other);
}

#[test]
fn some_events_are_answered_at_once() {
    assert_eq!(message_result(AppEvent::TrayMenu), Some(0));
    assert_eq!(message_result(AppEvent::TrayOther), Some(0));
    assert_eq!(message_result(AppEvent::HitTest), Some(1));
    assert_eq!(message_result(AppEvent::EraseBackground), Some(0));
    assert_eq!(message_result(AppEvent::Click), None);
    assert_eq!(message_result(AppEvent::MenuExit), None);
    assert_eq!(message_result(AppEvent::Gesture(Command::GestureCancel)), None);
    assert_eq!(message_result(AppEvent::Other), None);
}

#[test]
fn commands_travel_as_messages_and_come_back() {
    let commands = [
        Command::GestureStep { binding_id: 1, reverse: false },
        Command::GestureStep { binding_id: 1, reverse: true },
        Command::GestureStep { binding_id: 2, reverse: false },
        Command::GestureStep { binding_id: 2, reverse: true },
        Command::GestureFinished { binding_id: 1 },
        Command::GestureFinished { binding_id: 2 },
        Command::GestureCancel,
    ];
    for c in commands {
        let (msg, lparam) = command_message(c).unwrap();
        assert_eq!(decode_message(msg, 0, lparam, 0), AppEvent::Gesture(c));
    }
    assert_eq!(command_message(Command::GestureStep { binding_id: 2, reverse: true }), Some((6010, 1)));
    assert_eq!(command_message(Command::GestureStep { binding_id: 1, reverse: false }), Some((6020, 0)));
    assert_eq!(command_message(Command::GestureFinished { binding_id: 2 }), Some((6011, 0)));
    assert_eq!(command_message(Command::GestureFinished { binding_id: 1 }), Some((6021, 0)));
    assert_eq!(command_message(Command::GestureCancel), Some((6012, 0)));
    assert_eq!(command_message(Command::GestureStep { binding_id: 3, reverse: false }), None);
    assert_eq!(command_message(Command::GestureFinished { binding_id: 0 }), None);
    assert_eq!(command_message(Command::FocusChanged), None);
}

#[test]
fn two_steps_and_escape_activate_nothing() {
    let mut s = Switcher::new();
    let groups = three_apps();
    let step = Command::GestureStep { binding_id: 2, reverse: false };
    assert_eq!(s.dispatch(step, &groups, "notepad.exe"), Effect { activate: None, repaint: true, hide: false });
    assert_eq!(s.apps_state().unwrap().index, 1);
    assert_eq!(s.dispatch(step, &groups, "notepad.exe"), Effect { activate: None, repaint: true, hide: false });
    assert_eq!(s.apps_state().unwrap().index, 2);
    assert_eq!(
        s.dispatch(Command::GestureCancel, &groups, "notepad.exe"),
        Effect { activate: None, repaint: false, hide: true }
    );
    assert!(s.apps_state().is_none());
    // the modifier goes up afterwards: still nothing
    assert_eq!(s.dispatch(Command::GestureFinished { binding_id: 2 }, &groups, "notepad.exe"), NOTHING);
    assert_eq!(s.dispatch(Command::GestureCancel, &groups, "notepad.exe"), NOTHING);
}

#[test]
fn finished_app_gesture_activates_the_selection() {
    let mut s = Switcher::new();
    let groups = three_apps();
    s.dispatch(Command::GestureStep { binding_id: 2, reverse: true }, &groups, "notepad.exe");
    assert_eq!(s.focus_handle(77), 5);
    assert_eq!(
        s.dispatch(Command::GestureFinished { binding_id: 2 }, &groups, "notepad.exe"),
        Effect { activate: Some(5), repaint: false, hide: true }
    );
    assert_eq!(s.focus_handle(77), 77);
}

#[test]
fn window_gesture_through_dispatch() {
    let mut s = Switcher::new();
    let groups = three_apps();
    let step = Command::GestureStep { binding_id: 1, reverse: false };
    assert_eq!(s.dispatch(step, &groups, "notepad.exe"), Effect { activate: Some(2), repaint: false, hide: false });
    assert_eq!(s.dispatch(step, &groups, "notepad.exe"), Effect { activate: Some(3), repaint: false, hide: false });
    assert_eq!(s.dispatch(step, &groups, "notepad.exe"), Effect { activate: Some(1), repaint: false, hide: false });
    assert_eq!(s.dispatch(step, &groups, "calc.exe"), NOTHING);
    assert!(!s.windows_state().modifier_released);
    assert_eq!(s.dispatch(Command::GestureFinished { binding_id: 1 }, &groups, "notepad.exe"), NOTHING);
    assert!(s.windows_state().modifier_released);
    assert_eq!(s.windows_state().cache.as_ref().unwrap().index, 0);
}

#[test]
fn other_commands_change_nothing() {
    let mut s = Switcher::new();
    let groups = three_apps();
    assert_eq!(s.dispatch(Command::FocusChanged, &groups, "notepad.exe"), NOTHING);
    assert_eq!(s.dispatch(Command::GestureStep { binding_id: 9, reverse: false }, &groups, "notepad.exe"), NOTHING);
    assert_eq!(s.dispatch(Command::GestureFinished { binding_id: 9 }, &groups, "notepad.exe"), NOTHING);
    assert!(s.apps_state().is_none());
    assert!(s.windows_state().cache.is_none());
    assert!(s.windows_state().modifier_released);
}

#[test]
fn app_step_on_an_empty_snapshot_paints_nothing() {
    let mut s = Switcher::new();
    assert_eq!(
        s.dispatch(Command::GestureStep { binding_id: 2, reverse: false }, &WindowGroups::new(), ""),
        NOTHING
    );
}

#[test]
fn app_step_with_one_app_paints_nothing() {
    let mut s = Switcher::new();
    let mut groups = WindowGroups::new();
    groups.push("notepad.exe", 1);
    groups.push("notepad.exe", 2);
    for reverse in [false, true] {
        assert_eq!(
            s.dispatch(Command::GestureStep { binding_id: 2, reverse }, &groups, "notepad.exe"),
            NOTHING
        );
        assert!(s.apps_state().is_none());
    }
    assert_eq!(s.dispatch(Command::GestureFinished { binding_id: 2 }, &groups, "notepad.exe"), NOTHING);
}

#[test]
fn task_file_has_its_fields_in_place() {
    let xml = create_task_file(
        "WindowSwitcher",
        "C:\\Program Files\\ws\\window-switcher.exe",
        "PC\\me",
        "S-1-5-21-1-2-3-1001",
        "2024-03-07T09:05:00",
    );
    assert!(xml.starts_with("<?xml version=\"1.0\" encoding=\"UTF-16\"?>\n<Task version=\"1.2\" xmlns=\"http://schemas.microsoft.com/windows/2004/02/mit/task\">\n  <RegistrationInfo>\n    <Date>2024-03-07T09:05:00</Date>\n    <Author>PC\\me</Author>\n    <URI>\\WindowSwitcher</URI>\n  </RegistrationInfo>\n"));
    assert!(xml.contains("      <StartBoundary>2024-03-07T09:05:00</StartBoundary>\n      <Enabled>true</Enabled>\n"));
    assert!(xml.contains("    <Principal id=\"Author\">\n      <UserId>S-1-5-21-1-2-3-1001</UserId>\n      <LogonType>InteractiveToken</LogonType>\n      <RunLevel>HighestAvailable</RunLevel>\n"));
    assert!(xml.contains("    <ExecutionTimeLimit>PT0S</ExecutionTimeLimit>\n    <Priority>7</Priority>\n  </Settings>\n"));
    assert!(xml.ends_with("  <Actions Context=\"Author\">\n    <Exec>\n      <Command>\"C:\\Program Files\\ws\\window-switcher.exe\"</Command>\n    </Exec>\n  </Actions>\n</Task>"));
    assert_eq!(xml.lines().count(), 45);
    let plain = create_task_file("n", "C:\\ws.exe", "a", "u", "t");
    assert!(plain.contains("<Command>C:\\ws.exe</Command>"));
    assert!(plain.contains("<URI>\\n</URI>"));
}
