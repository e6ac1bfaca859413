use window_switcher::foreground::{ForegroundWatcher, WatcherAction};

fn watcher() -> ForegroundWatcher {
    ForegroundWatcher::init(&vec!["Game.exe".to_string(), "vmware.exe".to_string()])
}

#[test]
fn starts_registered() {
    let w = watcher();
    assert!(w.is_hotkey_active());
    assert!(w.is_blacklisted(&"game.exe".to_string()));
    assert!(!w.is_blacklisted(&"Game.exe".to_string()));
    assert!(!w.is_blacklisted(&"notepad.exe".to_string()));
}

#[test]
fn entering_the_blacklist_deregisters_once() {
    let mut w = watcher();
    assert_eq!(w.on_focus_change("notepad.exe"), WatcherAction::Nothing);
    assert_eq!(w.on_focus_change("GAME.EXE"), WatcherAction::Deregister);
    assert!(!w.is_hotkey_active());
    assert_eq!(w.on_focus_change("GAME.EXE"), WatcherAction::Nothing);
    assert_eq!(w.on_focus_change("game.exe"), WatcherAction::Nothing);
    assert_eq!(w.on_focus_change("Game.exe"), WatcherAction::Nothing);
    assert!(!w.is_hotkey_active());
}

#[test]
fn leaving_the_blacklist_registers_once() {
    let mut w = watcher();
    w.on_focus_change("game.exe");
    assert_eq!(w.on_focus_change("notepad.exe"), WatcherAction::Register);
    assert!(w.is_hotkey_active());
    assert_eq!(w.on_focus_change("notepad.exe"), WatcherAction::Nothing);
    assert_eq!(w.on_focus_change("calc.exe"), WatcherAction::Nothing);
    assert!(w.is_hotkey_active());
}

#[test]
fn moving_between_blacklisted_executables_asks_nothing() {
    let mut w = watcher();
    assert_eq!(w.on_focus_change("game.exe"), WatcherAction::Deregister);
    assert_eq!(w.on_focus_change("VMware.exe"), WatcherAction::Nothing);
    assert_eq!(w.on_focus_change("game.exe"), WatcherAction::Nothing);
    assert!(!w.is_hotkey_active());
}

#[test]
fn there_and_back_counts_one_of_each() {
    let mut w = watcher();
    let mut registered = 0;
    let mut deregistered = 0;
    for exe in ["a.exe", "game.exe", "game.exe", "game.exe", "a.exe", "a.exe", "b.exe"] {
        match w.on_focus_change(exe) {
            WatcherAction::Register => registered += 1,
            WatcherAction::Deregister => deregistered += 1,
            WatcherAction::Nothing => {}
        }
    }
    assert_eq!(registered, 1);
    assert_eq!(deregistered, 1);
}

#[test]
fn empty_blacklist_never_asks() {
    let mut w = ForegroundWatcher::init(&vec![]);
    assert_eq!(w.on_focus_change("game.exe"), WatcherAction::Nothing);
    assert_eq!(w.on_focus_change("a.exe"), WatcherAction::Nothing);
    assert!(w.is_hotkey_active());
}

#[test]
fn failed_action_is_asked_for_again() {
    let mut w = watcher();
    assert_eq!(w.on_focus_change("game.exe"), WatcherAction::Deregister);
    w.action_failed(WatcherAction::Deregister);
    assert!(w.is_hotkey_active());
    // the same executable again changes nothing; the next blacklisted one asks again
    assert_eq!(w.on_focus_change("game.exe"), WatcherAction::Nothing);
    assert_eq!(w.on_focus_change("vmware.exe"), WatcherAction::Deregister);
    assert_eq!(w.on_focus_change("a.exe"), WatcherAction::Register);
    w.action_failed(WatcherAction::Register);
    assert!(!w.is_hotkey_active());
    w.action_failed(WatcherAction::Nothing);
    assert!(!w.is_hotkey_active());
    assert_eq!(w.on_focus_change("b.exe"), WatcherAction::Register);
}
