use ini::Ini;
use window_switcher::config::{
    contains_name, parse_blacklist, parse_override_icons, system_switcher_only_current_desktop,
    Config, ConfigError, LogLevel,
};

fn load(text: &str) -> Result<Config, ConfigError> {
    let ini = Ini::load_from_str_noescape(text).unwrap();
    Config::load(&ini)
}

#[test]
fn default_config() {
    let c = Config::default();
    assert!(c.trayicon);
    assert_eq!(c.log_level, LogLevel::Info);
    assert_eq!(c.log_file, None);
    assert_eq!(c.switch_windows_hotkey.id, 1);
    assert_eq!(c.switch_windows_hotkey.name, "switch windows");
    assert_eq!(c.switch_windows_hotkey.modifier, [0x38, 0x38]);
    assert_eq!(c.switch_windows_hotkey.code, 0x29);
    assert!(c.switch_windows_blacklist.is_empty());
    assert!(!c.switch_windows_ignore_minimal);
    assert_eq!(c.switch_windows_only_current_desktop, None);
    assert!(!c.switch_apps_enable);
    assert_eq!(c.switch_apps_hotkey.id, 2);
    assert_eq!(c.switch_apps_hotkey.name, "switch apps");
    assert_eq!(c.switch_apps_hotkey.modifier, [0x38, 0x38]);
    assert_eq!(c.switch_apps_hotkey.code, 0x0f);
    assert!(!c.switch_apps_ignore_minimal);
    assert!(c.switch_apps_override_icons.is_empty());
    assert_eq!(c.switch_apps_only_current_desktop, None);
}

#[test]
fn empty_file_gives_the_defaults() {
    let c = load("").unwrap();
    assert!(c.trayicon);
    assert_eq!(c.log_level, LogLevel::Info);
    assert_eq!(c.switch_windows_hotkey.code, 0x29);
    assert_eq!(c.switch_apps_hotkey.code, 0x0f);
    assert!(c.switch_windows_blacklist.is_empty());
    assert!(c.switch_apps_override_icons.is_empty());
}

#[test]
fn settings_are_read() {
    let c = load(
        "trayicon = no\n\
         [log]\n\
         level = DEBUG\n\
         path = C:\\\\logs\\\\ws.log\n\
         [switch-windows]\n\
         hotkey = ctrl + q\n\
         blacklist = Game.exe , vmware.exe,\n\
         ignore_minimal = yes\n\
         only_current_desktop = off\n\
         [switch-apps]\n\
         enable = true\n\
         hotkey = win + tab\n\
         ignore_minimal = 1\n\
         override_icons = Code.exe=C:\\\\icons\\\\code.ico; junk , Term=t.png\n\
         only_current_desktop = on\n",
    )
    .unwrap();
    assert!(!c.trayicon);
    assert_eq!(c.log_level, LogLevel::Debug);
    assert_eq!(c.log_file, Some("C:\\logs\\ws.log".to_string()));
    assert_eq!(c.switch_windows_hotkey.id, 1);
    assert_eq!(c.switch_windows_hotkey.name, "switch windows");
    assert_eq!(c.switch_windows_hotkey.modifier, [0x1d, 0x1d]);
    assert_eq!(c.switch_windows_hotkey.code, 0x10);
    assert_eq!(c.switch_windows_blacklist, vec!["Game.exe", "vmware.exe", ""]);
    assert!(c.switch_windows_ignore_minimal);
    assert_eq!(c.switch_windows_only_current_desktop, Some(false));
    assert!(c.switch_apps_enable);
    assert_eq!(c.switch_apps_hotkey.id, 2);
    assert_eq!(c.switch_apps_hotkey.modifier, [0x5b, 0x5c]);
    assert_eq!(c.switch_apps_hotkey.code, 0x0f);
    assert!(c.switch_apps_ignore_minimal);
    let icons: Vec<(String, String)> =
        c.switch_apps_override_icons.iter().map(|(k, v)| (k.clone(), v.clone())).collect();
    assert_eq!(
        icons,
        vec![
            ("code.exe".to_string(), "C:\\icons\\code.ico".to_string()),
            ("term".to_string(), "t.png".to_string())
        ]
    );
    assert_eq!(c.switch_apps_only_current_desktop, Some(true));
}

#[test]
fn unreadable_values_leave_the_defaults() {
    let c = load(
        "trayicon = maybe\n\
         [log]\n\
         level = loud\n\
         path =   \n\
         [switch-windows]\n\
         hotkey =  \n\
         ignore_minimal = YES\n\
         only_current_desktop = 2\n\
         [switch-apps]\n\
         enable = True\n",
    )
    .unwrap();
    assert!(c.trayicon);
    assert_eq!(c.log_level, LogLevel::Info);
    assert_eq!(c.log_file, None);
    assert_eq!(c.switch_windows_hotkey.code, 0x29);
    assert!(!c.switch_windows_ignore_minimal);
    assert_eq!(c.switch_windows_only_current_desktop, None);
    assert!(!c.switch_apps_enable);
}

#[test]
fn every_log_level_is_read_whatever_its_case() {
    for (text, level) in [
        ("off", LogLevel::Off),
        ("Error", LogLevel::Error),
        ("WARN", LogLevel::Warn),
        ("info", LogLevel::Info),
        ("dEbUg", LogLevel::Debug),
        ("trace", LogLevel::Trace),
    ] {
        let c = load(&format!("[log]\nlevel = {text}\n")).unwrap();
        assert_eq!(c.log_level, level);
    }
}

#[test]
fn bad_hotkey_is_refused_by_name() {
    match load("[switch-windows]\nhotkey = hyper + q\n") {
        Err(ConfigError::InvalidHotkey { name }) => assert_eq!(name, "switch windows"),
        Ok(_) => panic!("accepted"),
    }
    match load("[switch-apps]\nhotkey = alt\n") {
        Err(ConfigError::InvalidHotkey { name }) => assert_eq!(name, "switch apps"),
        Ok(_) => panic!("accepted"),
    }
    // the first bad hotkey is the one named
    match load("[switch-windows]\nhotkey = x\n[switch-apps]\nhotkey = y\n") {
        Err(e) => assert_eq!(e.message(), "Invalid switch windows hotkey"),
        Ok(_) => panic!("accepted"),
    }
}

#[test]
fn bad_apps_hotkey_is_refused_even_when_apps_are_off() {
    assert!(load("[switch-apps]\nenable = no\nhotkey = nonsense\n").is_err());
}

#[test]
fn to_bool_knows_eight_words() {
    for v in ["yes", "true", "on", "1"] {
        assert_eq!(Config::to_bool(v), Some(true));
    }
    for v in ["no", "false", "off", "0"] {
        assert_eq!(Config::to_bool(v), Some(false));
    }
    for v in ["", "Yes", "TRUE", " on", "2", "y"] {
        assert_eq!(Config::to_bool(v), None);
    }
}

#[test]
fn to_hotkeys_follows_enable() {
    let mut c = Config::default();
    let keys = c.to_hotkeys();
    assert_eq!(keys.len(), 1);
    assert_eq!(keys[0].id, 1);
    c.switch_apps_enable = true;
    let keys = c.to_hotkeys();
    assert_eq!(keys.len(), 2);
    assert_eq!(keys[0].id, 1);
    assert_eq!(keys[1].id, 2);
    assert_eq!(keys[1].code, 0x0f);
}

#[test]
fn only_current_desktop_falls_back_to_the_system() {
    let mut c = Config::default();
    assert!(c.switch_apps_only_current_desktop(None));
    assert!(c.switch_apps_only_current_desktop(Some(1)));
    assert!(!c.switch_apps_only_current_desktop(Some(0)));
    assert!(c.switch_windows_only_current_desktop(Some(7)));
    assert!(!c.switch_windows_only_current_desktop(Some(0)));
    c.switch_apps_only_current_desktop = Some(true);
    c.switch_windows_only_current_desktop = Some(false);
    assert!(c.switch_apps_only_current_desktop(Some(0)));
    assert!(!c.switch_windows_only_current_desktop(Some(1)));
    assert!(system_switcher_only_current_desktop(None));
    assert!(!system_switcher_only_current_desktop(Some(0)));
    assert!(system_switcher_only_current_desktop(Some(3)));
}

#[test]
fn blacklist_pieces_are_trimmed() {
    assert_eq!(parse_blacklist("a.exe, b.exe ,c.exe"), vec!["a.exe", "b.exe", "c.exe"]);
    assert_eq!(parse_blacklist(""), vec![""]);
    assert_eq!(parse_blacklist(" , "), vec![""]);
    assert_eq!(parse_blacklist("C:\\\\x\\\\a b.exe"), vec!["C:\\x\\a b.exe"]);
    assert_eq!(parse_blacklist("\u{3000}a\t"), vec!["a"]);
}

#[test]
fn blacklist_holds_no_name_twice() {
    assert_eq!(
        parse_blacklist("game.exe, vm.exe,game.exe ,x.exe,vm.exe, game.exe"),
        vec!["game.exe", "vm.exe", "x.exe"]
    );
    // names that differ in case are different names here
    assert_eq!(parse_blacklist("Game.exe,game.exe"), vec!["Game.exe", "game.exe"]);
    assert_eq!(parse_blacklist("a,,b,,"), vec!["a", "", "b"]);
    let c = load("[switch-windows]\nblacklist = a.exe,b.exe,a.exe\n").unwrap();
    assert_eq!(c.switch_windows_blacklist, vec!["a.exe", "b.exe"]);
}

#[test]
fn contains_name_finds_whole_names() {
    let names = vec!["a.exe".to_string(), "".to_string()];
    assert!(contains_name(&names, &"a.exe".to_string()));
    assert!(contains_name(&names, &"".to_string()));
    assert!(!contains_name(&names, &"a".to_string()));
    assert!(!contains_name(&vec![], &"a".to_string()));
}

#[test]
fn override_icons_keep_first_place_and_last_value() {
    let icons = parse_override_icons("A=1,b=2;a=3, =4 ,c,d=e=f");
    let got: Vec<(String, String)> = icons.iter().map(|(k, v)| (k.clone(), v.clone())).collect();
    assert_eq!(
        got,
        vec![
            ("a".to_string(), "3".to_string()),
            ("b".to_string(), "2".to_string()),
            ("".to_string(), "4".to_string()),
            ("d".to_string(), "e=f".to_string()),
        ]
    );
    assert!(parse_override_icons("").is_empty());
    assert!(parse_override_icons("nothing here").is_empty());
}
