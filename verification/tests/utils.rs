use window_switcher::startup::{reg_is_enable, same_units, Startup, StartupAction};
use window_switcher::text::{
    ascii_lower, chars_of, collapse_chars, contains_char, is_whitespace, last_segment_of,
    normalize_path_value, split_chars, to_wstring, trim_chars,
};
use window_switcher::utils::{
    command_path, get_current_time, is_special_window, is_win11, pretty_bool, pretty_cloak,
    push_padded, CheckError, HandleWrapper, RegKey, ScheduleTask, SingleInstance, TrayIcon,
};

fn chars(s: &str) -> Vec<char> {
    s.chars().collect()
}

fn text(v: Vec<char>) -> String {
    v.into_iter().collect()
}

#[test]
fn wide_strings_end_in_zero() {
    assert_eq!(to_wstring(""), vec![0]);
    assert_eq!(to_wstring("ab"), vec![0x61, 0x62, 0]);
    assert_eq!(to_wstring("é€"), vec![0xe9, 0x20ac, 0]);
    // outside the basic plane: a surrogate pair
    assert_eq!(to_wstring("😀"), vec![0xd83d, 0xde00, 0]);
    assert_eq!(to_wstring("\u{10000}\u{10ffff}"), vec![0xd800, 0xdc00, 0xdbff, 0xdfff, 0]);
    let s = "Window Switcher — ünïcödé 𝄞";
    let mut expected: Vec<u16> = s.encode_utf16().collect();
    expected.push(0);
    assert_eq!(to_wstring(s), expected);
}

#[test]
fn chars_of_gives_the_characters() {
    assert_eq!(chars_of("aß😀"), vec!['a', 'ß', '😀']);
    assert_eq!(chars_of(""), Vec::<char>::new());
}

#[test]
fn ascii_lower_touches_ascii_letters_only() {
    assert_eq!(ascii_lower('A'), 'a');
    assert_eq!(ascii_lower('Z'), 'z');
    assert_eq!(ascii_lower('m'), 'm');
    assert_eq!(ascii_lower('@'), '@');
    assert_eq!(ascii_lower('['), '[');
    assert_eq!(ascii_lower('Ä'), 'Ä');
    for c in '\0'..='\u{ff}' {
        assert_eq!(ascii_lower(c), c.to_ascii_lowercase());
    }
}

#[test]
fn whitespace_is_unicode_white_space() {
    for cp in 0u32..0x11000 {
        if let Some(c) = char::from_u32(cp) {
            assert_eq!(is_whitespace(c), c.is_whitespace(), "{cp:x}");
        }
    }
}

#[test]
fn trim_matches_std() {
    for s in ["", " ", "a", " a", "a ", "  a b  ", "\t\n x \r\n", "\u{a0}x\u{3000}", " \u{2003} "] {
        assert_eq!(text(trim_chars(&chars(s))), s.trim());
    }
}

#[test]
fn last_segment_is_what_follows_the_last_separator() {
    assert_eq!(text(last_segment_of(&chars("a\\b\\c"), '\\')), "c");
    assert_eq!(text(last_segment_of(&chars("abc"), '\\')), "abc");
    assert_eq!(text(last_segment_of(&chars("abc\\"), '\\')), "");
    assert_eq!(text(last_segment_of(&chars(""), '\\')), "");
    assert_eq!(text(last_segment_of(&chars("\\x"), '\\')), "x");
}

#[test]
fn contains_char_finds_it() {
    assert!(contains_char(&chars("a+b"), '+'));
    assert!(!contains_char(&chars("ab"), '+'));
    assert!(!contains_char(&chars(""), '+'));
}

#[test]
fn doubled_backslashes_become_single() {
    for s in ["", "a", "\\", "\\\\", "\\\\\\", "\\\\\\\\", "C:\\\\a\\\\b", "a\\b", "\\\\\\a"] {
        assert_eq!(normalize_path_value(s), s.replace("\\\\", "\\"));
        assert_eq!(text(collapse_chars(&chars(s))), s.replace("\\\\", "\\"));
    }
}

#[test]
fn split_matches_std() {
    for s in ["", "a", ",", "a,b", ",a,", "a,,b", "a;b,c", ";;"] {
        let got: Vec<String> = split_chars(&chars(s), ',', ';').into_iter().map(text).collect();
        let expected: Vec<String> = s.split([',', ';']).map(|p| p.to_string()).collect();
        assert_eq!(got, expected);
        let got: Vec<String> = split_chars(&chars(s), ',', ',').into_iter().map(text).collect();
        let expected: Vec<String> = s.split(',').map(|p| p.to_string()).collect();
        assert_eq!(got, expected);
    }
}

#[test]
fn win11_starts_at_build_22000() {
    assert!(is_win11(Some(22000)));
    assert!(is_win11(Some(26100)));
    assert!(!is_win11(Some(21999)));
    assert!(!is_win11(Some(19045)));
    assert!(!is_win11(None));
}

#[test]
fn special_windows_have_an_invisible_title_bar() {
    assert!(is_special_window(0x8000));
    assert!(is_special_window(0x8004));
    assert!(!is_special_window(0));
    assert!(!is_special_window(0x10000));
}

#[test]
fn handle_wrapper_holds_and_releases() {
    let mut h = HandleWrapper::new(42);
    assert_eq!(h.get_handle(), 42);
    assert!(!h.is_invalid());
    *h.get_handle_mut() = 43;
    assert_eq!(h.get_handle(), 43);
    assert_eq!(h.release(), Some(43));
    assert_eq!(h.get_handle(), 0);
    assert_eq!(h.release(), None);
    assert!(HandleWrapper::new(-1).is_invalid());
    assert!(HandleWrapper::new(0).is_invalid());
    assert!(HandleWrapper::default().is_invalid());
    assert_eq!(HandleWrapper::new(-1).release(), None);
}

#[test]
fn check_error_tells_failure_values() {
    assert_eq!(0u16.check_error(5), Err(5));
    assert_eq!(7u16.check_error(5), Ok(7));
    assert_eq!(0isize.check_error(6), Err(6));
    assert_eq!((-1isize).check_error(6), Ok(-1));
    assert_eq!(HandleWrapper::new(-1).check_error(2).unwrap_err(), 2);
    assert_eq!(HandleWrapper::new(0).check_error(2).unwrap_err(), 2);
    assert_eq!(HandleWrapper::new(9).check_error(2).unwrap().get_handle(), 9);
}

#[test]
fn single_instance_is_single_when_the_name_was_free() {
    let mut first = SingleInstance::create(11, false);
    assert!(first.is_single());
    assert_eq!(first.release(), Some(11));
    assert!(!first.is_single());
    let mut second = SingleInstance::create(12, true);
    assert!(!second.is_single());
    assert_eq!(second.release(), None);
}

#[test]
fn registry_numbers_in_both_byte_orders() {
    assert_eq!(RegKey::get_int(4, [1, 0, 0, 0]), 1);
    assert_eq!(RegKey::get_int(4, [0x78, 0x56, 0x34, 0x12]), 0x12345678);
    assert_eq!(RegKey::get_int(5, [0x12, 0x34, 0x56, 0x78]), 0x12345678);
    assert_eq!(RegKey::get_int(5, [0, 0, 0, 1]), 1);
    assert_eq!(RegKey::get_int(0, [0xff, 0xff, 0xff, 0xff]), u32::MAX);
    let key = RegKey::new(3, vec![65, 0]);
    assert_eq!(key.hkey, 3);
    assert_eq!(key.name, vec![65, 0]);
}

#[test]
fn registry_text_stops_before_the_terminator() {
    let buffer: Vec<u16> = vec![0x43, 0x3a, 0x5c, 0x61, 0, 0, 0, 0];
    // four code units and the terminator: ten bytes
    assert_eq!(RegKey::get_value(&buffer, 10), Some(vec![0x43, 0x3a, 0x5c, 0x61]));
    assert_eq!(RegKey::get_value(&buffer, 9), Some(vec![0x43, 0x3a, 0x5c, 0x61]));
    assert_eq!(RegKey::get_value(&buffer, 2), Some(vec![]));
    assert_eq!(RegKey::get_value(&buffer, 1), Some(vec![]));
    assert_eq!(RegKey::get_value(&buffer, 0), None);
    assert_eq!(RegKey::get_value(&buffer, 17), Some(buffer.clone()));
    assert_eq!(RegKey::get_value(&buffer, 19), None);
}

#[test]
fn scheduler_arguments() {
    let task = ScheduleTask::new("WindowSwitcher", "C:\\ws.exe");
    assert_eq!(task.exist_args(), vec!["/query", "/tn", "WindowSwitcher"]);
    assert_eq!(task.delete_args(), vec!["/delete", "/tn", "WindowSwitcher", "/f"]);
    assert_eq!(
        task.create_args(),
        vec![
            "/create",
            "/tn",
            "WindowSwitcher",
            "/tr",
            "C:\\ws.exe",
            "/sc",
            "onlogon",
            "/rl",
            "highest",
            "/it",
            "/f"
        ]
    );
}

#[test]
fn command_path_is_quoted_when_it_has_space() {
    assert_eq!(command_path("C:\\ws.exe"), "C:\\ws.exe");
    assert_eq!(command_path("C:\\Program Files\\ws.exe"), "\"C:\\Program Files\\ws.exe\"");
    assert_eq!(command_path("a\tb"), "\"a\tb\"");
    assert_eq!(command_path(""), "");
}

#[test]
fn task_time_is_zero_padded() {
    assert_eq!((get_current_time(2024, 3, 7, 9, 5, 0)), "2024-03-07T09:05:00");
    assert_eq!((get_current_time(999, 12, 31, 23, 59, 59)), "0999-12-31T23:59:59");
    assert_eq!((get_current_time(0, 0, 0, 0, 0, 0)), "0000-00-00T00:00:00");
    assert_eq!((get_current_time(65535, 100, 1, 1, 1, 1)), "65535-100-01T01:01:01");
    let mut v = vec!['x'];
    push_padded(&mut v, 42, 5);
    assert_eq!(text(v), "x00042");
    let mut v = vec![];
    push_padded(&mut v, 7, 0);
    assert_eq!(text(v), "7");
}

#[test]
fn tooltip_is_128_units_and_terminated() {
    let name: Vec<u16> = "Window Switcher".encode_utf16().collect();
    let icon = TrayIcon::create(&name);
    assert_eq!(icon.tooltip.len(), 128);
    assert_eq!(&icon.tooltip[..15], &name[..]);
    assert!(icon.tooltip[15..].iter().all(|u| *u == 0));
    assert_eq!(icon.uid, 6000);
    assert_eq!(icon.callback_message, 6000);
    assert_eq!(icon.flags, 7);
    assert_eq!(icon.hwnd, 0);
    let long: Vec<u16> = vec![0x41; 200];
    let icon = TrayIcon::create(&long);
    assert_eq!(icon.tooltip.len(), 128);
    assert!(icon.tooltip[..127].iter().all(|u| *u == 0x41));
    assert_eq!(icon.tooltip[127], 0);
    let mut icon = TrayIcon::create(&vec![]);
    assert!(icon.tooltip.iter().all(|u| *u == 0));
    icon.register(77);
    assert_eq!(icon.hwnd, 77);
    assert_eq!(icon.tooltip.len(), 128);
}

#[test]
fn pretty_marks() {
    assert_eq!(pretty_bool(true), "*");
    assert_eq!(pretty_bool(false), " ");
    assert_eq!(pretty_cloak(0), ' ');
    assert_eq!(pretty_cloak(1), 'A');
    assert_eq!(pretty_cloak(2), 'S');
    assert_eq!(pretty_cloak(4), 'I');
    assert_eq!(pretty_cloak(3), '?');
}

#[test]
fn startup_init_reads_the_right_source() {
    let path: Vec<u16> = "C:\\ws.exe".encode_utf16().collect();
    let s = Startup::init(true, path.clone(), true, &None);
    assert!(s.is_admin && s.is_enable);
    let s = Startup::init(true, path.clone(), false, &Some(path.clone()));
    assert!(!s.is_enable);
    let s = Startup::init(false, path.clone(), true, &None);
    assert!(!s.is_enable);
    let s = Startup::init(false, path.clone(), false, &Some(path.clone()));
    assert!(s.is_enable);
    assert_eq!(s.exe_path, path);
    let other: Vec<u16> = "C:\\other.exe".encode_utf16().collect();
    let s = Startup::init(false, path.clone(), false, &Some(other.clone()));
    assert!(!s.is_enable);
    assert!(reg_is_enable(&path, &Some(path.clone())));
    assert!(!reg_is_enable(&path, &Some(other.clone())));
    assert!(!reg_is_enable(&path, &None));
    assert!(same_units(&vec![], &vec![]));
    assert!(!same_units(&vec![1], &vec![]));
    assert!(!same_units(&vec![1, 2], &vec![1, 3]));
}

fn startup(is_admin: bool, is_enable: bool) -> Startup {
    Startup { is_admin, is_enable, exe_path: vec![1, 2, 3] }
}

#[test]
fn toggle_elevated() {
    let mut s = startup(true, true);
    assert_eq!(s.toggle(true, true), vec![StartupAction::DeleteTask]);
    assert!(!s.is_enable);
    assert_eq!(s.toggle(true, false), vec![StartupAction::DisableRegistry, StartupAction::CreateTask]);
    assert!(s.is_enable);
    let mut s = startup(true, false);
    assert_eq!(s.toggle(false, true), vec![StartupAction::CreateTask]);
    assert!(s.is_enable);
    assert_eq!(s.exe_path, vec![1, 2, 3]);
}

#[test]
fn toggle_not_elevated() {
    let mut s = startup(false, true);
    assert_eq!(s.toggle(true, true), vec![StartupAction::DisableRegistry]);
    assert!(!s.is_enable);
    assert_eq!(s.toggle(false, false), vec![StartupAction::EnableRegistry]);
    assert!(s.is_enable);
    let mut s = startup(false, false);
    assert_eq!(s.toggle(false, true), vec![StartupAction::AlertConflict]);
    assert!(!s.is_enable);
    assert!(!s.is_admin);
}

#[test]
fn toggle_failed_restores() {
    let mut s = startup(false, false);
    s.toggle(false, false);
    assert!(s.is_enable);
    s.toggle_failed(false);
    assert!(!s.is_enable);
}
