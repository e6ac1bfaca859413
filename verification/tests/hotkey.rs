use window_switcher::config::{ConfigError, Hotkey};

#[test]
fn test_hotkey() {
    assert_eq!(Hotkey::parse("alt + `"), Some(([0x38, 0x38], 0x29)));
    assert_eq!(Hotkey::parse("alt + tab"), Some(([0x38, 0x38], 0x0f)));
}

#[test]
fn parse_reads_modifiers() {
    assert_eq!(Hotkey::parse("win+q"), Some(([0x5b, 0x5c], 0x10)));
    assert_eq!(Hotkey::parse("ctrl+f12"), Some(([0x1d, 0x1d], 0x58)));
    assert_eq!(Hotkey::parse("shift+q"), None);
}

#[test]
fn parse_ignores_case_spaces_and_vk_prefix() {
    assert_eq!(Hotkey::parse("  ALT +  VK_TAB "), Some(([0x38, 0x38], 0x0f)));
    assert_eq!(Hotkey::parse("Alt+VK_OEM_3"), Some(([0x38, 0x38], 0x29)));
    assert_eq!(Hotkey::parse("a l t + e s c"), Some(([0x38, 0x38], 0x01)));
}

#[test]
fn parse_wants_exactly_one_plus() {
    assert_eq!(Hotkey::parse("alt"), None);
    assert_eq!(Hotkey::parse("alt+"), None);
    assert_eq!(Hotkey::parse("alt++"), None);
    assert_eq!(Hotkey::parse("alt+ctrl+q"), None);
    assert_eq!(Hotkey::parse(""), None);
    assert_eq!(Hotkey::parse("+"), None);
}

#[test]
fn parse_knows_the_key_names() {
    assert_eq!(Hotkey::parse("alt+escape"), Some(([0x38, 0x38], 0x01)));
    assert_eq!(Hotkey::parse("alt+oem_plus"), Some(([0x38, 0x38], 0x0d)));
    assert_eq!(Hotkey::parse("alt+="), Some(([0x38, 0x38], 0x0d)));
    assert_eq!(Hotkey::parse("alt+\\"), Some(([0x38, 0x38], 0x2b)));
    assert_eq!(Hotkey::parse("alt+\""), Some(([0x38, 0x38], 0x28)));
    assert_eq!(Hotkey::parse("alt+space"), Some(([0x38, 0x38], 0x39)));
    assert_eq!(Hotkey::parse("alt+menu"), Some(([0x38, 0x38], 0x5d)));
    assert_eq!(Hotkey::parse("alt+oem_102"), Some(([0x38, 0x38], 0x56)));
    assert_eq!(Hotkey::parse("alt+f13"), None);
    assert_eq!(Hotkey::parse("alt+_"), Some(([0x38, 0x38], 0x0c)));
}

#[test]
fn parse_strips_vk_wherever_it_stands() {
    // "vk_" inside a name goes too: "pagevk_up" reads as "pageup".
    assert_eq!(Hotkey::parse("alt+pagevk_up"), Some(([0x38, 0x38], 0x49)));
    assert_eq!(Hotkey::parse("vk_alt+q"), Some(([0x38, 0x38], 0x10)));
}

#[test]
fn create_builds_the_binding() {
    let hotkey = Hotkey::create(2, "switch apps", "alt + tab").unwrap();
    assert_eq!(hotkey.id, 2);
    assert_eq!(hotkey.name, "switch apps");
    assert_eq!(hotkey.modifier, [0x38, 0x38]);
    assert_eq!(hotkey.code, 0x0f);
    assert_eq!(hotkey.get_modifier(), 0x38);
    assert!(hotkey.is_modifier(0x38));
    assert!(!hotkey.is_modifier(0x0f));
}

#[test]
fn get_modifier_is_the_left_key() {
    let hotkey = Hotkey::create(1, "w", "win+q").unwrap();
    assert_eq!(hotkey.get_modifier(), 0x5b);
    assert!(hotkey.is_modifier(0x5c));
}

#[test]
fn create_refuses_what_parse_refuses() {
    match Hotkey::create(1, "switch windows", "super + tab") {
        Err(ConfigError::InvalidHotkey { name }) => {
            assert_eq!(name, "switch windows");
        }
        Ok(_) => panic!("accepted"),
    }
    let err = Hotkey::create(1, "switch windows", "alt").unwrap_err();
    assert_eq!(err.message(), "Invalid switch windows hotkey");
}

#[test]
fn clone_keeps_the_binding() {
    let hotkey = Hotkey::create(7, "x", "ctrl+x").unwrap();
    let copy = hotkey.clone();
    assert_eq!(copy.id, 7);
    assert_eq!(copy.name, "x");
    assert_eq!(copy.modifier, [0x1d, 0x1d]);
    assert_eq!(copy.code, 0x2d);
}
