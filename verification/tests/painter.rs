use window_switcher::painter::{
    div_toward_zero, find_clicked_app_index, is_light_theme, theme_color, Coordinate,
    GdiAAPainter, ScaledLayout,
};
use window_switcher::window::Rect;

const FULL_HD: Rect = Rect { left: 0, top: 0, right: 1920, bottom: 1080 };

#[test]
fn theme_colors() {
    assert_eq!(theme_color(true), (0xf2f2f2, 0xe0e0e0));
    assert_eq!(theme_color(false), (0x3b3b3b, 0x4c4c4c));
}

#[test]
fn light_theme_is_value_one() {
    assert!(is_light_theme(Some(1)));
    assert!(!is_light_theme(Some(0)));
    assert!(!is_light_theme(Some(2)));
    assert!(!is_light_theme(None));
}

#[test]
fn division_rounds_toward_zero() {
    assert_eq!(div_toward_zero(7, 2), 3);
    assert_eq!(div_toward_zero(-7, 2), -3);
    assert_eq!(div_toward_zero(-1, 2), 0);
    assert_eq!(div_toward_zero(0, 5), 0);
    assert_eq!(div_toward_zero(-8, 4), -2);
}

#[test]
fn layout_of_few_icons_is_centred() {
    let c = Coordinate::new(3, &FULL_HD).unwrap();
    assert_eq!(c.icon_size, 64);
    assert_eq!(c.item_size, 72);
    assert_eq!(c.width, 236);
    assert_eq!(c.height, 92);
    assert_eq!(c.x, 842);
    assert_eq!(c.y, 494);
}

#[test]
fn layout_of_many_icons_shrinks_them() {
    let c = Coordinate::new(40, &FULL_HD).unwrap();
    // (1920 - 20) / 40 - 8 = 39
    assert_eq!(c.icon_size, 39);
    assert_eq!(c.item_size, 47);
    assert_eq!(c.width, 1900);
    assert_eq!(c.height, 67);
    assert_eq!(c.x, 10);
    assert_eq!(c.y, 506);
}

#[test]
fn layout_on_an_offset_monitor() {
    let monitor = Rect { left: -1280, top: 100, right: 0, bottom: 1124 };
    let c = Coordinate::new(1, &monitor).unwrap();
    assert_eq!(c.icon_size, 64);
    assert_eq!(c.width, 92);
    assert_eq!(c.height, 92);
    assert_eq!(c.x, -1280 + (1280 - 92) / 2);
    assert_eq!(c.y, 100 + (1024 - 92) / 2);
}

#[test]
fn layout_wider_than_the_monitor_hangs_over() {
    let monitor = Rect { left: 0, top: 0, right: 100, bottom: 100 };
    let c = Coordinate::new(20, &monitor).unwrap();
    // 80 / 20 - 8 = -4
    assert_eq!(c.icon_size, -4);
    assert_eq!(c.item_size, 4);
    assert_eq!(c.width, 100);
    assert_eq!(c.height, 24);
    assert_eq!(c.x, 0);
    assert_eq!(c.y, 38);
    let c = Coordinate::new(7, &monitor).unwrap();
    // 80 / 7 - 8 = 3; width 7 * 11 + 20 = 97; (100 - 97) / 2 = 1
    assert_eq!(c.icon_size, 3);
    assert_eq!(c.width, 97);
    assert_eq!(c.x, 1);
    let tiny = Rect { left: 0, top: 0, right: 10, bottom: 10 };
    let c = Coordinate::new(3, &tiny).unwrap();
    // (10 - 20) / 3 rounds toward zero: -3; icon -11; item -3; width 11; x = (10 - 11) / 2 = 0
    assert_eq!(c.icon_size, -11);
    assert_eq!(c.item_size, -3);
    assert_eq!(c.width, 11);
    assert_eq!(c.x, 0);
    assert_eq!(c.height, 17);
    assert_eq!(c.y, -3);
}

#[test]
fn no_layout_without_icons_or_beyond_range() {
    assert_eq!(Coordinate::new(0, &FULL_HD), None);
    assert_eq!(Coordinate::new(-3, &FULL_HD), None);
    let huge = Rect { left: i32::MIN, top: 0, right: i32::MAX, bottom: 10 };
    assert_eq!(Coordinate::new(i32::MAX, &huge), None);
    let far = Rect { left: i32::MAX - 10, top: 0, right: i32::MIN, bottom: 10 };
    assert_eq!(Coordinate::new(1, &far), None);
}

#[test]
fn click_finds_its_icon() {
    let c = Coordinate::new(3, &FULL_HD).unwrap();
    // icons start at x + 10 and are 72 wide; rows from y + 10 to y + 82
    assert_eq!(find_clicked_app_index(3, &c, 842 + 10, 494 + 10), Some(0));
    assert_eq!(find_clicked_app_index(3, &c, 842 + 81, 494 + 81), Some(0));
    assert_eq!(find_clicked_app_index(3, &c, 842 + 82, 494 + 10), Some(1));
    assert_eq!(find_clicked_app_index(3, &c, 842 + 10 + 215, 494 + 50), Some(2));
    assert_eq!(find_clicked_app_index(3, &c, 842 + 10 + 216, 494 + 50), None);
    assert_eq!(find_clicked_app_index(3, &c, 842 + 9, 494 + 50), None);
    assert_eq!(find_clicked_app_index(3, &c, 842 + 50, 494 + 9), None);
    assert_eq!(find_clicked_app_index(3, &c, 842 + 50, 494 + 82), None);
    assert_eq!(find_clicked_app_index(2, &c, 842 + 10 + 200, 494 + 50), None);
    assert_eq!(find_clicked_app_index(0, &c, 842 + 10, 494 + 10), None);
    assert_eq!(find_clicked_app_index(3, &c, i32::MIN, i32::MAX), None);
}

#[test]
fn scaled_layout_is_six_times() {
    let s = ScaledLayout::new(64, 216, 72, 18).unwrap();
    assert_eq!(s.scaled_width, 1296);
    assert_eq!(s.scaled_height, 432);
    assert_eq!(s.scaled_corner_radius, 108);
    assert_eq!(s.scaled_border_size, 24);
    assert_eq!(s.scaled_icon_inner_size, 384);
    assert_eq!(s.scaled_icon_outer_size, 432);
    assert_eq!(s.icon_left(0), Some((0, 24)));
    assert_eq!(s.icon_left(2), Some((864, 888)));
    assert_eq!(s.icon_left(usize::MAX), None);
    assert_eq!(ScaledLayout::new(64, i32::MAX, 72, 18), None);
    assert_eq!(ScaledLayout::new(i32::MAX / 6, 1, 1, 1), None);
}

#[test]
fn painter_prepares_and_remembers() {
    let mut p = GdiAAPainter::new(true, false);
    assert_eq!(p.icon_size(), 0);
    assert_eq!(p.colors(), (0x3b3b3b, 0x4c4c4c));
    assert!(p.prepare(3, &FULL_HD));
    assert_eq!(p.icon_size(), 64);
    assert_eq!((p.x, p.y, p.width, p.height), (842, 494, 236, 92));
    assert_eq!(p.corner_radius, 18);
    assert!(!p.prepare(0, &FULL_HD));
    assert_eq!(p.icon_size(), 64);
    assert_eq!(p.width, 236);
    let mut square = GdiAAPainter::new(false, true);
    assert!(square.prepare(3, &FULL_HD));
    assert_eq!(square.corner_radius, 0);
    assert_eq!(square.colors(), (0xf2f2f2, 0xe0e0e0));
}

#[test]
fn painter_shows_once() {
    let mut p = GdiAAPainter::new(true, false);
    assert!(p.painted());
    assert!(!p.painted());
    assert!(p.show);
    p.unpaint();
    assert!(!p.show);
    assert!(p.painted());
}
