//! The geometry of the application picker: where the overlay stands on the
//! monitor, how large its icons are, and which icon a click has hit. Drawing
//! itself is left to the caller.
use crate::window::Rect;
use vstd::prelude::*;

verus! {

pub const BG_DARK_COLOR: u32 = 0x4c4c4c;

pub const FG_DARK_COLOR: u32 = 0x3b3b3b;

pub const BG_LIGHT_COLOR: u32 = 0xe0e0e0;

pub const FG_LIGHT_COLOR: u32 = 0xf2f2f2;

pub const ALPHA_MASK: u32 = 0xff000000;

/// The largest icon size.
pub const ICON_SIZE: i32 = 64;

/// The padding of the overlay window.
pub const WINDOW_BORDER_SIZE: i32 = 10;

/// The border around each icon.
pub const ICON_BORDER_SIZE: i32 = 4;

/// The factor by which icons are drawn larger before they are scaled down.
pub const SCALE_FACTOR: i32 = 6;

/// Foreground and background colour of a theme.
pub open spec fn spec_theme_color(light_theme: bool) -> (u32, u32) {
    if light_theme {
        (FG_LIGHT_COLOR, BG_LIGHT_COLOR)
    } else {
        (FG_DARK_COLOR, BG_DARK_COLOR)
    }
}

pub fn theme_color(light_theme: bool) -> (r: (u32, u32))
    ensures
        r == spec_theme_color(light_theme),
{
    if light_theme {
        (FG_LIGHT_COLOR, BG_LIGHT_COLOR)
    } else {
        (FG_DARK_COLOR, BG_DARK_COLOR)
    }
}

/// Whether the system uses the light theme, from the value that the system
/// keeps for it; dark where the value cannot be read.
pub fn is_light_theme(system_uses_light_theme: Option<u32>) -> (r: bool)
    ensures
        r == (system_uses_light_theme == Some(1u32)),
{
    match system_uses_light_theme {
        Some(v) => v == 1,
        None => false,
    }
}

/// Division that rounds toward zero, for a positive divisor.
pub open spec fn trunc_div(a: int, b: int) -> int {
    if a >= 0 {
        a / b
    } else {
        -((-a) / b)
    }
}

pub fn div_toward_zero(a: i64, b: i64) -> (r: i64)
    requires
        b > 0,
        a > i64::MIN,
    ensures
        r == trunc_div(a as int, b as int),
        -a <= r <= a || a <= r <= -a,
{
    if a >= 0 {
        let q = a / b;
        proof {
            lemma_quotient_bounds(a as int, b as int);
        }
        q
    } else {
        let q = (-a) / b;
        proof {
            lemma_quotient_bounds(-a as int, b as int);
        }
        -q
    }
}

/// A quotient of a non-negative number by a positive one lies between zero
/// and the number.
pub proof fn lemma_quotient_bounds(a: int, b: int)
    requires
        a >= 0,
        b > 0,
    ensures
        0 <= a / b <= a,
        (a / b) * b <= a,
{
    vstd::arithmetic::div_mod::lemma_div_pos_is_pos(a, b);
    vstd::arithmetic::div_mod::lemma_div_is_ordered_by_denominator(a, 1, b);
    vstd::arithmetic::div_mod::lemma_div_basics(a);
    vstd::arithmetic::div_mod::lemma_fundamental_div_mod(a, b);
    vstd::arithmetic::div_mod::lemma_mod_bound(a, b);
    assert((a / b) * b == b * (a / b)) by (nonlinear_arith);
}

/// Where the overlay stands and how large its parts are.
#[derive(Clone, Copy, Debug, PartialEq, Eq, Structural)]
pub struct Coordinate {
    pub x: i32,
    pub y: i32,
    pub width: i32,
    pub height: i32,
    pub icon_size: i32,
    pub item_size: i32,
}

/// The same, in unbounded integers.
pub struct Layout {
    pub x: int,
    pub y: int,
    pub width: int,
    pub height: int,
    pub icon_size: int,
    pub item_size: int,
}

/// The layout of a picker with `num_apps` icons, centred on the monitor.
/// Icons take the width that the monitor leaves them, up to the largest size.
pub open spec fn spec_layout(num_apps: int, monitor: Rect) -> Layout
    recommends
        num_apps > 0,
{
    let monitor_width = monitor.right - monitor.left;
    let monitor_height = monitor.bottom - monitor.top;
    let free = trunc_div(monitor_width - 2 * WINDOW_BORDER_SIZE, num_apps) - ICON_BORDER_SIZE * 2;
    let icon_size = if free < ICON_SIZE {
        free
    } else {
        ICON_SIZE as int
    };
    let item_size = icon_size + ICON_BORDER_SIZE * 2;
    let width = item_size * num_apps + WINDOW_BORDER_SIZE * 2;
    let height = item_size + WINDOW_BORDER_SIZE * 2;
    Layout {
        x: monitor.left + trunc_div(monitor_width - width, 2),
        y: monitor.top + trunc_div(monitor_height - height, 2),
        width,
        height,
        icon_size,
        item_size,
    }
}

/// Whether a number fits a 32-bit signed integer.
pub open spec fn fits_i32(v: int) -> bool {
    i32::MIN <= v <= i32::MAX
}

/// Whether every part of a layout fits a 32-bit signed integer.
pub open spec fn layout_fits(l: Layout) -> bool {
    fits_i32(l.x) && fits_i32(l.y) && fits_i32(l.width) && fits_i32(l.height) && fits_i32(l.icon_size)
        && fits_i32(l.item_size)
}

impl Coordinate {
    /// The unbounded form.
    pub open spec fn layout(self) -> Layout {
        Layout {
            x: self.x as int,
            y: self.y as int,
            width: self.width as int,
            height: self.height as int,
            icon_size: self.icon_size as int,
            item_size: self.item_size as int,
        }
    }

    /// The layout for `num_apps` icons on a monitor. There is none without
    /// icons, nor where a part of it would not fit a 32-bit integer.
    pub fn new(num_apps: i32, monitor: &Rect) -> (r: Option<Self>)
        ensures
            match r {
                Some(c) => num_apps > 0 && c.layout() == spec_layout(num_apps as int, *monitor),
                None => num_apps <= 0 || !layout_fits(spec_layout(num_apps as int, *monitor)),
            },
    {
        if num_apps <= 0 {
            return None;
        }
        let n: i64 = num_apps as i64;
        let monitor_width: i64 = monitor.right as i64 - monitor.left as i64;
        let monitor_height: i64 = monitor.bottom as i64 - monitor.top as i64;
        let free: i64 = div_toward_zero(monitor_width - 2 * (WINDOW_BORDER_SIZE as i64), n) - (
        ICON_BORDER_SIZE as i64) * 2;
        let icon_size: i64 = if free < ICON_SIZE as i64 {
            free
        } else {
            ICON_SIZE as i64
        };
        let item_size: i64 = icon_size + (ICON_BORDER_SIZE as i64) * 2;
        assert(-0x2_0000_0000 <= item_size <= 72);
        assert(-0x2_0000_0000 * 0x8000_0000 <= item_size * n <= 72 * 0x8000_0000) by (nonlinear_arith)
            requires
                -0x2_0000_0000 <= item_size <= 72,
                0 < n < 0x8000_0000,
        ;
        let wide: i128 = (item_size as i128) * (n as i128) + (WINDOW_BORDER_SIZE as i128) * 2;
        if wide < -0x8000_0000 || wide > 0x7fff_ffff {
            return None;
        }
        let width: i64 = wide as i64;
        let height: i64 = item_size + (WINDOW_BORDER_SIZE as i64) * 2;
        let x: i64 = monitor.left as i64 + div_toward_zero(monitor_width - width, 2);
        let y: i64 = monitor.top as i64 + div_toward_zero(monitor_height - height, 2);
        if fits(x) && fits(y) && fits(width) && fits(height) && fits(icon_size) && fits(item_size) {
            Some(
                Coordinate {
                    x: x as i32,
                    y: y as i32,
                    width: width as i32,
                    height: height as i32,
                    icon_size: icon_size as i32,
                    item_size: item_size as i32,
                },
            )
        } else {
            None
        }
    }
}

/// Whether a number fits a 32-bit signed integer.
pub fn fits(v: i64) -> (r: bool)
    ensures
        r == fits_i32(v as int),
{
    -0x8000_0000 <= v && v <= 0x7fff_ffff
}

/// Whether the cursor stands on the icon at `index` of a picker laid out as `c`.
pub open spec fn icon_hit(c: Coordinate, cursor_x: i32, cursor_y: i32, index: int) -> bool {
    let xpos = cursor_x - c.x;
    let ypos = cursor_y - c.y;
    let cx = WINDOW_BORDER_SIZE + c.item_size * index;
    let cy = WINDOW_BORDER_SIZE as int;
    xpos >= cx && xpos < cx + c.item_size && ypos >= cy && ypos < cy + c.item_size
}

/// The first icon that the cursor stands on, among `num_apps` icons laid out
/// as `c`.
pub fn find_clicked_app_index(num_apps: usize, c: &Coordinate, cursor_x: i32, cursor_y: i32) -> (r:
    Option<usize>)
    ensures
        match r {
            Some(i) => i < num_apps && icon_hit(*c, cursor_x, cursor_y, i as int) && forall|j: int|
                0 <= j < i ==> !icon_hit(*c, cursor_x, cursor_y, j),
            None => forall|j: int| 0 <= j < num_apps ==> !icon_hit(*c, cursor_x, cursor_y, j),
        },
{
    let xpos: i128 = cursor_x as i128 - c.x as i128;
    let ypos: i128 = cursor_y as i128 - c.y as i128;
    let item: i128 = c.item_size as i128;
    let cy: i128 = WINDOW_BORDER_SIZE as i128;
    let mut i: usize = 0;
    while i < num_apps
        invariant
            0 <= i <= num_apps,
            xpos == cursor_x - c.x,
            ypos == cursor_y - c.y,
            item == c.item_size,
            cy == WINDOW_BORDER_SIZE,
            forall|j: int| 0 <= j < i ==> !icon_hit(*c, cursor_x, cursor_y, j),
        decreases num_apps - i,
    {
        assert(-0x8000_0000 * 0x1_0000_0000_0000_0000 <= item * (i as i128) <= 0x8000_0000
            * 0x1_0000_0000_0000_0000) by (nonlinear_arith)
            requires
                -0x8000_0000 <= item < 0x8000_0000,
                0 <= i < 0x1_0000_0000_0000_0000,
        ;
        let cx: i128 = (WINDOW_BORDER_SIZE as i128) + item * (i as i128);
        if xpos >= cx && xpos < cx + item && ypos >= cy && ypos < cy + item {
            return Some(i);
        }
        i += 1;
    }
    None
}

/// The sizes at which the icon strip is drawn before it is scaled down.
#[derive(Clone, Copy, Debug, PartialEq, Eq, Structural)]
pub struct ScaledLayout {
    pub scaled_width: i32,
    pub scaled_height: i32,
    pub scaled_corner_radius: i32,
    pub scaled_border_size: i32,
    pub scaled_icon_inner_size: i32,
    pub scaled_icon_outer_size: i32,
}

impl ScaledLayout {
    /// The scaled sizes of a strip of the given size; none where one of them
    /// would not fit a 32-bit integer.
    pub fn new(icon_size: i32, width: i32, height: i32, corner_radius: i32) -> (r: Option<Self>)
        ensures
            match r {
                Some(s) => s.scaled_width == width * SCALE_FACTOR && s.scaled_height == height
                    * SCALE_FACTOR && s.scaled_corner_radius == corner_radius * SCALE_FACTOR
                    && s.scaled_border_size == ICON_BORDER_SIZE * SCALE_FACTOR
                    && s.scaled_icon_inner_size == icon_size * SCALE_FACTOR
                    && s.scaled_icon_outer_size == icon_size * SCALE_FACTOR + ICON_BORDER_SIZE
                    * SCALE_FACTOR * 2,
                None => !fits_i32(width * SCALE_FACTOR) || !fits_i32(height * SCALE_FACTOR) || !fits_i32(
                    corner_radius * SCALE_FACTOR,
                ) || !fits_i32(icon_size * SCALE_FACTOR) || !fits_i32(
                    icon_size * SCALE_FACTOR + ICON_BORDER_SIZE * SCALE_FACTOR * 2,
                ),
            },
    {
        let factor: i64 = SCALE_FACTOR as i64;
        let scaled_width: i64 = width as i64 * factor;
        let scaled_height: i64 = height as i64 * factor;
        let scaled_corner_radius: i64 = corner_radius as i64 * factor;
        let scaled_border_size: i64 = ICON_BORDER_SIZE as i64 * factor;
        let scaled_icon_inner_size: i64 = icon_size as i64 * factor;
        let scaled_icon_outer_size: i64 = scaled_icon_inner_size + scaled_border_size * 2;
        if fits(scaled_width) && fits(scaled_height) && fits(scaled_corner_radius) && fits(
            scaled_icon_inner_size,
        ) && fits(scaled_icon_outer_size) {
            Some(
                ScaledLayout {
                    scaled_width: scaled_width as i32,
                    scaled_height: scaled_height as i32,
                    scaled_corner_radius: scaled_corner_radius as i32,
                    scaled_border_size: scaled_border_size as i32,
                    scaled_icon_inner_size: scaled_icon_inner_size as i32,
                    scaled_icon_outer_size: scaled_icon_outer_size as i32,
                },
            )
        } else {
            None
        }
    }

    /// The left edge of the box of the icon at `index`, and the left edge of
    /// the icon itself, in the scaled strip.
    pub fn icon_left(&self, index: usize) -> (r: Option<(i32, i32)>)
        ensures
            match r {
                Some(edges) => edges.0 == self.scaled_icon_outer_size * index && edges.1
                    == self.scaled_border_size + self.scaled_icon_outer_size * index,
                None => !fits_i32(self.scaled_icon_outer_size * index) || !fits_i32(
                    self.scaled_border_size + self.scaled_icon_outer_size * index,
                ),
            },
    {
        assert(-0x8000_0000 * 0x1_0000_0000_0000_0000 <= (self.scaled_icon_outer_size as i128) * (
        index as i128) <= 0x8000_0000 * 0x1_0000_0000_0000_0000) by (nonlinear_arith)
            requires
                -0x8000_0000 <= self.scaled_icon_outer_size < 0x8000_0000,
                0 <= index < 0x1_0000_0000_0000_0000,
        ;
        let left: i128 = (self.scaled_icon_outer_size as i128) * (index as i128);
        let icon: i128 = self.scaled_border_size as i128 + left;
        if -0x8000_0000 <= left && left <= 0x7fff_ffff && -0x8000_0000 <= icon && icon <= 0x7fff_ffff {
            Some((left as i32, icon as i32))
        } else {
            None
        }
    }
}

/// The painter's state: the theme, the layout prepared last, and whether the
/// overlay is shown.
pub struct GdiAAPainter {
    pub rounded_corner: bool,
    pub light: bool,
    pub show: bool,
    pub x: i32,
    pub y: i32,
    pub width: i32,
    pub height: i32,
    pub corner_radius: i32,
    pub icon_size: i32,
}

impl GdiAAPainter {
    /// A painter that has prepared nothing and shows nothing.
    pub fn new(rounded_corner: bool, light: bool) -> (r: Self)
        ensures
            r.rounded_corner == rounded_corner,
            r.light == light,
            !r.show,
            r.x == 0 && r.y == 0 && r.width == 0 && r.height == 0 && r.corner_radius == 0
                && r.icon_size == 0,
    {
        GdiAAPainter {
            rounded_corner,
            light,
            show: false,
            x: 0,
            y: 0,
            width: 0,
            height: 0,
            corner_radius: 0,
            icon_size: 0,
        }
    }

    /// The icon size prepared last.
    pub fn icon_size(&self) -> (r: i32)
        ensures
            r == self.icon_size,
    {
        self.icon_size
    }

    /// Foreground and background colour.
    pub fn colors(&self) -> (r: (u32, u32))
        ensures
            r == spec_theme_color(self.light),
    {
        theme_color(self.light)
    }

    /// Lays the overlay out for `num_apps` icons on a monitor. Returns whether
    /// there is such a layout; if not, the painter is as it was. Corners are
    /// rounded by a quarter of an item where the painter rounds them.
    pub fn prepare(&mut self, num_apps: i32, monitor: &Rect) -> (done: bool)
        ensures
            done == (num_apps > 0 && layout_fits(spec_layout(num_apps as int, *monitor))),
            !done ==> *final(self) == *old(self),
            done ==> final(self).x == spec_layout(num_apps as int, *monitor).x && final(self).y
                == spec_layout(num_apps as int, *monitor).y && final(self).width == spec_layout(
                num_apps as int,
                *monitor,
            ).width && final(self).height == spec_layout(num_apps as int, *monitor).height
                && final(self).icon_size == spec_layout(num_apps as int, *monitor).icon_size
                && final(self).corner_radius == if old(self).rounded_corner {
                trunc_div(spec_layout(num_apps as int, *monitor).item_size, 4)
            } else {
                0
            } && final(self).rounded_corner == old(self).rounded_corner && final(self).light == old(
                self,
            ).light && final(self).show == old(self).show,
    {
        match Coordinate::new(num_apps, monitor) {
            Some(c) => {
                self.x = c.x;
                self.y = c.y;
                self.width = c.width;
                self.height = c.height;
                self.icon_size = c.icon_size;
                self.corner_radius = if self.rounded_corner {
                    div_toward_zero(c.item_size as i64, 4) as i32
                } else {
                    0
                };
                true
            },
            None => false,
        }
    }

    /// The overlay was painted. Returns whether its window has to be shown
    /// now: it was hidden before.
    pub fn painted(&mut self) -> (show_now: bool)
        ensures
            show_now == !old(self).show,
            final(self).show,
            final(self).rounded_corner == old(self).rounded_corner,
            final(self).light == old(self).light,
            final(self).x == old(self).x && final(self).y == old(self).y && final(self).width == old(
                self,
            ).width && final(self).height == old(self).height && final(self).corner_radius == old(
                self,
            ).corner_radius && final(self).icon_size == old(self).icon_size,
    {
        let show_now = !self.show;
        self.show = true;
        show_now
    }

    /// The overlay was hidden.
    pub fn unpaint(&mut self)
        ensures
            !final(self).show,
            final(self).rounded_corner == old(self).rounded_corner,
            final(self).light == old(self).light,
            final(self).x == old(self).x && final(self).y == old(self).y && final(self).width == old(
                self,
            ).width && final(self).height == old(self).height && final(self).corner_radius == old(
                self,
            ).corner_radius && final(self).icon_size == old(self).icon_size,
    {
        self.show = false;
    }
}

} // verus!
