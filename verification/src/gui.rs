//! Small immediate-mode GUI helpers: screen rectangles, colors, click
//! hit-testing, the inspection-panel geometry, and a text box.
//!
//! Screen quantities are in milli-pixels; alpha is in thousandths.

use vstd::prelude::*;

use crate::Fixed2;
use vstd::string::StrSliceExecFns;
use vstd::string::StringExecFns;

verus! {

/// An axis-aligned screen rectangle in milli-pixels. Containment is
/// half-open: the left and top edges are inside, the right and bottom
/// edges are not, so a zero-sized rectangle contains nothing.
#[derive(Clone, Copy, Debug, PartialEq, Eq, Structural)]
pub struct Rect {
    pub x: i64,
    pub y: i64,
    pub w: i64,
    pub h: i64,
}

/// An RGB color with an alpha level in thousandths.
#[derive(Clone, Copy, Debug, PartialEq, Eq, Structural)]
pub struct Color {
    pub r: u8,
    pub g: u8,
    pub b: u8,
    pub a: u16,
}

pub open spec fn rect_contains(r: Rect, p: Fixed2) -> bool {
    &&& r.x <= p.x < r.x + r.w
    &&& r.y <= p.y < r.y + r.h
}

impl Rect {
    pub fn new(x: i64, y: i64, w: i64, h: i64) -> (r: Rect)
        ensures
            r == (Rect { x, y, w, h }),
    {
        Rect { x, y, w, h }
    }

    /// Whether the point lies inside the rectangle.
    pub fn contains(&self, p: Fixed2) -> (b: bool)
        requires
            -0x1000_0000_0000_0000 < self.x + self.w,
            self.x + self.w < 0x1000_0000_0000_0000,
            -0x1000_0000_0000_0000 < self.y + self.h,
            self.y + self.h < 0x1000_0000_0000_0000,
        ensures
            b == rect_contains(*self, p),
    {
        self.x <= p.x && p.x < self.x + self.w && self.y <= p.y && p.y < self.y + self.h
    }
}

/// Where the inspection panel sits for a given screen size: inset 100
/// pixels horizontally and 50 vertically.
pub open spec fn panel_rect_spec(screen_w: i64, screen_h: i64) -> Rect {
    Rect { x: 100_000, y: 50_000, w: (screen_w - 200_000) as i64, h: (screen_h - 100_000) as i64 }
}

/// The screen rectangle the open inspection panel occupies.
pub fn panel_rect(screen_w: i64, screen_h: i64) -> (r: Rect)
    requires
        0 <= screen_w <= 1_000_000_000,
        0 <= screen_h <= 1_000_000_000,
    ensures
        r == panel_rect_spec(screen_w, screen_h),
{
    Rect { x: 100_000, y: 50_000, w: screen_w - 200_000, h: screen_h - 100_000 }
}

/// A left-button release landed inside the rectangle.
pub fn clicked_button(button: Rect, mouse: Fixed2, left_released: bool) -> (b: bool)
    requires
        -0x1000_0000_0000_0000 < button.x + button.w < 0x1000_0000_0000_0000,
        -0x1000_0000_0000_0000 < button.y + button.h < 0x1000_0000_0000_0000,
    ensures
        b == (left_released && rect_contains(button, mouse)),
{
    left_released && button.contains(mouse)
}

/// A simple single-line text box.
pub struct TextBox {
    pub text: String,
    pub color: Color,
    pub rect: Rect,
    pub focused: bool,
}

impl TextBox {
    pub fn new(text: String, rect: Rect, color: Color) -> (r: TextBox)
        ensures
            r.text == text,
            r.rect == rect,
            r.color == color,
            !r.focused,
    {
        TextBox { text, rect, color, focused: false }
    }

    /// An empty, dark-gray text box.
    pub fn empty(rect: Rect) -> (r: TextBox)
        ensures
            r.text@.len() == 0,
            r.rect == rect,
            !r.focused,
    {
        TextBox::new(String::new(), rect, Color { r: 80, g: 80, b: 80, a: 1000 })
    }

    /// One frame of the text box: a click focuses it when it lands
    /// inside (dimming the box) and unfocuses it otherwise; while
    /// focused, typed characters are appended and the box grows 12
    /// pixels per character.
    pub fn update(&mut self, left_released: bool, mouse: Fixed2, typed: &str)
        requires
            old(self).text@.len() + typed@.len() <= 100_000,
            -0x1000_0000_0000_0000 < old(self).rect.x + old(self).rect.w < 0x1000_0000_0000_0000,
            -0x1000_0000_0000_0000 < old(self).rect.y + old(self).rect.h < 0x1000_0000_0000_0000,
        ensures
            final(self).focused == (if left_released {
                rect_contains(old(self).rect, mouse)
            } else {
                old(self).focused
            }),
            final(self).text@ == (if final(self).focused {
                old(self).text@ + typed@
            } else {
                old(self).text@
            }),
            final(self).rect.w == (if final(self).focused {
                12_000 * final(self).text@.len() as int
            } else {
                old(self).rect.w as int
            }),
            final(self).rect.x == old(self).rect.x,
            final(self).rect.y == old(self).rect.y,
            final(self).rect.h == old(self).rect.h,
            final(self).color.a == (if left_released {
                if rect_contains(old(self).rect, mouse) {
                    500
                } else {
                    1000
                }
            } else {
                old(self).color.a
            }),
    {
        if left_released {
            if self.rect.contains(mouse) {
                self.focused = true;
                self.color.a = 500;
            } else {
                self.focused = false;
                self.color.a = 1000;
            }
        }
        if self.focused {
            self.text.append(typed);
            let n = self.text.as_str().unicode_len();
            self.rect.w = (n as i64) * 12_000;
        }
    }
}

} // verus!
