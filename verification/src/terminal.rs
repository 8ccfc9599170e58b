//! Where the window of the system's terminal goes.

use crate::numbers::{signed_decimal, signed_decimal_text};
use vstd::prelude::*;

verus! {

/// A rectangle on the screen, in physical pixels; the origin is at the top left.
#[derive(Debug, Clone, Copy, PartialEq, Eq, Structural)]
pub struct Rect {
    pub x: i64,
    pub y: i64,
    pub w: i64,
    pub h: i64,
}

/// The lesser of two numbers.
pub open spec fn lesser(a: int, b: int) -> int {
    if a <= b {
        a
    } else {
        b
    }
}

/// The greater of two numbers.
pub open spec fn greater(a: int, b: int) -> int {
    if a >= b {
        a
    } else {
        b
    }
}

/// The height of the terminal: the room between the window and the bottom of the screen, but at
/// least `min_height`, and at most `max_height`.
pub open spec fn terminal_height(
    window: Rect,
    screen: Rect,
    gap: int,
    max_height: int,
    min_height: int,
) -> int {
    let room = screen.y + screen.h - (window.y + window.h + gap);
    lesser(max_height, greater(room, min_height))
}

/// The top of the terminal: `gap` below the window, or higher where it would reach below the
/// screen; but not above the screen, if the screen is high enough for it.
pub open spec fn terminal_top(
    window: Rect,
    screen: Rect,
    gap: int,
    max_height: int,
    min_height: int,
) -> int {
    let height = terminal_height(window, screen, gap, max_height, min_height);
    let raised = lesser(window.y + window.h + gap, screen.y + screen.h - height);
    if height <= screen.h {
        greater(screen.y as int, raised)
    } else {
        raised
    }
}

/// The width of the terminal: that of the window, but no more than the screen's.
pub open spec fn terminal_width(window: Rect, screen: Rect) -> int {
    lesser(window.w as int, screen.w as int)
}

/// The left edge of the terminal: that of the window, moved into the screen where need be.
pub open spec fn terminal_left(window: Rect, screen: Rect) -> int {
    greater(
        screen.x as int,
        lesser(window.x as int, screen.x + screen.w - terminal_width(window, screen)),
    )
}

/// Whether `v` is the value of an `i64`.
pub open spec fn fits(v: int) -> bool {
    i64::MIN <= v <= i64::MAX
}

/// Places the terminal below the window: as wide as it, `gap` away from it, and within the
/// screen, which may bring it nearer or over the window. Only a terminal that is higher than the
/// screen reaches beyond it, at the top.
pub fn terminal_bounds(
    window: Rect,
    screen: Rect,
    gap: i64,
    max_height: i64,
    min_height: i64,
) -> (r: Rect)
    requires
        fits(terminal_top(window, screen, gap as int, max_height as int, min_height as int)),
    ensures
        r.x == terminal_left(window, screen),
        r.y == terminal_top(window, screen, gap as int, max_height as int, min_height as int),
        r.w == terminal_width(window, screen),
        r.h == terminal_height(window, screen, gap as int, max_height as int, min_height as int),
{
    let desired_y: i128 = window.y as i128 + window.h as i128 + gap as i128;
    let screen_bottom: i128 = screen.y as i128 + screen.h as i128;
    let room: i128 = screen_bottom - desired_y;
    let wanted: i128 = if room >= min_height as i128 {
        room
    } else {
        min_height as i128
    };
    let height: i128 = if max_height as i128 <= wanted {
        max_height as i128
    } else {
        wanted
    };
    let lowest: i128 = screen_bottom - height;
    let raised: i128 = if desired_y <= lowest {
        desired_y
    } else {
        lowest
    };
    let y: i128 = if height <= screen.h as i128 && screen.y as i128 >= raised {
        screen.y as i128
    } else {
        raised
    };
    let width: i64 = if window.w <= screen.w {
        window.w
    } else {
        screen.w
    };
    let rightmost: i128 = screen.x as i128 + screen.w as i128 - width as i128;
    let capped: i128 = if window.x as i128 <= rightmost {
        window.x as i128
    } else {
        rightmost
    };
    let x: i128 = if screen.x as i128 >= capped {
        screen.x as i128
    } else {
        capped
    };
    Rect { x: x as i64, y: y as i64, w: width, h: height as i64 }
}

/// How far the terminal is below the window, in pixels.
pub const TERMINAL_GAP: i64 = 8;

/// The greatest height of the terminal.
pub const TERMINAL_MAX_HEIGHT: i64 = 480;

/// The least height of the terminal.
pub const TERMINAL_MIN_HEIGHT: i64 = 120;

/// Whether `r` has the position and the size of something that a window system places.
pub open spec fn is_placed(r: Rect) -> bool {
    &&& i32::MIN <= r.x <= i32::MAX
    &&& i32::MIN <= r.y <= i32::MAX
    &&& 0 <= r.w <= u32::MAX
    &&& 0 <= r.h <= u32::MAX
}

/// The rectangle of a window or a monitor.
pub fn placed(x: i32, y: i32, width: u32, height: u32) -> (r: Rect)
    ensures
        is_placed(r),
        r == (Rect { x: x as i64, y: y as i64, w: width as i64, h: height as i64 }),
{
    Rect { x: x as i64, y: y as i64, w: width as i64, h: height as i64 }
}

/// Where the terminal goes that belongs to `window`; the window itself stands for the screen
/// where the monitor is not known.
pub fn terminal_for(window: Rect, monitor: Option<Rect>) -> (r: Rect)
    requires
        is_placed(window),
        monitor matches Some(m) ==> is_placed(m),
    ensures
        ({
            let screen = match monitor {
                Some(m) => m,
                None => window,
            };
            &&& r.x == terminal_left(window, screen)
            &&& r.y == terminal_top(
                window,
                screen,
                TERMINAL_GAP as int,
                TERMINAL_MAX_HEIGHT as int,
                TERMINAL_MIN_HEIGHT as int,
            )
            &&& r.w == terminal_width(window, screen)
            &&& r.h == terminal_height(
                window,
                screen,
                TERMINAL_GAP as int,
                TERMINAL_MAX_HEIGHT as int,
                TERMINAL_MIN_HEIGHT as int,
            )
        }),
{
    let screen: Rect = match monitor {
        Some(m) => m,
        None => window,
    };
    terminal_bounds(window, screen, TERMINAL_GAP, TERMINAL_MAX_HEIGHT, TERMINAL_MIN_HEIGHT)
}

/// The terminal lies within the screen, wherever the window is: always at the sides and at the
/// bottom, and at the top too where the screen is as high as the terminal, which it is where it
/// is as high as the terminal may become.
pub proof fn terminal_lies_within_the_screen(
    window: Rect,
    screen: Rect,
    gap: int,
    max_height: int,
    min_height: int,
)
    ensures
        ({
            let x = terminal_left(window, screen);
            let y = terminal_top(window, screen, gap, max_height, min_height);
            let w = terminal_width(window, screen);
            let h = terminal_height(window, screen, gap, max_height, min_height);
            &&& screen.x <= x
            &&& x + w <= screen.x + screen.w
            &&& y + h <= screen.y + screen.h
            &&& h <= screen.h ==> screen.y <= y
            &&& max_height <= screen.h ==> h <= screen.h
        }),
{
}

/// The terminal is right below the window where there is room for it, or at the top of the screen
/// if the window ends above that and the screen is high enough, and its height keeps to the
/// limits.
pub proof fn terminal_keeps_to_the_limits(
    window: Rect,
    screen: Rect,
    gap: int,
    max_height: int,
    min_height: int,
)
    requires
        min_height <= max_height,
    ensures
        ({
            let y = terminal_top(window, screen, gap, max_height, min_height);
            let h = terminal_height(window, screen, gap, max_height, min_height);
            let room = screen.y + screen.h - (window.y + window.h + gap);
            &&& min_height <= h <= max_height
            &&& room >= min_height ==> {
                &&& y == if h <= screen.h {
                    greater(screen.y as int, window.y + window.h + gap)
                } else {
                    window.y + window.h + gap
                }
                &&& h <= room
            }
        }),
{
}

/// `v`, or the nearest value of an `i32`.
pub open spec fn nearest_i32(v: int) -> int {
    greater(i32::MIN as int, lesser(i32::MAX as int, v))
}

/// `v`, or the nearest value of an `i32`.
fn to_i32(v: i128) -> (r: i32)
    ensures
        r == nearest_i32(v as int),
{
    if v < i32::MIN as i128 {
        i32::MIN
    } else if v > i32::MAX as i128 {
        i32::MAX
    } else {
        v as i32
    }
}

/// The script that opens a terminal window at `bounds`: it gives the left, top, right and bottom
/// edges.
pub open spec fn terminal_script_text(bounds: Rect) -> Seq<char> {
    "tell application \"Terminal\"\n  activate\n  do script \"\"\n  set bounds of front window to {"@
        + signed_decimal(nearest_i32(bounds.x as int)) + ", "@ + signed_decimal(
        nearest_i32(bounds.y as int),
    ) + ", "@ + signed_decimal(nearest_i32(bounds.x + bounds.w)) + ", "@ + signed_decimal(
        nearest_i32(bounds.y + bounds.h),
    ) + "}\nend tell"@
}

/// The script that opens a terminal window at `bounds`.
pub fn terminal_script(bounds: Rect) -> (r: String)
    ensures
        r@ == terminal_script_text(bounds),
{
    let right: i128 = bounds.x as i128 + bounds.w as i128;
    let bottom: i128 = bounds.y as i128 + bounds.h as i128;
    let mut r: String =
        "tell application \"Terminal\"\n  activate\n  do script \"\"\n  set bounds of front window to {".to_owned();
    r.append(signed_decimal_text(to_i32(bounds.x as i128)).as_str());
    r.append(", ");
    r.append(signed_decimal_text(to_i32(bounds.y as i128)).as_str());
    r.append(", ");
    r.append(signed_decimal_text(to_i32(right)).as_str());
    r.append(", ");
    r.append(signed_decimal_text(to_i32(bottom)).as_str());
    r.append("}\nend tell");
    r
}

/// The terminal has the width of the window, or that of the screen if the window is wider; and it
/// stands where the window stands, or at the side of the screen beyond which it would reach.
pub proof fn terminal_stands_as_the_window_stands(window: Rect, screen: Rect)
    ensures
        window.w <= screen.w ==> terminal_width(window, screen) == window.w,
        window.w > screen.w ==> terminal_width(window, screen) == screen.w,
        screen.x <= window.x && window.x + window.w <= screen.x + screen.w ==> terminal_left(
            window,
            screen,
        ) == window.x,
        window.x < screen.x ==> terminal_left(window, screen) == screen.x,
        window.x >= screen.x && window.w <= screen.w && window.x + window.w > screen.x + screen.w
            ==> terminal_left(window, screen) == screen.x + screen.w - window.w,
        window.w > screen.w ==> terminal_left(window, screen) == screen.x,
{
}

/// The terminal is as high as there is room below the window, within the limits.
pub proof fn terminal_fills_the_room(
    window: Rect,
    screen: Rect,
    gap: int,
    max_height: int,
    min_height: int,
    room: int,
)
    requires
        room == screen.y + screen.h - (window.y + window.h + gap),
    ensures
        min_height <= room <= max_height ==> terminal_height(
            window,
            screen,
            gap,
            max_height,
            min_height,
        ) == room,
        room >= max_height ==> terminal_height(window, screen, gap, max_height, min_height)
            == max_height,
        room <= min_height <= max_height ==> terminal_height(
            window,
            screen,
            gap,
            max_height,
            min_height,
        ) == min_height,
        min_height >= max_height ==> terminal_height(window, screen, gap, max_height, min_height)
            == max_height,
{
}

/// The terminal begins right below the window where it then ends on the screen, and ends with the
/// screen otherwise; only where the window ends above a screen that is high enough does it begin
/// with the screen.
pub proof fn terminal_begins_below_the_window(
    window: Rect,
    screen: Rect,
    gap: int,
    max_height: int,
    min_height: int,
    below: int,
    height: int,
)
    requires
        below == window.y + window.h + gap,
        height == terminal_height(window, screen, gap, max_height, min_height),
    ensures
        below + height > screen.y + screen.h ==> terminal_top(
            window,
            screen,
            gap,
            max_height,
            min_height,
        ) + height == screen.y + screen.h,
        below + height <= screen.y + screen.h && (below >= screen.y || height > screen.h)
            ==> terminal_top(window, screen, gap, max_height, min_height) == below,
        below < screen.y && height <= screen.h ==> terminal_top(
            window,
            screen,
            gap,
            max_height,
            min_height,
        ) == screen.y,
{
}

/// The script gives the four edges of the terminal, each as it is or as near to it as the script
/// can say.
pub proof fn script_gives_the_edges(bounds: Rect, v: int)
    ensures
        i32::MIN <= v <= i32::MAX ==> nearest_i32(v) == v,
        v < i32::MIN ==> nearest_i32(v) == i32::MIN,
        v > i32::MAX ==> nearest_i32(v) == i32::MAX,
        terminal_script_text(bounds)
            == "tell application \"Terminal\"\n  activate\n  do script \"\"\n  set bounds of front window to {"@
            + signed_decimal(nearest_i32(bounds.x as int)) + ", "@ + signed_decimal(
            nearest_i32(bounds.y as int),
        ) + ", "@ + signed_decimal(nearest_i32(bounds.x + bounds.w)) + ", "@ + signed_decimal(
            nearest_i32(bounds.y + bounds.h),
        ) + "}\nend tell"@,
{
}

} // verus!
