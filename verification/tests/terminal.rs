use dsh_ui::terminal::{placed, terminal_bounds, terminal_for, terminal_script, Rect};

const SCREEN: Rect = Rect { x: 0, y: 0, w: 1440, h: 900 };

#[test]
fn terminal_sits_below_window_with_max_height_when_space_allows() {
    let window = Rect { x: 100, y: 50, w: 1200, h: 300 };
    let bounds = terminal_bounds(window, SCREEN, 8, 480, 120);
    assert_eq!(
        bounds,
        Rect { x: 100, y: 358, w: 1200, h: 480 },
        "应正对窗口下方、留 8px 间距；余量 542 > 480，高度取上限"
    );
}

#[test]
fn terminal_shrinks_when_screen_space_is_tight() {
    let window = Rect { x: 0, y: 500, w: 1200, h: 300 };
    let bounds = terminal_bounds(window, SCREEN, 8, 480, 120);
    assert_eq!(bounds.h, 120);
    assert_eq!(bounds.y, 780);
}

#[test]
fn terminal_keeps_min_height_when_window_touches_screen_bottom() {
    let window = Rect { x: 0, y: 0, w: 1200, h: 900 };
    let bounds = terminal_bounds(window, SCREEN, 8, 480, 120);
    assert_eq!(bounds.h, 120, "无空间时保持最小高度");
    assert_eq!(bounds.y, 780, "y 收进屏幕底边");
}

#[test]
fn terminal_clamps_into_screen_horizontally() {
    let window = Rect { x: 1400, y: 50, w: 1200, h: 400 };
    let bounds = terminal_bounds(window, SCREEN, 8, 480, 120);
    assert_eq!(bounds.w, 1200);
    assert_eq!(bounds.x, 240, "越出右边缘时收进屏幕");
}

#[test]
fn terminal_takes_the_room_there_is() {
    let window = Rect { x: -50, y: 100, w: 2000, h: 392 };
    let bounds = terminal_bounds(window, SCREEN, 8, 480, 120);
    assert_eq!(bounds, Rect { x: 0, y: 500, w: 1440, h: 400 });
}

#[test]
fn terminal_for_a_window_on_a_monitor() {
    let window = placed(100, 50, 1200, 300);
    assert_eq!(
        terminal_for(window, Some(placed(0, 0, 1440, 900))),
        Rect { x: 100, y: 358, w: 1200, h: 480 }
    );
    // Without a monitor the window stands for the screen.
    assert_eq!(terminal_for(window, None), Rect { x: 100, y: 230, w: 1200, h: 120 });
}

#[test]
fn terminal_script_names_the_edges() {
    assert_eq!(
        terminal_script(Rect { x: -3, y: 20, w: 10, h: 5 }),
        "tell application \"Terminal\"\n  activate\n  do script \"\"\n  set bounds of front window to {-3, 20, 7, 25}\nend tell"
    );
    assert_eq!(
        terminal_script(Rect { x: i64::MAX, y: i64::MIN, w: 1, h: -1 }),
        "tell application \"Terminal\"\n  activate\n  do script \"\"\n  set bounds of front window to {2147483647, -2147483648, 2147483647, -2147483648}\nend tell"
    );
}

#[test]
fn terminal_stays_within_a_screen_that_is_high_enough() {
    let window = Rect { x: 0, y: -500, w: 1200, h: 100 };
    let bounds = terminal_bounds(window, SCREEN, 8, 480, 120);
    assert_eq!(bounds, Rect { x: 0, y: 0, w: 1200, h: 480 });
    // On a screen that is lower than the terminal, the bottom stays on the screen.
    let low = Rect { x: 0, y: 0, w: 100, h: 100 };
    assert_eq!(
        terminal_bounds(Rect { x: 0, y: 0, w: 100, h: 50 }, low, 8, 480, 120),
        Rect { x: 0, y: -20, w: 100, h: 120 }
    );
}
