//! Key bindings: what each decoded key does to the desktop, and the input
//! mode the next key will be interpreted in.

use vstd::prelude::*;

use crate::ps2::queue_contents;
use crate::ps2::OsChar;
use crate::ps2::Ps2;
use crate::vga::Writer;
use crate::vga::ScreenChar;
use crate::wm::focus_moved;
use crate::wm::Axis;
use crate::wm::Desktop;
use crate::wm::Direction;
use crate::wm::Window;
use crate::vga::WIDTH;

verus! {

/// Keys are interpreted as window-manager commands.
pub const INPUT_MODE_NORMAL: u8 = 0;

/// Keys are captured for the focused application.
pub const INPUT_MODE_CAPTURE: u8 = 1;

/// The input mode after one key: space enters capture mode, escape leaves
/// it, everything else keeps the mode.
pub open spec fn next_input_mode(mode: u8, key: OsChar) -> u8 {
    if mode == INPUT_MODE_NORMAL && (key matches OsChar::Display(' ')) {
        INPUT_MODE_CAPTURE
    } else if mode == INPUT_MODE_CAPTURE && (key matches OsChar::Display('\u{1b}')) {
        INPUT_MODE_NORMAL
    } else {
        mode
    }
}

/// A key that moves focus between windows.
pub open spec fn is_focus_key(key: OsChar) -> bool {
    ||| key matches OsChar::Display('w')
    ||| key matches OsChar::Display('s')
    ||| key matches OsChar::Display('a')
    ||| key matches OsChar::Display('d')
}

/// A key that nudges the focused window.
pub open spec fn is_budge_key(key: OsChar) -> bool {
    ||| key matches OsChar::Display('W')
    ||| key matches OsChar::Display('S')
    ||| key matches OsChar::Display('A')
    ||| key matches OsChar::Display('D')
}

/// Applies one decoded key: in normal mode the lower-case direction keys
/// move focus, the upper-case ones nudge the focused window, and space
/// enters capture mode; in capture mode escape returns to normal mode and
/// everything else is left to the focused application. The current mode's
/// digit is shown in the title bar's corner, and the scancode queue is
/// drained so stale input never replays.
pub fn handle_input(
    desktop: &mut Desktop,
    w: &mut Writer,
    ps2: &mut Ps2,
    input_mode: u8,
    key: OsChar,
) -> (r: u8)
    requires
        input_mode == INPUT_MODE_NORMAL || input_mode == INPUT_MODE_CAPTURE,
        old(desktop).wf(),
        old(w)@.wf(),
        input_mode == INPUT_MODE_NORMAL && is_focus_key(key) ==> old(desktop).windows@.len() > 0
            && old(desktop).positions_bounded() && (forall|i: int|
            0 <= i < old(desktop).windows@.len() ==> (#[trigger] old(
                desktop,
            ).windows@[i]).name@.len() <= WIDTH),
        input_mode == INPUT_MODE_NORMAL && is_budge_key(key) ==> (old(desktop).active_window
            is Some) && ({
            let a = old(desktop).active_window->0 as int;
            &&& old(desktop).windows@[a].x_pos + 1 <= isize::MAX
            &&& old(desktop).windows@[a].y_pos + 1 <= isize::MAX
        }),
    ensures
        r == next_input_mode(input_mode, key),
        final(desktop).wf(),
        final(w)@.wf(),
        queue_contents(&final(ps2).queue).len() == 0,
        final(w)@.screen[0][0] == (ScreenChar {
            ascii_character: (0x30 + input_mode) as u8,
            color_code: old(w)@.color,
        }),
        input_mode == INPUT_MODE_NORMAL && (key matches OsChar::Display('w')) ==> focus_moved(
            *old(desktop),
            *final(desktop),
            Direction::Up,
        ),
        input_mode == INPUT_MODE_NORMAL && (key matches OsChar::Display('s')) ==> focus_moved(
            *old(desktop),
            *final(desktop),
            Direction::Down,
        ),
        input_mode == INPUT_MODE_NORMAL && (key matches OsChar::Display('a')) ==> focus_moved(
            *old(desktop),
            *final(desktop),
            Direction::Left,
        ),
        input_mode == INPUT_MODE_NORMAL && (key matches OsChar::Display('d')) ==> focus_moved(
            *old(desktop),
            *final(desktop),
            Direction::Right,
        ),
        input_mode == INPUT_MODE_NORMAL && (key matches OsChar::Display('W')) ==> budged(
            old(desktop).windows@,
            final(desktop).windows@,
            old(desktop).active_window->0 as int,
            Axis::Y,
            -1,
        ),
        input_mode == INPUT_MODE_NORMAL && (key matches OsChar::Display('S')) ==> budged(
            old(desktop).windows@,
            final(desktop).windows@,
            old(desktop).active_window->0 as int,
            Axis::Y,
            1,
        ),
        input_mode == INPUT_MODE_NORMAL && (key matches OsChar::Display('A')) ==> budged(
            old(desktop).windows@,
            final(desktop).windows@,
            old(desktop).active_window->0 as int,
            Axis::X,
            -1,
        ),
        input_mode == INPUT_MODE_NORMAL && (key matches OsChar::Display('D')) ==> budged(
            old(desktop).windows@,
            final(desktop).windows@,
            old(desktop).active_window->0 as int,
            Axis::X,
            1,
        ),
{
    let mut mode = input_mode;
    if input_mode == INPUT_MODE_NORMAL {
        match key {
            OsChar::Display(c) => {
                if c == ' ' {
                    mode = INPUT_MODE_CAPTURE;
                } else if c == 'w' {
                    desktop.change_focus(Direction::Up);
                } else if c == 's' {
                    desktop.change_focus(Direction::Down);
                } else if c == 'a' {
                    desktop.change_focus(Direction::Left);
                } else if c == 'd' {
                    desktop.change_focus(Direction::Right);
                } else if c == 'W' {
                    let current_window = current_window_index(desktop);
                    desktop.budge_window(current_window, Axis::Y, -1);
                } else if c == 'S' {
                    let current_window = current_window_index(desktop);
                    desktop.budge_window(current_window, Axis::Y, 1);
                } else if c == 'A' {
                    let current_window = current_window_index(desktop);
                    desktop.budge_window(current_window, Axis::X, -1);
                } else if c == 'D' {
                    let current_window = current_window_index(desktop);
                    desktop.budge_window(current_window, Axis::X, 1);
                }
            },
            OsChar::Special(_) => {},
        }
    } else {
        match key {
            OsChar::Display(c) => {
                if c == '\u{1b}' {
                    mode = INPUT_MODE_NORMAL;
                }
            },
            OsChar::Special(_) => {},
        }
    }
    let formatted = if input_mode == INPUT_MODE_NORMAL {
        "0"
    } else {
        "1"
    };
    proof {
        reveal_strlit("0");
        reveal_strlit("1");
    }
    w.write_line(formatted, 0, 0, None, None);
    proof {
        if input_mode == INPUT_MODE_NORMAL {
            assert(formatted@[0] == '0');
            assert((('0' as u32) as u8) == 0x30u8);
        } else {
            assert(formatted@[0] == '1');
            assert((('1' as u32) as u8) == 0x31u8);
        }
    }
    ps2.drain_queue();
    mode
}

/// What a nudge by `amount` along `axis` leaves of the window list: the
/// window moved, unless the nudge would cross the screen's origin.
pub open spec fn budged(
    before: Seq<Window>,
    after: Seq<Window>,
    a: int,
    axis: Axis,
    amount: int,
) -> bool {
    let w = before[a];
    match axis {
        Axis::X => {
            if w.x_pos + amount < 0 {
                after == before
            } else {
                after == before.update(a, (Window { x_pos: (w.x_pos + amount) as usize, ..w }))
            }
        },
        Axis::Y => {
            if w.y_pos + amount < 0 {
                after == before
            } else {
                after == before.update(a, (Window { y_pos: (w.y_pos + amount) as usize, ..w }))
            }
        },
    }
}

/// The focused window's index; normal-mode nudge keys are only delivered
/// while something has focus.
fn current_window_index(desktop: &Desktop) -> (r: usize)
    requires
        desktop.wf(),
        desktop.active_window is Some,
    ensures
        r == desktop.active_window->0,
        r < desktop.windows@.len(),
{
    match desktop.active_window {
        Some(a) => a,
        None => {
            proof {
                assert(false);
            }
            0
        },
    }
}

} // verus!
