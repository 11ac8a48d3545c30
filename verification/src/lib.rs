//! A model of a small cooperative kernel core: the interrupt-controller
//! binding, the interrupt vector table, the IRQ handler registry, the
//! syscall dispatch path, a round-robin fiber scheduler with a cross-context
//! spawn queue, and the text-mode rendering and toy filesystem logic that
//! sit on top of them.
//!
//! Hardware access (port I/O, loading the vector table, the raw context
//! switch) lives outside this crate; the types here carry the state those
//! operations act on, and every state transition is specified and verified.

pub mod byte;
pub mod fs;
pub mod gui;
pub mod interrupt;
pub mod keybindings;
pub mod logging;
pub mod pic;
pub mod ps2;
pub mod queue;
pub mod rtc;
pub mod size;
pub mod syscall;
pub mod task;
pub mod test;
pub mod thread;
pub mod vga;
pub mod widgets;
pub mod wm;

use vstd::prelude::*;

use crate::vga::BgColor;
use crate::vga::ColorCode;
use crate::vga::FgColor;
use crate::vga::ScreenChar;
use crate::vga::Writer;
use crate::vga::HEIGHT;
use crate::vga::WIDTH;
use crate::widgets::char_cell;

verus! {

use vstd::string::StrSliceExecFns;

/// One row of the boot logo.
pub open spec fn logo_line(i: int) -> Seq<char> {
    if i == 0 {
        r#"88        db    888888 888888 88""Yb    db    88    "#@
    } else if i == 1 {
        r#"88       dPYb     88   88__   88__dP   dPYb   88    "#@
    } else if i == 2 {
        r#"88  .o  dP__Yb -- 88 - 88"" - 88"Yb - dP__Yb  88  .o"#@
    } else {
        r#"88ood8 dP""""Yb   88   888888 88  Yb dP""""Yb 88ood8"#@
    }
}

/// What the boot screen shows at cell (`y`, `x`): the logo block, the
/// version banner centered beneath it, and a blank white-on-black field
/// everywhere else.
pub open spec fn startup_cell(y: int, x: int) -> ScreenChar {
    let white = ColorCode::spec_new(FgColor::White, BgColor::Black);
    if 5 <= y < 9 && 14 <= x < 14 + 52 {
        char_cell(logo_line(y - 5)[x - 14], white)
    } else if y == 13 && 30 <= x < 50 {
        char_cell("Kernel Version 0.2.1"@[x - 30], white)
    } else {
        ScreenChar { ascii_character: 32, color_code: white }
    }
}

/// Draws the boot screen: every cell blanked white-on-black, the logo at
/// its fixed offset, and the version banner centered beneath it.
pub fn startup_screen(w: &mut Writer)
    requires
        old(w)@.wf(),
    ensures
        final(w)@.wf(),
        final(w)@.col == old(w)@.col,
        final(w)@.color == old(w)@.color,
        forall|y: int, x: int|
            0 <= y < HEIGHT && 0 <= x < WIDTH ==> #[trigger] final(w)@.screen[y][x]
                == startup_cell(y, x),
{
    proof {
        reveal_strlit(" ");
        reveal_strlit(r#"88        db    888888 888888 88""Yb    db    88    "#);
        reveal_strlit(r#"88       dPYb     88   88__   88__dP   dPYb   88    "#);
        reveal_strlit(r#"88  .o  dP__Yb -- 88 - 88"" - 88"Yb - dP__Yb  88  .o"#);
        reveal_strlit(r#"88ood8 dP""""Yb   88   888888 88  Yb dP""""Yb 88ood8"#);
        reveal_strlit("Kernel Version 0.2.1");
    }
    let mut y: usize = 0;
    while y < HEIGHT
        invariant
            y <= HEIGHT,
            w@.wf(),
            w@.col == old(w)@.col,
            w@.color == old(w)@.color,
            forall|r: int, k: int|
                0 <= r < y && 0 <= k < WIDTH ==> #[trigger] w@.screen[r][k] == (ScreenChar {
                    ascii_character: 32,
                    color_code: ColorCode::spec_new(FgColor::White, BgColor::Black),
                }),
        decreases HEIGHT - y,
    {
        let mut x: usize = 0;
        while x < WIDTH
            invariant
                y < HEIGHT,
                x <= WIDTH,
                w@.wf(),
                w@.col == old(w)@.col,
                w@.color == old(w)@.color,
                forall|r: int, k: int|
                    0 <= r < y && 0 <= k < WIDTH ==> #[trigger] w@.screen[r][k] == (ScreenChar {
                        ascii_character: 32,
                        color_code: ColorCode::spec_new(FgColor::White, BgColor::Black),
                    }),
                forall|k: int|
                    0 <= k < x ==> #[trigger] w@.screen[y as int][k] == (ScreenChar {
                        ascii_character: 32,
                        color_code: ColorCode::spec_new(FgColor::White, BgColor::Black),
                    }),
            decreases WIDTH - x,
        {
            proof {
                reveal_strlit(" ");
            }
            w.write_line(" ", y, x, Some(FgColor::White), Some(BgColor::Black));
            proof {
                assert(" "@[0] == ' ');
                assert(((' ' as u32) as u8) == 32u8);
                assert(w@.screen[y as int][x as int + 0] == (ScreenChar {
                    ascii_character: 32,
                    color_code: ColorCode::spec_new(FgColor::White, BgColor::Black),
                }));
            }
            x = x + 1;
        }
        y = y + 1;
    }
    let logo_y: usize = 5;
    w.write_line(
        r#"88        db    888888 888888 88""Yb    db    88    "#,
        logo_y,
        14,
        Some(FgColor::White),
        Some(BgColor::Black),
    );
    w.write_line(
        r#"88       dPYb     88   88__   88__dP   dPYb   88    "#,
        logo_y + 1,
        14,
        Some(FgColor::White),
        Some(BgColor::Black),
    );
    w.write_line(
        r#"88  .o  dP__Yb -- 88 - 88"" - 88"Yb - dP__Yb  88  .o"#,
        logo_y + 2,
        14,
        Some(FgColor::White),
        Some(BgColor::Black),
    );
    w.write_line(
        r#"88ood8 dP""""Yb   88   888888 88  Yb dP""""Yb 88ood8"#,
        logo_y + 3,
        14,
        Some(FgColor::White),
        Some(BgColor::Black),
    );
    let message = "Kernel Version 0.2.1";
    let message_len = message.unicode_len();
    w.write_line(
        message,
        logo_y + 8,
        WIDTH / 2 - message_len / 2,
        Some(FgColor::White),
        Some(BgColor::Black),
    );
    proof {
        let white = ColorCode::spec_new(FgColor::White, BgColor::Black);
        assert forall|y2: int, x2: int|
            0 <= y2 < HEIGHT && 0 <= x2 < WIDTH implies #[trigger] final(w)@.screen[y2][x2]
            == startup_cell(y2, x2) by {
            if 5 <= y2 < 9 && 14 <= x2 < 66 {
                let k = x2 - 14;
                assert(final(w)@.screen[y2][14 + k] == char_cell(logo_line(y2 - 5)[k], white));
            } else if y2 == 13 && 30 <= x2 < 50 {
                let k = x2 - 30;
                assert(final(w)@.screen[13][30 + k] == char_cell(
                    "Kernel Version 0.2.1"@[k],
                    white,
                ));
            }
        }
    }
}

} // verus!
