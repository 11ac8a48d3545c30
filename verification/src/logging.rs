//! Kernel log lines: a colored " KERNEL " badge followed by the message,
//! rendered through the text-mode writer. Each severity is a fixed badge
//! and message color.

use vstd::prelude::*;

use crate::vga::BgColor;
use crate::vga::ColorCode;
use crate::vga::FgColor;
use crate::vga::wrote_chars;
use crate::vga::Writer;
use crate::vga::WriterSnap;

verus! {

/// The writer after one log line: the badge " KERNEL " in white on the
/// severity's background, then two spaces and the message in the
/// severity's foreground on black, then a newline. The message color
/// remains current afterwards.
pub open spec fn kernel_log_spec(
    w: WriterSnap,
    message: Seq<char>,
    fg: FgColor,
    bg: BgColor,
) -> WriterSnap {
    let w1 = WriterSnap { color: ColorCode::spec_new(FgColor::White, bg), ..w };
    let w2 = wrote_chars(w1, " KERNEL "@);
    let w3 = WriterSnap { color: ColorCode::spec_new(fg, BgColor::Black), ..w2 };
    let w4 = wrote_chars(w3, "  "@);
    let w5 = wrote_chars(w4, message);
    w5.wrote_byte(10)
}

/// Writes one log line in the given colors.
pub fn kernel_log(w: &mut Writer, message: &str, fg: FgColor, bg: BgColor)
    requires
        old(w)@.wf(),
    ensures
        final(w)@ == kernel_log_spec(old(w)@, message@, fg, bg),
        final(w)@.wf(),
{
    w.color_code = ColorCode::new(FgColor::White, bg);
    proof {
        assert(w@ =~~= (WriterSnap { color: ColorCode::spec_new(FgColor::White, bg), ..old(w)@ }));
    }
    w.write_string(" KERNEL ");
    let ghost w2 = w@;
    w.color_code = ColorCode::new(fg, BgColor::Black);
    proof {
        assert(w@ =~~= (WriterSnap { color: ColorCode::spec_new(fg, BgColor::Black), ..w2 }));
    }
    w.write_string("  ");
    w.write_string(message);
    w.write_byte(10);
}

/// An unrecoverable failure.
pub fn kernel_fatal(w: &mut Writer, message: &str)
    requires
        old(w)@.wf(),
    ensures
        final(w)@ == kernel_log_spec(old(w)@, message@, FgColor::Red, BgColor::LightRed),
        final(w)@.wf(),
{
    kernel_log(w, message, FgColor::Red, BgColor::LightRed);
}

/// A survivable but suspect condition.
pub fn kernel_warning(w: &mut Writer, message: &str)
    requires
        old(w)@.wf(),
    ensures
        final(w)@ == kernel_log_spec(old(w)@, message@, FgColor::Yellow, BgColor::Brown),
        final(w)@.wf(),
{
    kernel_log(w, message, FgColor::Yellow, BgColor::Brown);
}

/// Routine information.
pub fn kernel_info(w: &mut Writer, message: &str)
    requires
        old(w)@.wf(),
    ensures
        final(w)@ == kernel_log_spec(old(w)@, message@, FgColor::LightCyan, BgColor::Cyan),
        final(w)@.wf(),
{
    kernel_log(w, message, FgColor::LightCyan, BgColor::Cyan);
}

/// A notable state change.
pub fn kernel_event(w: &mut Writer, message: &str)
    requires
        old(w)@.wf(),
    ensures
        final(w)@ == kernel_log_spec(old(w)@, message@, FgColor::LightGreen, BgColor::Green),
        final(w)@.wf(),
{
    kernel_log(w, message, FgColor::LightGreen, BgColor::Green);
}

/// A recoverable error.
pub fn kernel_error(w: &mut Writer, message: &str)
    requires
        old(w)@.wf(),
    ensures
        final(w)@ == kernel_log_spec(old(w)@, message@, FgColor::Pink, BgColor::Magenta),
        final(w)@.wf(),
{
    kernel_log(w, message, FgColor::Pink, BgColor::Magenta);
}

} // verus!
