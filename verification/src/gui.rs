//! The boot shell: the demo windows created at startup. The endless
//! redraw-and-yield loop that keeps them on screen is the embedder's; the
//! windows, widgets and desktop state it runs over are built and verified
//! here.

use vstd::prelude::*;

use crate::size::Size;
use crate::vga::WIDTH;
use crate::widgets::split_ascii_words;
use crate::widgets::spec_words;
use crate::widgets::Header;
use crate::widgets::Widget;
use crate::wm::title_row;
use crate::wm::Desktop;
use crate::wm::Window;
use crate::wm::WidgetKind;

verus! {

use vstd::string::StrSliceExecFns;

/// Whether a text widget can render into `container_size`: the container
/// leaves room for the padding and every word fits on one line.
fn text_renders_in(t: &String, container_size: Size) -> (r: bool)
    ensures
        r == t.renders_in(container_size),
{
    if container_size.width < 3 || container_size.height < 3 {
        return false;
    }
    let words = split_ascii_words(t.as_str());
    let ghost wviews = words@.map_values(|w: Vec<char>| w@);
    let n = words.len();
    let mut i: usize = 0;
    while i < n
        invariant
            i <= n,
            n == wviews.len(),
            wviews == spec_words(t@),
            words@.map_values(|w: Vec<char>| w@) == wviews,
            3 <= container_size.width,
            forall|j: int| 0 <= j < i ==> (#[trigger] wviews[j]).len() + 2 <= container_size.width,
        decreases n - i,
    {
        proof {
            assert(wviews[i as int] == words@[i as int]@);
        }
        if words[i].len() > container_size.width - 2 {
            return false;
        }
        i = i + 1;
    }
    true
}

/// Whether a widget can render into `container_size`.
fn widget_renders_in(widget: &WidgetKind, container_size: Size) -> (r: bool)
    ensures
        r == widget.renders_in(container_size),
{
    match widget {
        WidgetKind::Heading(h) => {
            2 <= container_size.height && h.0.as_str().unicode_len() <= container_size.width
        },
        WidgetKind::Text(t) => text_renders_in(t, container_size),
    }
}

/// Whether stacked widget `i` of `w` can be drawn inside the frame.
fn window_widget_ok(w: &Window, i: usize) -> (r: bool)
    requires
        w.wf(),
        i < w.widgets@.len(),
    ensures
        r == w.widget_ok(i as int),
{
    let pad = w.widgets[i].widget.get_padding();
    let size = w.widgets[i].size;
    if pad.width > size.width || pad.height > size.height {
        return false;
    }
    let inner = size.minus(pad);
    if !widget_renders_in(&w.widgets[i].widget, inner) {
        return false;
    }
    let rows = w.contents.len();
    let cols = w.contents[0].len();
    (w.widgets[i].y_pos as u128 + pad.height as u128 + inner.height as u128 <= rows as u128) && (
    pad.width as u128 + inner.width as u128 <= cols as u128)
}

/// Whether every stacked widget of `w` can be drawn.
pub fn window_ready(w: &Window) -> (r: bool)
    requires
        w.wf(),
    ensures
        r == (forall|i: int| 0 <= i < w.widgets@.len() ==> w.widget_ok(i)),
{
    let n = w.widgets.len();
    let mut i: usize = 0;
    while i < n
        invariant
            i <= n,
            w.wf(),
            n == w.widgets@.len(),
            forall|j: int| 0 <= j < i ==> w.widget_ok(j),
        decreases n - i,
    {
        if !window_widget_ok(w, i) {
            return false;
        }
        i = i + 1;
    }
    true
}

/// Builds the boot shell's three windows — a greeting with a header and a
/// hint text, a small test window, and an attention popup — pushes them
/// onto the desktop (leaving the popup focused) and composes each onto
/// the screen.
pub fn terminal(desktop: &mut Desktop)
    requires
        old(desktop).wf(),
    ensures
        final(desktop).wf(),
        final(desktop).windows@.len() == old(desktop).windows@.len() + 3,
        final(desktop).active_window == Some((old(desktop).windows@.len() + 2) as usize),
        ({
            let n = old(desktop).windows@.len() as int;
            let w0 = final(desktop).windows@[n];
            let w1 = final(desktop).windows@[n + 1];
            let w2 = final(desktop).windows@[n + 2];
            &&& w0.name@ == "Lateral Welcome Message"@
            &&& w0.width == 40 && w0.height == 11 && w0.x_pos == 5 && w0.y_pos == 6
            &&& w0.widgets@.len() == 2
            &&& !w0.is_focused
            &&& w1.name@ == "Test Window"@
            &&& w1.width == 20 && w1.height == 4 && w1.x_pos == 47 && w1.y_pos == 15
            &&& w1.widgets@.len() == 1
            &&& !w1.is_focused
            &&& w2.name@ == "Attention"@
            &&& w2.width == 15 && w2.height == 5 && w2.x_pos == 49 && w2.y_pos == 8
            &&& w2.widgets@.len() == 1
            &&& w2.is_focused
        }),
        final(desktop).screen()[0] == title_row("Attention"@),
{
    proof {
        reveal_strlit("Lateral Welcome Message");
        reveal_strlit("Test Window");
        reveal_strlit("Attention");
    }
    let mut greeting_window = Window::new("Lateral Welcome Message", 40, 11);
    greeting_window.push_widget(WidgetKind::Heading(Header::from("Welcome to Lateral")), 3);
    greeting_window.push_widget(
        WidgetKind::Text(
            "Press <TAB> to access the command bar. For more information, run `system/help`.".to_owned(),
        ),
        3,
    );
    greeting_window.move_to(5, 6);

    let mut test_window = Window::new("Test Window", 20, 4);
    test_window.push_widget(WidgetKind::Heading(Header::from("Test Window!!")), 2);
    test_window.move_to(47, 15);

    let mut attention = Window::new("Attention", 15, 5);
    attention.push_widget(WidgetKind::Text("Hello :)".to_owned()), 1);
    attention.move_to(49, 8);

    let i0 = desktop.push_window(greeting_window);
    let i1 = desktop.push_window(test_window);
    let i2 = desktop.push_window(attention);

    if window_ready(&desktop.windows[i0]) {
        desktop.update_window(i0);
    }
    if window_ready(&desktop.windows[i1]) {
        desktop.update_window(i1);
    }
    if window_ready(&desktop.windows[i2]) {
        desktop.update_window(i2);
    }
}

} // verus!
