//! Widget rendering, window frames, the desktop, focus movement, nudging,
//! the boot shell's windows, and key bindings.

use lateral::gui::terminal;
use lateral::keybindings::handle_input;
use lateral::keybindings::INPUT_MODE_CAPTURE;
use lateral::keybindings::INPUT_MODE_NORMAL;
use lateral::ps2::OsChar;
use lateral::ps2::Ps2;
use lateral::size::Size;
use lateral::vga::BgColor;
use lateral::vga::ColorCode;
use lateral::vga::FgColor;
use lateral::vga::Writer;
use lateral::widgets::split_ascii_words;
use lateral::widgets::Header;
use lateral::widgets::Widget;
use lateral::widgets::WidgetBuffer;
use lateral::widgets::UNDERLINE_GLYPH;
use lateral::wm::gradient_wallpaper;
use lateral::wm::window_with_borders;
use lateral::wm::Axis;
use lateral::wm::Desktop;
use lateral::wm::Direction;
use lateral::wm::WidgetKind;
use lateral::wm::Window;
use lateral::wm::START_BAR;

#[test]
fn size_helpers() {
    let s = Size::square(4);
    assert_eq!((s.width, s.height), (4, 4));
    let t = s.shrink(1);
    assert_eq!((t.width, t.height), (3, 3));
    let u = Size { width: 10, height: 8 }.minus(Size { width: 4, height: 2 });
    assert_eq!((u.width, u.height), (6, 6));
}

#[test]
fn splitter_finds_words() {
    let words = split_ascii_words("  hello \t world\n");
    let words: Vec<String> = words.into_iter().map(|w| w.into_iter().collect()).collect();
    assert_eq!(words, vec!["hello".to_string(), "world".to_string()]);
    assert!(split_ascii_words("   ").is_empty());
}

#[test]
fn fill_makes_a_uniform_grid() {
    let cell = lateral::vga::ScreenChar {
        ascii_character: b'#',
        color_code: ColorCode::new(FgColor::White, BgColor::Black),
    };
    let g: Vec<Vec<lateral::vga::ScreenChar>> =
        WidgetBuffer::fill(cell, Size { width: 3, height: 2 });
    assert_eq!(g.len(), 2);
    for row in &g {
        assert_eq!(row.len(), 3);
        for c in row {
            assert_eq!(*c, cell);
        }
    }
}

#[test]
fn header_renders_centered_with_underline() {
    let h = Header::from("Hi");
    let out = h.to_buffer(Size { width: 10, height: 3 }, BgColor::Blue);
    let white = ColorCode::new(FgColor::White, BgColor::Blue);
    // start = 10/2 - 2/2 = 4
    assert_eq!(out[0][4].ascii_character, b'H');
    assert_eq!(out[0][5].ascii_character, b'i');
    assert_eq!(out[0][4].color_code, white);
    assert_eq!(out[1][4].ascii_character, UNDERLINE_GLYPH);
    assert_eq!(out[1][5].ascii_character, UNDERLINE_GLYPH);
    assert_eq!(out[0][0].ascii_character, b' ');
    assert_eq!(out[2][4].ascii_character, b' ');
}

#[test]
fn text_widget_word_wraps() {
    let t = "ab cd".to_string();
    let out = t.to_buffer(Size { width: 7, height: 5 }, BgColor::DarkGray);
    // The drawable area is 5 columns wide: "ab cd " fits on one line.
    let row0: Vec<u8> = out[0].iter().map(|c| c.ascii_character).collect();
    assert_eq!(&row0[0..6], b"ab cd ");

    let t2 = "ab cd".to_string();
    let out2 = t2.to_buffer(Size { width: 6, height: 6 }, BgColor::DarkGray);
    // Now only 4 columns: "cd" wraps to the next line.
    let r0: Vec<u8> = out2[0].iter().map(|c| c.ascii_character).collect();
    let r1: Vec<u8> = out2[1].iter().map(|c| c.ascii_character).collect();
    assert_eq!(&r0[0..4], b"ab  ");
    assert_eq!(&r1[0..3], b"cd ");
}

#[test]
fn border_cells_frame_the_window() {
    // Where the shadow edge meets the window's top or left, the desktop
    // shows through.
    assert_eq!(window_with_borders(10, 0, 10, 5, false), None);
    assert_eq!(window_with_borders(0, 5, 10, 5, false), None);
    // Elsewhere the bottom and right edges carry the shadow block.
    let shadow = window_with_borders(10, 3, 10, 5, false).unwrap();
    assert_eq!(shadow.ascii_character, 219);
    // The interior is blank in the focus color.
    let cell = window_with_borders(4, 2, 10, 5, true).unwrap();
    assert_eq!(cell.color_code, ColorCode::new(FgColor::White, BgColor::LightGray));
    let corner = window_with_borders(0, 0, 10, 5, false).unwrap();
    assert_eq!(corner.color_code, ColorCode::new(FgColor::White, BgColor::DarkGray));
}

#[test]
fn wallpaper_has_gradient_and_field() {
    let wp = gradient_wallpaper();
    assert_eq!(wp.len(), 25);
    assert_eq!(wp[0][0].ascii_character, b' ');
    assert_eq!(wp[START_BAR][0].ascii_character, 176);
    assert_eq!(wp[START_BAR + 1][0].ascii_character, 177);
    assert_eq!(wp[START_BAR + 2][0].ascii_character, 178);
    assert_eq!(wp[START_BAR + 3][0].ascii_character, 219);
    assert_eq!(wp[24][79].ascii_character, 219);
}

#[test]
fn window_new_centers_and_frames() {
    let w = Window::new("demo", 10, 6);
    assert_eq!(w.x_pos, 40 - 5);
    assert_eq!(w.y_pos, 12 - 3);
    assert_eq!(w.contents.len(), 7);
    assert_eq!(w.contents[0].len(), 11);
    assert_eq!(w.contents[0][10], None);
    assert_eq!(w.contents[6][0], None);
    assert!(w.contents[0][0].is_some());
    assert!(w.contents[1][1].is_some());
    assert!(!w.is_focused);
}

#[test]
fn set_text_wraps_inside_the_frame() {
    let mut w = Window::new("demo", 12, 6);
    w.set_text("aa bb", 1, 1, 4);
    let ch = |y: usize, x: usize| w.contents[y][x].unwrap().ascii_character;
    assert_eq!(ch(1, 1), b'a');
    assert_eq!(ch(1, 2), b'a');
    assert_eq!(ch(1, 3), b' ');
    // "bb" would pass column 4: it wraps back to column 1 on the next row.
    assert_eq!(ch(2, 1), b'b');
    assert_eq!(ch(2, 2), b'b');
}

#[test]
fn update_buffer_overlays_present_cells_only() {
    let mut w = Window::new("demo", 4, 3);
    w.move_to(10, 10);
    let mut buffer = gradient_wallpaper();
    w.update_buffer(&mut buffer);
    // The interior landed on the buffer.
    assert_eq!(buffer[11][11].ascii_character, b' ');
    assert_eq!(
        buffer[11][11].color_code,
        ColorCode::new(FgColor::White, BgColor::DarkGray)
    );
    // The transparent edge cell left the wallpaper visible.
    assert_eq!(buffer[10][14].ascii_character, b' ');
    assert_eq!(
        buffer[10][14].color_code,
        ColorCode::new(FgColor::White, BgColor::Blue)
    );
}

#[test]
fn push_window_focuses_and_titles() {
    let mut d = Desktop::new();
    let w = Window::new("First", 10, 5);
    let i = d.push_window(w);
    assert_eq!(i, 0);
    assert_eq!(d.active_window, Some(0));
    assert!(d.windows[0].is_focused);
    let title: Vec<u8> = d.buffer[0][0..5].iter().map(|c| c.ascii_character).collect();
    assert_eq!(title, b"First");
    let j = d.push_window(Window::new("Second", 10, 5));
    assert_eq!(j, 1);
    assert!(!d.windows[0].is_focused);
    assert!(d.windows[1].is_focused);
    let title2: Vec<u8> = d.buffer[0][0..6].iter().map(|c| c.ascii_character).collect();
    assert_eq!(title2, b"Second");
}

#[test]
fn focus_moves_to_the_nearest_window_in_a_direction() {
    let mut d = Desktop::new();
    let mut a = Window::new("A", 4, 3);
    a.move_to(40, 10);
    let mut b = Window::new("B", 4, 3);
    b.move_to(20, 10);
    let mut c = Window::new("C", 4, 3);
    c.move_to(35, 10);
    d.push_window(a);
    d.push_window(b);
    d.push_window(c);
    // C (index 2) holds focus at (35, 10). Moving left, A at x 40 is
    // filtered out by direction; B at x 20 is the only candidate.
    d.change_focus(Direction::Left);
    assert_eq!(d.active_window, Some(1));
    // From B, moving right: both A (40) and C (35) qualify; C is nearer.
    d.change_focus(Direction::Right);
    assert_eq!(d.active_window, Some(2));
}

#[test]
fn budge_window_moves_and_clamps_at_the_origin() {
    let mut d = Desktop::new();
    let mut w = Window::new("W", 4, 3);
    w.move_to(5, 0);
    d.push_window(w);
    d.budge_window(0, Axis::X, 1);
    assert_eq!(d.windows[0].x_pos, 6);
    d.budge_window(0, Axis::Y, -1);
    // Already at the top edge: the nudge is ignored.
    assert_eq!(d.windows[0].y_pos, 0);
    d.budge_window(0, Axis::Y, 1);
    assert_eq!(d.windows[0].y_pos, 1);
}

#[test]
fn redraw_refreshes_frames_and_keeps_focus() {
    let mut d = Desktop::new();
    let mut a = Window::new("A", 6, 4);
    a.move_to(2, 2);
    let mut b = Window::new("B", 6, 4);
    b.move_to(30, 8);
    d.push_window(a);
    d.push_window(b);
    d.redraw();
    assert_eq!(d.active_window, Some(1));
    assert!(d.windows[1].is_focused);
    assert!(!d.windows[0].is_focused);
    // The unfocused frame interior is dark, the focused one light.
    assert_eq!(
        d.buffer[3][3].color_code,
        ColorCode::new(FgColor::White, BgColor::DarkGray)
    );
    assert_eq!(
        d.buffer[9][31].color_code,
        ColorCode::new(FgColor::White, BgColor::LightGray)
    );
    // The title bar still names the focused window.
    assert_eq!(d.buffer[0][0].ascii_character, b'B');
}

#[test]
fn terminal_builds_the_boot_shell() {
    let mut d = Desktop::new();
    terminal(&mut d);
    assert_eq!(d.windows.len(), 3);
    assert_eq!(d.active_window, Some(2));
    assert_eq!(d.windows[0].name, "Lateral Welcome Message");
    assert_eq!((d.windows[0].x_pos, d.windows[0].y_pos), (5, 6));
    assert_eq!((d.windows[0].width, d.windows[0].height), (40, 11));
    assert_eq!(d.windows[0].widgets.len(), 2);
    assert_eq!(d.windows[1].name, "Test Window");
    assert_eq!(d.windows[2].name, "Attention");
    assert!(d.windows[2].is_focused);
    let title: Vec<u8> = d.buffer[0][0..9].iter().map(|c| c.ascii_character).collect();
    assert_eq!(title, b"Attention");
    // The greeting window's header was composed onto the screen: its
    // centered title lands inside the window's interior rows.
    let row: Vec<u8> = d.buffer[7][6..46].iter().map(|c| c.ascii_character).collect();
    let text = String::from_utf8_lossy(&row);
    assert!(text.contains("Welcome to Lateral"), "row was: {text:?}");
}

#[test]
fn handle_input_moves_focus_with_direction_keys() {
    let mut d = Desktop::new();
    let mut left = Window::new("Left", 4, 3);
    left.move_to(10, 10);
    let mut right = Window::new("Right", 4, 3);
    right.move_to(30, 10);
    d.push_window(left);
    d.push_window(right);
    assert_eq!(d.active_window, Some(1));
    let mut writer = Writer::new();
    let mut ps2 = Ps2::new();

    // 'a' moves focus to the nearest window on the left.
    let m = handle_input(&mut d, &mut writer, &mut ps2, INPUT_MODE_NORMAL, OsChar::Display('a'));
    assert_eq!(m, INPUT_MODE_NORMAL);
    assert_eq!(d.active_window, Some(0));
    assert!(d.windows[0].is_focused);
    // The title bar follows the new focus; geometry is untouched.
    let title: Vec<u8> = d.buffer[0][0..4].iter().map(|c| c.ascii_character).collect();
    assert_eq!(title, b"Left");
    assert_eq!((d.windows[0].x_pos, d.windows[1].x_pos), (10, 30));

    // 'd' moves it back to the nearest window on the right.
    handle_input(&mut d, &mut writer, &mut ps2, INPUT_MODE_NORMAL, OsChar::Display('d'));
    assert_eq!(d.active_window, Some(1));
}

#[test]
fn handle_input_switches_modes_and_budges() {
    let mut d = Desktop::new();
    let mut w = Window::new("W", 4, 3);
    w.move_to(5, 5);
    d.push_window(w);
    let mut writer = Writer::new();
    let mut ps2 = Ps2::new();

    // Space enters capture mode; escape leaves it.
    let m = handle_input(&mut d, &mut writer, &mut ps2, INPUT_MODE_NORMAL, OsChar::Display(' '));
    assert_eq!(m, INPUT_MODE_CAPTURE);
    assert_eq!(writer.buffer.chars[0][0].ascii_character, b'0');
    let m2 = handle_input(&mut d, &mut writer, &mut ps2, m, OsChar::Display('\u{1b}'));
    assert_eq!(m2, INPUT_MODE_NORMAL);
    assert_eq!(writer.buffer.chars[0][0].ascii_character, b'1');

    // An upper-case direction key nudges the focused window.
    let m3 = handle_input(&mut d, &mut writer, &mut ps2, m2, OsChar::Display('S'));
    assert_eq!(m3, INPUT_MODE_NORMAL);
    assert_eq!(d.windows[0].y_pos, 6);
    let _ = handle_input(&mut d, &mut writer, &mut ps2, m3, OsChar::Display('A'));
    assert_eq!(d.windows[0].x_pos, 4);

    // A key with no binding changes nothing but the mode display.
    let m4 = handle_input(&mut d, &mut writer, &mut ps2, m3, OsChar::Display('q'));
    assert_eq!(m4, INPUT_MODE_NORMAL);
    assert_eq!(d.windows[0].x_pos, 4);
}
