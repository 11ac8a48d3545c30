//! Text-mode writer behaviour: printing, wrapping, scrolling, in-band
//! color escapes, positioned lines, log lines and the boot screen.

use lateral::logging::kernel_fatal;
use lateral::startup_screen;
use lateral::vga::BgColor;
use lateral::vga::ColorCode;
use lateral::vga::FgColor;
use lateral::vga::ScreenChar;
use lateral::vga::Writer;
use lateral::vga::HEIGHT;
use lateral::vga::WIDTH;

fn white_on_black() -> ColorCode {
    ColorCode::new(FgColor::White, BgColor::Black)
}

#[test]
fn color_code_packs_nibbles() {
    assert_eq!(ColorCode::new(FgColor::White, BgColor::Black).0, 0x0F);
    assert_eq!(ColorCode::new(FgColor::Black, BgColor::White).0, 0xF0);
    assert_eq!(ColorCode::new(FgColor::Yellow, BgColor::Brown).0, 0x6E);
}

#[test]
fn writer_starts_blank() {
    let w = Writer::new();
    assert_eq!(w.column_position, 0);
    assert_eq!(w.color_code, white_on_black());
    assert_eq!(w.buffer.chars.len(), HEIGHT);
    for row in &w.buffer.chars {
        assert_eq!(row.len(), WIDTH);
        for cell in row {
            assert_eq!(cell.ascii_character, b' ');
        }
    }
}

#[test]
fn bytes_print_on_the_bottom_row() {
    let mut w = Writer::new();
    w.write_byte(b'H');
    w.write_byte(b'i');
    assert_eq!(w.buffer.chars[HEIGHT - 1][0].ascii_character, b'H');
    assert_eq!(w.buffer.chars[HEIGHT - 1][1].ascii_character, b'i');
    assert_eq!(w.column_position, 2);
}

#[test]
fn newline_scrolls_rows_up() {
    let mut w = Writer::new();
    w.write_string("AB\n");
    // The printed row moved up one; the bottom row is blank again.
    assert_eq!(w.buffer.chars[HEIGHT - 2][0].ascii_character, b'A');
    assert_eq!(w.buffer.chars[HEIGHT - 2][1].ascii_character, b'B');
    assert_eq!(w.buffer.chars[HEIGHT - 1][0].ascii_character, b' ');
    assert_eq!(w.column_position, 0);
}

#[test]
fn long_line_wraps_at_the_right_edge() {
    let mut w = Writer::new();
    for _ in 0..WIDTH {
        w.write_byte(b'x');
    }
    assert_eq!(w.column_position, WIDTH);
    w.write_byte(b'y');
    // The full row scrolled up; the overflow byte starts the fresh row.
    assert_eq!(w.buffer.chars[HEIGHT - 2][WIDTH - 1].ascii_character, b'x');
    assert_eq!(w.buffer.chars[HEIGHT - 1][0].ascii_character, b'y');
    assert_eq!(w.column_position, 1);
}

#[test]
fn in_band_escapes_switch_colors() {
    let mut w = Writer::new();
    // 0x80 + 4 selects foreground Red; 0x90 + 1 selects background Blue.
    let s: String = vec![
        char::from_u32(0x84).unwrap(),
        char::from_u32(0x91).unwrap(),
        'Z',
    ]
    .into_iter()
    .collect();
    w.write_string(&s);
    assert_eq!(w.color_code.0, (1 << 4) | 4);
    assert_eq!(w.buffer.chars[HEIGHT - 1][0].ascii_character, b'Z');
    assert_eq!(w.buffer.chars[HEIGHT - 1][0].color_code.0, (1 << 4) | 4);
}

#[test]
fn unprintable_bytes_show_the_replacement_glyph() {
    let mut w = Writer::new();
    w.write_string("\u{1}");
    assert_eq!(w.buffer.chars[HEIGHT - 1][0].ascii_character, 0xFE);
}

#[test]
fn write_line_places_text_without_moving_the_cursor() {
    let mut w = Writer::new();
    w.write_line("Hey", 3, 10, Some(FgColor::Green), Some(BgColor::Red));
    assert_eq!(w.column_position, 0);
    let expected = ColorCode::new(FgColor::Green, BgColor::Red);
    assert_eq!(w.buffer.chars[3][10].ascii_character, b'H');
    assert_eq!(w.buffer.chars[3][11].ascii_character, b'e');
    assert_eq!(w.buffer.chars[3][12].ascii_character, b'y');
    assert_eq!(w.buffer.chars[3][10].color_code, expected);
    // A line without explicit colors uses the writer's own.
    w.write_line("!", 3, 13, None, None);
    assert_eq!(w.buffer.chars[3][13].color_code, white_on_black());
}

#[test]
fn cls_blanks_everything_in_the_current_color() {
    let mut w = Writer::new();
    w.write_string("junk");
    w.color_code = ColorCode::new(FgColor::White, BgColor::Blue);
    w.cls();
    for row in &w.buffer.chars {
        for cell in row {
            assert_eq!(
                *cell,
                ScreenChar {
                    ascii_character: b' ',
                    color_code: ColorCode::new(FgColor::White, BgColor::Blue),
                }
            );
        }
    }
}

#[test]
fn clear_row_blanks_one_row() {
    let mut w = Writer::new();
    w.write_line("zzz", 7, 0, None, None);
    w.clear_row(7);
    for x in 0..WIDTH {
        assert_eq!(w.buffer.chars[7][x].ascii_character, b' ');
    }
}

#[test]
fn log_line_shows_the_badge_and_message() {
    let mut w = Writer::new();
    kernel_fatal(&mut w, "boom");
    // The trailing newline scrolled the line up one row.
    let row = &w.buffer.chars[HEIGHT - 2];
    let badge: Vec<u8> = row[0..8].iter().map(|c| c.ascii_character).collect();
    assert_eq!(badge, b" KERNEL ");
    let badge_color = ColorCode::new(FgColor::White, BgColor::LightRed);
    assert_eq!(row[1].color_code, badge_color);
    let msg: Vec<u8> = row[10..14].iter().map(|c| c.ascii_character).collect();
    assert_eq!(msg, b"boom");
    assert_eq!(row[10].color_code, ColorCode::new(FgColor::Red, BgColor::Black));
    // The message color stays current afterwards.
    assert_eq!(w.color_code, ColorCode::new(FgColor::Red, BgColor::Black));
}

#[test]
fn boot_screen_shows_logo_and_banner() {
    let mut w = Writer::new();
    startup_screen(&mut w);
    assert_eq!(w.buffer.chars[5][14].ascii_character, b'8');
    assert_eq!(w.buffer.chars[5][15].ascii_character, b'8');
    // Column 24 of the first logo row holds the 'd' of "db".
    assert_eq!(w.buffer.chars[5][24].ascii_character, b'd');
    // The banner is centered on row 13.
    let banner: Vec<u8> = w.buffer.chars[13][30..50]
        .iter()
        .map(|c| c.ascii_character)
        .collect();
    assert_eq!(banner, b"Kernel Version 0.2.1");
    // Elsewhere the screen is blank white-on-black.
    assert_eq!(
        w.buffer.chars[0][0],
        ScreenChar { ascii_character: b' ', color_code: white_on_black() }
    );
    assert_eq!(
        w.buffer.chars[20][70],
        ScreenChar { ascii_character: b' ', color_code: white_on_black() }
    );
}
