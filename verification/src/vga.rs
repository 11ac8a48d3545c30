//! Text-mode rendering: a height-by-width grid of character cells, each an
//! ASCII byte with a packed foreground/background color code, written
//! through a cursor that wraps and scrolls on the bottom row.
//!
//! The memory-mapped hardware buffer the grid is flushed to lives outside
//! this crate; the grid contents after every write are specified and
//! verified here.

use vstd::prelude::*;

verus! {

use vstd::string::StrSliceExecFns;

pub const HEIGHT: usize = 25;

pub const WIDTH: usize = 80;

#[derive(Copy, Clone, PartialEq, Eq, Structural, Debug)]
pub enum FgColor {
    Black,
    Blue,
    Green,
    Cyan,
    Red,
    Magenta,
    Brown,
    LightGray,
    DarkGray,
    LightBlue,
    LightGreen,
    LightCyan,
    LightRed,
    Pink,
    Yellow,
    White,
}

impl FgColor {
    /// The 4-bit hardware code of this color.
    pub open spec fn spec_code(self) -> u8 {
        match self {
            FgColor::Black => 0,
            FgColor::Blue => 1,
            FgColor::Green => 2,
            FgColor::Cyan => 3,
            FgColor::Red => 4,
            FgColor::Magenta => 5,
            FgColor::Brown => 6,
            FgColor::LightGray => 7,
            FgColor::DarkGray => 8,
            FgColor::LightBlue => 9,
            FgColor::LightGreen => 10,
            FgColor::LightCyan => 11,
            FgColor::LightRed => 12,
            FgColor::Pink => 13,
            FgColor::Yellow => 14,
            FgColor::White => 15,
        }
    }

    pub fn code(self) -> (r: u8)
        ensures
            r == self.spec_code(),
            r < 16,
    {
        match self {
            FgColor::Black => 0,
            FgColor::Blue => 1,
            FgColor::Green => 2,
            FgColor::Cyan => 3,
            FgColor::Red => 4,
            FgColor::Magenta => 5,
            FgColor::Brown => 6,
            FgColor::LightGray => 7,
            FgColor::DarkGray => 8,
            FgColor::LightBlue => 9,
            FgColor::LightGreen => 10,
            FgColor::LightCyan => 11,
            FgColor::LightRed => 12,
            FgColor::Pink => 13,
            FgColor::Yellow => 14,
            FgColor::White => 15,
        }
    }

    /// The in-band escape character that switches the writer's foreground
    /// color when it appears in a written string.
    pub open spec fn spec_escape(self) -> u8 {
        (self.spec_code() + 0x80) as u8
    }
}

#[derive(Copy, Clone, PartialEq, Eq, Structural, Debug)]
pub enum BgColor {
    Black,
    Blue,
    Green,
    Cyan,
    Red,
    Magenta,
    Brown,
    LightGray,
    DarkGray,
    LightBlue,
    LightGreen,
    LightCyan,
    LightRed,
    Pink,
    Yellow,
    White,
}

impl BgColor {
    /// The 4-bit hardware code of this color.
    pub open spec fn spec_code(self) -> u8 {
        match self {
            BgColor::Black => 0,
            BgColor::Blue => 1,
            BgColor::Green => 2,
            BgColor::Cyan => 3,
            BgColor::Red => 4,
            BgColor::Magenta => 5,
            BgColor::Brown => 6,
            BgColor::LightGray => 7,
            BgColor::DarkGray => 8,
            BgColor::LightBlue => 9,
            BgColor::LightGreen => 10,
            BgColor::LightCyan => 11,
            BgColor::LightRed => 12,
            BgColor::Pink => 13,
            BgColor::Yellow => 14,
            BgColor::White => 15,
        }
    }

    pub fn code(self) -> (r: u8)
        ensures
            r == self.spec_code(),
            r < 16,
    {
        match self {
            BgColor::Black => 0,
            BgColor::Blue => 1,
            BgColor::Green => 2,
            BgColor::Cyan => 3,
            BgColor::Red => 4,
            BgColor::Magenta => 5,
            BgColor::Brown => 6,
            BgColor::LightGray => 7,
            BgColor::DarkGray => 8,
            BgColor::LightBlue => 9,
            BgColor::LightGreen => 10,
            BgColor::LightCyan => 11,
            BgColor::LightRed => 12,
            BgColor::Pink => 13,
            BgColor::Yellow => 14,
            BgColor::White => 15,
        }
    }

    /// The in-band escape character that switches the writer's background
    /// color when it appears in a written string.
    pub open spec fn spec_escape(self) -> u8 {
        (self.spec_code() + 0x90) as u8
    }
}

/// A packed color byte: background code in the high nibble, foreground in
/// the low.
#[derive(Copy, Clone, PartialEq, Eq, Structural, Debug)]
pub struct ColorCode(pub u8);

impl ColorCode {
    pub open spec fn spec_new(foreground: FgColor, background: BgColor) -> ColorCode {
        ColorCode((background.spec_code() << 4) | foreground.spec_code())
    }

    pub fn new(foreground: FgColor, background: BgColor) -> (r: ColorCode)
        ensures
            r == ColorCode::spec_new(foreground, background),
    {
        let f = foreground.code();
        let b = background.code();
        ColorCode((b << 4) | f)
    }
}

/// One character cell: an ASCII byte and its color.
#[derive(Copy, Clone, PartialEq, Eq, Structural, Debug)]
pub struct ScreenChar {
    pub ascii_character: u8,
    pub color_code: ColorCode,
}

/// The height-by-width grid of cells.
pub struct Buffer {
    pub chars: Vec<Vec<ScreenChar>>,
}

/// A blank cell: a space in the given color.
pub open spec fn blank(color: ColorCode) -> ScreenChar {
    ScreenChar { ascii_character: 32, color_code: color }
}

/// A full row of blank cells.
pub open spec fn blank_row(color: ColorCode) -> Seq<ScreenChar> {
    Seq::new(WIDTH as nat, |i: int| blank(color))
}

/// The mathematical value of the writer: cursor column, current color,
/// and the grid.
#[verifier::ext_equal]
pub ghost struct WriterSnap {
    pub col: int,
    pub color: ColorCode,
    pub screen: Seq<Seq<ScreenChar>>,
}

impl WriterSnap {
    pub open spec fn wf(self) -> bool {
        &&& self.screen.len() == HEIGHT
        &&& forall|r: int| 0 <= r < HEIGHT ==> (#[trigger] self.screen[r]).len() == WIDTH
        &&& 0 <= self.col <= WIDTH
    }

    /// The writer after a scroll: every row moves up one, the bottom row
    /// is blanked in the current color, and the cursor returns to the left
    /// edge.
    pub open spec fn scrolled(self) -> WriterSnap {
        WriterSnap {
            col: 0,
            color: self.color,
            screen: Seq::new(
                HEIGHT as nat,
                |r: int|
                    if r < HEIGHT - 1 {
                        self.screen[r + 1]
                    } else {
                        blank_row(self.color)
                    },
            ),
        }
    }

    /// The writer after row `row` is blanked in the current color.
    pub open spec fn cleared_row(self, row: int) -> WriterSnap {
        WriterSnap { screen: self.screen.update(row, blank_row(self.color)), ..self }
    }

    /// The writer after cell (`row`, `c`) is overwritten.
    pub open spec fn put(self, row: int, c: int, ch: ScreenChar) -> WriterSnap {
        WriterSnap { screen: self.screen.update(row, self.screen[row].update(c, ch)), ..self }
    }

    /// The writer after one printable byte: scroll first if the cursor
    /// has passed the right edge, then place the byte on the bottom row
    /// and advance.
    pub open spec fn printed(self, byte: u8) -> WriterSnap {
        let s = if self.col >= WIDTH {
            self.scrolled()
        } else {
            self
        };
        WriterSnap {
            col: s.col + 1,
            ..s.put(
                HEIGHT - 1,
                s.col,
                ScreenChar { ascii_character: byte, color_code: s.color },
            )
        }
    }

    /// The writer after one byte: a newline scrolls, anything else prints.
    pub open spec fn wrote_byte(self, byte: u8) -> WriterSnap {
        if byte == 10 {
            self.scrolled()
        } else {
            self.printed(byte)
        }
    }

    /// The writer after one character of a written string: printable ASCII
    /// and newline go to the grid, the two in-band escape ranges switch
    /// the foreground or background color, and everything else prints the
    /// replacement glyph 0xFE.
    pub open spec fn wrote_char(self, c: char) -> WriterSnap {
        let b = ((c as u32) as u8);
        if (0x20 <= b <= 0x7e) || b == 10 {
            self.wrote_byte(b)
        } else if 0x80 <= b <= 0x8f {
            WriterSnap { color: ColorCode((self.color.0 & 0xF0) | ((b - 0x80) as u8)), ..self }
        } else if 0x90 <= b <= 0x9f {
            WriterSnap {
                color: ColorCode((self.color.0 & 0x0F) | (((b - 0x90) as u8) << 4)),
                ..self
            }
        } else {
            self.wrote_byte(0xFE)
        }
    }
}

/// The writer after a whole sequence of characters, first to last.
pub open spec fn wrote_chars(w: WriterSnap, s: Seq<char>) -> WriterSnap
    decreases s.len(),
{
    if s.len() == 0 {
        w
    } else {
        wrote_chars(w.wrote_char(s[0]), s.drop_first())
    }
}

/// Writing a sequence then one more character is writing the extended
/// sequence.
pub proof fn lemma_wrote_chars_snoc(w: WriterSnap, s: Seq<char>, c: char)
    ensures
        wrote_chars(w, s.push(c)) == wrote_chars(w, s).wrote_char(c),
    decreases s.len(),
{
    if s.len() == 0 {
        assert(s.push(c).drop_first() =~= Seq::<char>::empty());
        assert(s.push(c)[0] == c);
        assert(wrote_chars(w.wrote_char(c), Seq::<char>::empty()) == w.wrote_char(c));
    } else {
        assert(s.push(c).drop_first() =~= s.drop_first().push(c));
        assert(s.push(c)[0] == s[0]);
        lemma_wrote_chars_snoc(w.wrote_char(s[0]), s.drop_first(), c);
    }
}

/// The writer: cursor column, current color, and the owned grid. A native
/// build flushes the grid to the memory-mapped hardware buffer.
pub struct Writer {
    pub column_position: usize,
    pub color_code: ColorCode,
    pub buffer: Buffer,
}

impl View for Writer {
    type V = WriterSnap;

    open spec fn view(&self) -> WriterSnap {
        WriterSnap {
            col: self.column_position as int,
            color: self.color_code,
            screen: self.buffer.chars@.map_values(|r: Vec<ScreenChar>| r@),
        }
    }
}

impl Writer {
    /// A fresh writer: cursor at the left edge, white on black, the whole
    /// grid blank.
    pub fn new() -> (w: Writer)
        ensures
            w@.wf(),
            w@.col == 0,
            w@.color == ColorCode::spec_new(FgColor::White, BgColor::Black),
            forall|r: int| 0 <= r < HEIGHT ==> w@.screen[r] == blank_row(w@.color),
    {
        let color = ColorCode::new(FgColor::White, BgColor::Black);
        let mut chars: Vec<Vec<ScreenChar>> = Vec::new();
        let mut r: usize = 0;
        while r < HEIGHT
            invariant
                r <= HEIGHT,
                chars@.len() == r,
                forall|k: int|
                    0 <= k < r ==> (#[trigger] chars@[k])@ == blank_row(color),
            decreases HEIGHT - r,
        {
            let mut row: Vec<ScreenChar> = Vec::new();
            let mut c: usize = 0;
            while c < WIDTH
                invariant
                    c <= WIDTH,
                    row@.len() == c,
                    forall|k: int| 0 <= k < c ==> row@[k] == blank(color),
                decreases WIDTH - c,
            {
                row.push(ScreenChar { ascii_character: 32, color_code: color });
                c = c + 1;
            }
            proof {
                assert(row@ =~= blank_row(color));
            }
            chars.push(row);
            r = r + 1;
        }
        Writer { column_position: 0, color_code: color, buffer: Buffer { chars } }
    }

    /// Blanks row `row` in the current color.
    pub fn clear_row(&mut self, row: usize)
        requires
            old(self)@.wf(),
            row < HEIGHT,
        ensures
            final(self)@ == old(self)@.cleared_row(row as int),
            final(self)@.wf(),
    {
        let color = self.color_code;
        let mut c: usize = 0;
        while c < WIDTH
            invariant
                old(self)@.wf(),
                row < HEIGHT,
                c <= WIDTH,
                color == old(self)@.color,
                self.column_position == old(self).column_position,
                self.color_code == old(self).color_code,
                self@.screen.len() == HEIGHT,
                forall|r: int|
                    0 <= r < HEIGHT && r != row ==> self@.screen[r] == old(self)@.screen[r],
                self@.screen[row as int].len() == WIDTH,
                forall|k: int| 0 <= k < c ==> self@.screen[row as int][k] == blank(color),
                forall|k: int|
                    c <= k < WIDTH ==> self@.screen[row as int][k]
                        == old(self)@.screen[row as int][k],
            decreases WIDTH - c,
        {
            self.buffer.chars[row][c] = ScreenChar { ascii_character: 32, color_code: color };
            c = c + 1;
        }
        proof {
            assert(self@.screen[row as int] =~= blank_row(color));
            assert(self@ =~~= old(self)@.cleared_row(row as int));
        }
    }

    /// Scrolls: every row moves up one, the bottom row is blanked, the
    /// cursor returns to the left edge.
    pub fn new_line(&mut self)
        requires
            old(self)@.wf(),
        ensures
            final(self)@ == old(self)@.scrolled(),
            final(self)@.wf(),
    {
        let mut row: usize = 1;
        while row < HEIGHT
            invariant
                old(self)@.wf(),
                1 <= row <= HEIGHT,
                self.column_position == old(self).column_position,
                self.color_code == old(self).color_code,
                self@.screen.len() == HEIGHT,
                forall|r: int| 0 <= r < HEIGHT ==> (#[trigger] self@.screen[r]).len() == WIDTH,
                forall|r: int| 0 <= r < row - 1 ==> self@.screen[r] == old(self)@.screen[r + 1],
                forall|r: int|
                    row - 1 <= r < HEIGHT ==> self@.screen[r] == old(self)@.screen[r],
            decreases HEIGHT - row,
        {
            let mut col: usize = 0;
            while col < WIDTH
                invariant
                    old(self)@.wf(),
                    1 <= row < HEIGHT,
                    col <= WIDTH,
                    self.column_position == old(self).column_position,
                    self.color_code == old(self).color_code,
                    self@.screen.len() == HEIGHT,
                    forall|r: int|
                        0 <= r < HEIGHT ==> (#[trigger] self@.screen[r]).len() == WIDTH,
                    forall|r: int|
                        0 <= r < row - 1 ==> self@.screen[r] == old(self)@.screen[r + 1],
                    forall|r: int| row <= r < HEIGHT ==> self@.screen[r] == old(self)@.screen[r],
                    forall|k: int|
                        0 <= k < col ==> #[trigger] self@.screen[row - 1][k]
                            == old(self)@.screen[row as int][k],
                    forall|k: int|
                        col <= k < WIDTH ==> #[trigger] self@.screen[row - 1][k]
                            == old(self)@.screen[row - 1][k],
                decreases WIDTH - col,
            {
                proof {
                    assert(self.buffer.chars@.len() == HEIGHT);
                    assert(self@.screen[row as int].len() == WIDTH);
                    assert(self.buffer.chars@[row as int]@.len() == WIDTH);
                    assert(self@.screen[row - 1].len() == WIDTH);
                    assert(self.buffer.chars@[row - 1]@.len() == WIDTH);
                }
                let ghost snap = self@;
                let ghost pre = self.buffer.chars@;
                let character = self.buffer.chars[row][col];
                self.buffer.chars[row - 1][col] = character;
                proof {
                    assert forall|r: int|
                        0 <= r < HEIGHT && r != row - 1 implies self@.screen[r]
                            == snap.screen[r] by {
                        assert(self.buffer.chars@[r] == pre[r]);
                        assert(snap.screen[r] == pre[r]@);
                    }
                    assert(self@.screen[row - 1] =~= snap.screen[row - 1].update(
                        col as int,
                        character,
                    ));
                    assert(character == snap.screen[row as int][col as int]);
                    assert forall|r: int|
                        0 <= r < HEIGHT implies (#[trigger] self@.screen[r]).len() == WIDTH by {
                        assert(snap.screen[r].len() == WIDTH);
                        if r != row - 1 {
                            assert(self@.screen[r] == snap.screen[r]);
                        }
                    }
                    assert forall|r: int|
                        0 <= r < row - 1 implies self@.screen[r] == old(self)@.screen[r + 1] by {
                        assert(self@.screen[r] == snap.screen[r]);
                        assert(snap.screen[r] == old(self)@.screen[r + 1]);
                    }
                    assert forall|r: int|
                        row <= r < HEIGHT implies self@.screen[r] == old(self)@.screen[r] by {
                        assert(self@.screen[r] == snap.screen[r]);
                        assert(snap.screen[r] == old(self)@.screen[r]);
                    }
                }
                col = col + 1;
            }
            proof {
                assert(self@.screen[row - 1] =~= old(self)@.screen[row as int]);
            }
            row = row + 1;
        }
        self.clear_row(HEIGHT - 1);
        self.column_position = 0;
        proof {
            assert forall|r: int| 0 <= r < HEIGHT implies final(self)@.screen[r] == old(
                self,
            )@.scrolled().screen[r] by {
                if r < HEIGHT - 1 {
                } else {
                    assert(final(self)@.screen[r] == blank_row(old(self)@.color));
                }
            }
            assert(final(self)@.screen =~= old(self)@.scrolled().screen);
            assert(final(self)@ =~~= old(self)@.scrolled());
        }
    }

    /// Writes one byte: a newline scrolls; anything else is placed on the
    /// bottom row at the cursor, scrolling first when the cursor has
    /// passed the right edge.
    pub fn write_byte(&mut self, byte: u8)
        requires
            old(self)@.wf(),
        ensures
            final(self)@ == old(self)@.wrote_byte(byte),
            final(self)@.wf(),
    {
        if byte == 10 {
            self.new_line();
        } else {
            if self.column_position >= WIDTH {
                self.new_line();
            }
            let row = HEIGHT - 1;
            let col = self.column_position;
            let color_code = self.color_code;
            proof {
                assert(self@.screen[row as int].len() == WIDTH);
            }
            let ghost snap = self@;
            let ghost pre = self.buffer.chars@;
            self.buffer.chars[row][col] = ScreenChar { ascii_character: byte, color_code };
            self.column_position = self.column_position + 1;
            proof {
                assert forall|r: int|
                    0 <= r < HEIGHT && r != row implies self@.screen[r] == snap.screen[r] by {
                    assert(self.buffer.chars@[r] == pre[r]);
                }
                assert(self@.screen[row as int] =~= snap.screen[row as int].update(
                    col as int,
                    ScreenChar { ascii_character: byte, color_code },
                ));
                assert(self@.screen =~~= old(self)@.wrote_byte(byte).screen);
                assert(self@ =~~= old(self)@.wrote_byte(byte));
            }
        }
    }

    /// Writes one character of a string: printable ASCII and newline go
    /// to the grid, the in-band escape ranges switch the foreground or
    /// background color, anything else prints the replacement glyph.
    pub fn write_char(&mut self, c: char)
        requires
            old(self)@.wf(),
        ensures
            final(self)@ == old(self)@.wrote_char(c),
            final(self)@.wf(),
    {
        let b = #[verifier::truncate] ((c as u32) as u8);
        if (0x20 <= b && b <= 0x7e) || b == 10 {
            self.write_byte(b);
        } else if 0x80 <= b && b <= 0x8f {
            self.color_code = ColorCode((self.color_code.0 & 0xF0) | (b - 0x80));
            proof {
                assert(self@ =~~= old(self)@.wrote_char(c));
            }
        } else if 0x90 <= b && b <= 0x9f {
            self.color_code = ColorCode((self.color_code.0 & 0x0F) | ((b - 0x90) << 4));
            proof {
                assert(self@ =~~= old(self)@.wrote_char(c));
            }
        } else {
            self.write_byte(0xFE);
        }
    }

    /// Writes a whole string, character by character.
    pub fn write_string(&mut self, s: &str)
        requires
            old(self)@.wf(),
        ensures
            final(self)@ == wrote_chars(old(self)@, s@),
            final(self)@.wf(),
    {
        let n = s.unicode_len();
        let mut i: usize = 0;
        proof {
            assert(s@.subrange(0, 0) =~= Seq::<char>::empty());
        }
        while i < n
            invariant
                i <= n,
                n == s@.len(),
                self@.wf(),
                self@ == wrote_chars(old(self)@, s@.subrange(0, i as int)),
            decreases n - i,
        {
            let c = s.get_char(i);
            self.write_char(c);
            proof {
                lemma_wrote_chars_snoc(old(self)@, s@.subrange(0, i as int), s@[i as int]);
                assert(s@.subrange(0, i + 1) =~= s@.subrange(0, i as int).push(s@[i as int]));
            }
            i = i + 1;
        }
        proof {
            assert(s@.subrange(0, n as int) =~= s@);
        }
    }

    /// The color a positioned line is drawn in: the writer's own color
    /// unless both an explicit foreground and background are given.
    pub open spec fn spec_line_color(
        default: ColorCode,
        fgcolor: Option<FgColor>,
        bgcolor: Option<BgColor>,
    ) -> ColorCode {
        if fgcolor is None || bgcolor is None {
            default
        } else {
            ColorCode::spec_new(fgcolor->0, bgcolor->0)
        }
    }

    /// Writes `text` at a fixed position, without moving the cursor or
    /// changing the writer's color: cell `col + k` of `row` receives the
    /// k-th character.
    pub fn write_line(
        &mut self,
        text: &str,
        row: usize,
        col: usize,
        fgcolor: Option<FgColor>,
        bgcolor: Option<BgColor>,
    )
        requires
            old(self)@.wf(),
            row < HEIGHT,
            col + text@.len() <= WIDTH,
        ensures
            final(self)@.wf(),
            final(self)@.col == old(self)@.col,
            final(self)@.color == old(self)@.color,
            forall|r: int|
                0 <= r < HEIGHT && r != row ==> final(self)@.screen[r] == old(self)@.screen[r],
            forall|k: int|
                0 <= k < text@.len() ==> final(self)@.screen[row as int][col + k] == (ScreenChar {
                    ascii_character: ((text@[k] as u32) as u8),
                    color_code: Writer::spec_line_color(old(self)@.color, fgcolor, bgcolor),
                }),
            forall|k: int|
                0 <= k < WIDTH && !(col <= k < col + text@.len())
                    ==> final(self)@.screen[row as int][k] == old(self)@.screen[row as int][k],
    {
        let color = match (fgcolor, bgcolor) {
            (Some(f), Some(b)) => ColorCode::new(f, b),
            _ => self.color_code,
        };
        let n = text.unicode_len();
        let mut i: usize = 0;
        while i < n
            invariant
                old(self)@.wf(),
                row < HEIGHT,
                col + n <= WIDTH,
                i <= n,
                n == text@.len(),
                color == Writer::spec_line_color(old(self)@.color, fgcolor, bgcolor),
                self.column_position == old(self).column_position,
                self.color_code == old(self).color_code,
                self@.screen.len() == HEIGHT,
                forall|r: int|
                    0 <= r < HEIGHT && r != row ==> self@.screen[r] == old(self)@.screen[r],
                self@.screen[row as int].len() == WIDTH,
                forall|k: int|
                    0 <= k < i ==> self@.screen[row as int][col + k] == (ScreenChar {
                        ascii_character: ((text@[k] as u32) as u8),
                        color_code: color,
                    }),
                forall|k: int|
                    0 <= k < WIDTH && !(col <= k < col + i) ==> self@.screen[row as int][k] == old(
                        self,
                    )@.screen[row as int][k],
            decreases n - i,
        {
            let c = text.get_char(i);
            let b = #[verifier::truncate] ((c as u32) as u8);
            self.buffer.chars[row][col + i] = ScreenChar {
                ascii_character: b,
                color_code: color,
            };
            i = i + 1;
        }
    }

    /// Blanks the whole grid in the current color; the cursor stays where
    /// it is.
    pub fn cls(&mut self)
        requires
            old(self)@.wf(),
        ensures
            final(self)@.wf(),
            final(self)@.col == old(self)@.col,
            final(self)@.color == old(self)@.color,
            forall|r: int|
                0 <= r < HEIGHT ==> final(self)@.screen[r] == blank_row(old(self)@.color),
    {
        let mut r: usize = 0;
        while r < HEIGHT
            invariant
                old(self)@.wf(),
                r <= HEIGHT,
                self.column_position == old(self).column_position,
                self.color_code == old(self).color_code,
                self@.screen.len() == HEIGHT,
                forall|k: int| 0 <= k < r ==> self@.screen[k] == blank_row(old(self)@.color),
                forall|k: int| r <= k < HEIGHT ==> self@.screen[k] == old(self)@.screen[k],
            decreases HEIGHT - r,
        {
            self.clear_row(r);
            r = r + 1;
        }
    }
}

} // verus!
