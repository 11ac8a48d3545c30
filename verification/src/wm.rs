//! The window manager: windows of optional cells (holes show the desktop
//! through), a desktop buffer with a gradient wallpaper and a title bar,
//! focus movement by direction, and window nudging.

use vstd::prelude::*;

use crate::size::Size;
use crate::vga::BgColor;
use crate::vga::ColorCode;
use crate::vga::FgColor;
use crate::vga::ScreenChar;
use crate::vga::Writer;
use crate::vga::HEIGHT;
use crate::vga::WIDTH;
use crate::widgets::char_cell;
use crate::widgets::filled_grid;
use crate::widgets::spec_words;
use crate::widgets::split_ascii_words;
use crate::widgets::Header;
use crate::widgets::Widget;

verus! {

use vstd::string::StrSliceExecFns;

/// The desktop's background color.
pub open spec fn desktop_bg() -> BgColor {
    BgColor::Blue
}

/// The first wallpaper row drawn with gradient glyphs.
pub const START_BAR: usize = 14;

/// A window's interior background: light while focused, dark otherwise.
pub open spec fn window_bg(focused: bool) -> BgColor {
    if focused {
        BgColor::LightGray
    } else {
        BgColor::DarkGray
    }
}

/// What one cell of a fresh window frame holds: a shadow block along the
/// right and bottom edges — except where those edges meet the window's
/// top or left, where the desktop shows through — and a blank interior
/// cell elsewhere.
pub open spec fn border_cell(x: int, y: int, width: int, height: int, focused: bool) -> Option<
    ScreenChar,
> {
    if y == height || x == width {
        if y == 0 || x == 0 {
            None
        } else {
            Some(
                ScreenChar {
                    ascii_character: 219,
                    color_code: ColorCode::spec_new(FgColor::Black, desktop_bg()),
                },
            )
        }
    } else {
        Some(
            ScreenChar {
                ascii_character: 32,
                color_code: ColorCode::spec_new(FgColor::White, window_bg(focused)),
            },
        )
    }
}

/// A whole fresh frame: `height + 1` rows of `width + 1` border cells.
pub open spec fn border_grid(width: int, height: int, focused: bool) -> Seq<
    Seq<Option<ScreenChar>>,
> {
    Seq::new((height + 1) as nat, |y: int| Seq::new((width + 1) as nat, |x: int| border_cell(x, y, width, height, focused)))
}

/// One cell of a fresh window frame.
pub fn window_with_borders(x: usize, y: usize, width: usize, height: usize, focused: bool) -> (r:
    Option<ScreenChar>)
    ensures
        r == border_cell(x as int, y as int, width as int, height as int, focused),
{
    if y == height || x == width {
        if y == 0 || x == 0 {
            None
        } else {
            Some(
                ScreenChar {
                    ascii_character: 219,
                    color_code: ColorCode::new(FgColor::Black, BgColor::Blue),
                },
            )
        }
    } else {
        Some(
            ScreenChar {
                ascii_character: 32,
                color_code: ColorCode::new(
                    FgColor::White,
                    if focused {
                        BgColor::LightGray
                    } else {
                        BgColor::DarkGray
                    },
                ),
            },
        )
    }
}

/// One cell of the desktop wallpaper: a blank blue field, three gradient
/// rows, and a solid block field below them.
pub open spec fn wallpaper_cell(y: int) -> ScreenChar {
    if START_BAR <= y < START_BAR + 3 {
        ScreenChar {
            ascii_character: (176 + (y - START_BAR)) as u8,
            color_code: ColorCode::spec_new(FgColor::LightBlue, desktop_bg()),
        }
    } else if START_BAR + 3 <= y {
        ScreenChar {
            ascii_character: 219,
            color_code: ColorCode::spec_new(FgColor::LightBlue, desktop_bg()),
        }
    } else {
        ScreenChar {
            ascii_character: 32,
            color_code: ColorCode::spec_new(FgColor::White, desktop_bg()),
        }
    }
}

/// The full wallpaper.
pub open spec fn wallpaper_grid() -> Seq<Seq<ScreenChar>> {
    Seq::new(HEIGHT as nat, |y: int| Seq::new(WIDTH as nat, |x: int| wallpaper_cell(y)))
}

/// Renders the desktop wallpaper.
pub fn gradient_wallpaper() -> (buffer: Vec<Vec<ScreenChar>>)
    ensures
        buffer@.map_values(|r: Vec<ScreenChar>| r@) == wallpaper_grid(),
{
    let mut buffer: Vec<Vec<ScreenChar>> = Vec::new();
    let mut y: usize = 0;
    while y < HEIGHT
        invariant
            y <= HEIGHT,
            buffer@.len() == y,
            forall|r: int|
                0 <= r < y ==> (#[trigger] buffer@[r])@ == Seq::new(
                    WIDTH as nat,
                    |x: int| wallpaper_cell(r),
                ),
        decreases HEIGHT - y,
    {
        let cell = if START_BAR <= y && y < START_BAR + 3 {
            ScreenChar {
                ascii_character: 176 + ((y - START_BAR) as u8),
                color_code: ColorCode::new(FgColor::LightBlue, BgColor::Blue),
            }
        } else if START_BAR + 3 <= y {
            ScreenChar {
                ascii_character: 219,
                color_code: ColorCode::new(FgColor::LightBlue, BgColor::Blue),
            }
        } else {
            ScreenChar {
                ascii_character: 32,
                color_code: ColorCode::new(FgColor::White, BgColor::Blue),
            }
        };
        let mut row: Vec<ScreenChar> = Vec::new();
        let mut x: usize = 0;
        while x < WIDTH
            invariant
                x <= WIDTH,
                row@.len() == x,
                forall|k: int| 0 <= k < x ==> row@[k] == cell,
            decreases WIDTH - x,
        {
            row.push(cell);
            x = x + 1;
        }
        proof {
            assert(cell == wallpaper_cell(y as int));
            assert(row@ =~= Seq::new(WIDTH as nat, |x: int| wallpaper_cell(y as int)));
        }
        buffer.push(row);
        y = y + 1;
    }
    proof {
        assert(buffer@.map_values(|r: Vec<ScreenChar>| r@) =~~= wallpaper_grid());
    }
    buffer
}

/// The widgets a window can carry.
pub enum WidgetKind {
    Heading(Header),
    Text(String),
}

impl WidgetKind {
    pub open spec fn spec_padding(&self) -> Size {
        match self {
            WidgetKind::Heading(h) => h.spec_padding(),
            WidgetKind::Text(t) => t.spec_padding(),
        }
    }

    pub open spec fn renders_in(&self, container_size: Size) -> bool {
        match self {
            WidgetKind::Heading(h) => h.renders_in(container_size),
            WidgetKind::Text(t) => t.renders_in(container_size),
        }
    }

    pub open spec fn spec_buffer(&self, container_size: Size, bgcolor: BgColor) -> Seq<
        Seq<ScreenChar>,
    > {
        match self {
            WidgetKind::Heading(h) => h.spec_buffer(container_size, bgcolor),
            WidgetKind::Text(t) => t.spec_buffer(container_size, bgcolor),
        }
    }

    pub fn to_buffer(&self, container_size: Size, bgcolor: BgColor) -> (out: Vec<Vec<ScreenChar>>)
        requires
            self.renders_in(container_size),
        ensures
            out@.map_values(|r: Vec<ScreenChar>| r@) == self.spec_buffer(container_size, bgcolor),
    {
        match self {
            WidgetKind::Heading(h) => h.to_buffer(container_size, bgcolor),
            WidgetKind::Text(t) => t.to_buffer(container_size, bgcolor),
        }
    }

    pub fn get_padding(&self) -> (r: Size)
        ensures
            r == self.spec_padding(),
    {
        match self {
            WidgetKind::Heading(h) => h.get_padding(),
            WidgetKind::Text(t) => t.get_padding(),
        }
    }
}

/// A widget together with the container extent and vertical position it
/// was given when pushed.
pub struct SizedWidget {
    pub widget: WidgetKind,
    pub size: Size,
    pub y_pos: usize,
}

impl SizedWidget {
    pub fn new(widget: WidgetKind, width: usize, height: usize, y_pos: usize) -> (r: SizedWidget)
        ensures
            r.widget == widget,
            r.size == (Size { width, height }),
            r.y_pos == y_pos,
    {
        SizedWidget { widget, size: Size { width, height }, y_pos }
    }
}

/// The color body text is set in.
pub open spec fn text_color() -> ColorCode {
    ColorCode::spec_new(FgColor::Black, BgColor::LightGray)
}

/// `row` with `cells` overwritten, present, starting at column `x`.
pub open spec fn opt_overwrite(
    row: Seq<Option<ScreenChar>>,
    x: int,
    cells: Seq<ScreenChar>,
) -> Seq<Option<ScreenChar>> {
    Seq::new(row.len(), |i: int| if x <= i < x + cells.len() {
        Some(cells[i - x])
    } else {
        row[i]
    })
}

/// `g` with `cells` overwritten, present, in row `y` starting at `x`.
pub open spec fn opt_place_row(
    g: Seq<Seq<Option<ScreenChar>>>,
    y: int,
    x: int,
    cells: Seq<ScreenChar>,
) -> Seq<Seq<Option<ScreenChar>>> {
    g.update(y, opt_overwrite(g[y], x, cells))
}

/// A word rendered to body-text cells, with its trailing space.
pub open spec fn text_word_cells(w: Seq<char>) -> Seq<ScreenChar> {
    Seq::new(w.len() + 1, |i: int| if i < w.len() {
        char_cell(w[i], text_color())
    } else {
        ScreenChar { ascii_character: 32, color_code: text_color() }
    })
}

/// The words of a text wrapped into window contents: a word that would
/// pass `xmax` returns the cursor to column `x0` on the next line; there
/// is no lower bound on the rows, so the caller must know the text fits.
pub open spec fn wrapped_text(
    g: Seq<Seq<Option<ScreenChar>>>,
    words: Seq<Seq<char>>,
    x0: int,
    x: int,
    y: int,
    xmax: int,
) -> Seq<Seq<Option<ScreenChar>>>
    decreases words.len(),
{
    if words.len() == 0 {
        g
    } else {
        let w = words[0];
        let x1 = if x + w.len() > xmax {
            x0
        } else {
            x
        };
        let y1 = if x + w.len() > xmax {
            y + 1
        } else {
            y
        };
        wrapped_text(
            opt_place_row(g, y1, x1, text_word_cells(w)),
            words.drop_first(),
            x0,
            x1 + w.len() as int + 1,
            y1,
            xmax,
        )
    }
}

/// Whether wrapping `words` stays inside a grid of the given extent.
pub open spec fn text_fits(
    words: Seq<Seq<char>>,
    x0: int,
    x: int,
    y: int,
    xmax: int,
    rows: int,
    cols: int,
) -> bool
    decreases words.len(),
{
    if words.len() == 0 {
        true
    } else {
        let w = words[0];
        let x1 = if x + w.len() > xmax {
            x0
        } else {
            x
        };
        let y1 = if x + w.len() > xmax {
            y + 1
        } else {
            y
        };
        &&& 0 <= y1 < rows
        &&& 0 <= x1
        &&& x1 + w.len() + 1 <= cols
        &&& text_fits(words.drop_first(), x0, x1 + w.len() as int + 1, y1, xmax, rows, cols)
    }
}

/// A window: a frame of optional cells over the desktop, its name, its
/// position and extent, and the widgets stacked inside it.
pub struct Window {
    pub contents: Vec<Vec<Option<ScreenChar>>>,
    pub name: String,
    pub x_pos: usize,
    pub y_pos: usize,
    pub width: usize,
    pub height: usize,
    pub widgets: Vec<SizedWidget>,
    pub widget_height: usize,
    pub is_focused: bool,
}

impl Window {
    /// The window's cell grid as a mathematical value.
    pub open spec fn grid(self) -> Seq<Seq<Option<ScreenChar>>> {
        self.contents@.map_values(|r: Vec<Option<ScreenChar>>| r@)
    }

    /// The grid has its frame extent: one more row and column than the
    /// window's interior.
    pub open spec fn wf(self) -> bool {
        &&& self.contents@.len() == self.height + 1
        &&& forall|y: int|
            0 <= y < self.contents@.len() ==> (#[trigger] self.contents@[y])@.len() == self.width
                + 1
    }

    /// A fresh, unfocused window of the given interior extent, centered
    /// on screen, with no widgets yet.
    pub fn new(name: &str, width: usize, height: usize) -> (w: Window)
        requires
            width <= WIDTH,
            height <= HEIGHT,
        ensures
            w.wf(),
            w.grid() == border_grid(width as int, height as int, false),
            w.name@ == name@,
            w.x_pos == WIDTH / 2 - width / 2,
            w.y_pos == HEIGHT / 2 - height / 2,
            w.width == width,
            w.height == height,
            w.widgets@.len() == 0,
            w.widget_height == 0,
            !w.is_focused,
    {
        let mut contents: Vec<Vec<Option<ScreenChar>>> = Vec::new();
        let mut y: usize = 0;
        while y <= height
            invariant
                y <= height + 1,
                height <= HEIGHT,
                width <= WIDTH,
                contents@.len() == y,
                forall|r: int|
                    0 <= r < y ==> (#[trigger] contents@[r])@ == border_grid(
                        width as int,
                        height as int,
                        false,
                    )[r],
            decreases height + 1 - y,
        {
            let mut row: Vec<Option<ScreenChar>> = Vec::new();
            let mut x: usize = 0;
            while x <= width
                invariant
                    x <= width + 1,
                    width <= WIDTH,
                    row@.len() == x,
                    forall|k: int|
                        0 <= k < x ==> row@[k] == border_cell(
                            k,
                            y as int,
                            width as int,
                            height as int,
                            false,
                        ),
                decreases width + 1 - x,
            {
                row.push(window_with_borders(x, y, width, height, false));
                x = x + 1;
            }
            proof {
                assert(row@ =~= border_grid(width as int, height as int, false)[y as int]);
            }
            contents.push(row);
            y = y + 1;
        }
        let w = Window {
            contents,
            name: name.to_owned(),
            x_pos: WIDTH / 2 - width / 2,
            y_pos: HEIGHT / 2 - height / 2,
            width,
            height,
            widgets: Vec::new(),
            widget_height: 0,
            is_focused: false,
        };
        proof {
            assert(w.grid() =~~= border_grid(width as int, height as int, false));
        }
        w
    }

    /// Reserves one empty line in the widget stack.
    pub fn push_line(&mut self)
        requires
            old(self).widget_height < usize::MAX,
        ensures
            *final(self) == (Window { widget_height: (old(self).widget_height + 1) as usize, ..*old(self) }),
    {
        self.widget_height = self.widget_height + 1;
    }

    /// Stacks a widget at the current widget height, sized to the
    /// window's width, `height` rows plus the widget's own padding on
    /// both sides; the next widget starts one row before this one ends.
    pub fn push_widget(&mut self, widget: WidgetKind, height: usize)
        requires
            1 <= height,
            height + 2 * widget.spec_padding().height <= usize::MAX,
            old(self).widget_height + height <= usize::MAX,
        ensures
            final(self).widgets@ == old(self).widgets@.push(
                SizedWidget {
                    widget,
                    size: Size {
                        width: old(self).width,
                        height: (height + widget.spec_padding().height * 2) as usize,
                    },
                    y_pos: old(self).widget_height,
                },
            ),
            final(self).widget_height == old(self).widget_height + height - 1,
            *final(self) == (Window {
                widgets: final(self).widgets,
                widget_height: final(self).widget_height,
                ..*old(self)
            }),
    {
        let padding = widget.get_padding().height;
        let w = self.width;
        let sw = SizedWidget::new(widget, w, height + padding * 2, self.widget_height);
        self.widgets.push(sw);
        self.widget_height = self.widget_height + height - 1;
    }

    /// Overwrites one cell of the frame.
    pub fn set_char(&mut self, x: usize, y: usize, c: Option<ScreenChar>)
        requires
            y < old(self).contents@.len(),
            x < old(self).contents@[y as int]@.len(),
        ensures
            final(self).grid() == old(self).grid().update(
                y as int,
                old(self).grid()[y as int].update(x as int, c),
            ),
            *final(self) == (Window { contents: final(self).contents, ..*old(self) }),
    {
        self.contents[y][x] = c;
        proof {
            assert(final(self).grid() =~~= old(self).grid().update(
                y as int,
                old(self).grid()[y as int].update(x as int, c),
            ));
        }
    }

    /// Word-wraps `text` into the frame in body-text colors, starting at
    /// (`x`, `y`) and returning to column `x` at each wrap. The caller
    /// warrants that the wrapped text stays inside the frame.
    pub fn set_text(&mut self, text: &str, x: usize, y: usize, x_max: usize)
        requires
            old(self).wf(),
            x <= x_max,
            x_max <= old(self).width,
            text_fits(
                spec_words(text@),
                x as int,
                x as int,
                y as int,
                x_max as int,
                old(self).contents@.len() as int,
                old(self).contents@[0]@.len() as int,
            ),
        ensures
            final(self).wf(),
            final(self).grid() == wrapped_text(
                old(self).grid(),
                spec_words(text@),
                x as int,
                x as int,
                y as int,
                x_max as int,
            ),
            *final(self) == (Window { contents: final(self).contents, ..*old(self) }),
    {
        let rows = self.contents.len();
        let cols = self.contents[0].len();
        proof {
            assert(cols == self.width + 1);
        }
        let words = split_ascii_words(text);
        let ghost wviews = words@.map_values(|w: Vec<char>| w@);
        let nwords = words.len();
        let mut xp: usize = x;
        let mut yp: usize = y;
        let mut k: usize = 0;
        proof {
            assert(wviews.subrange(0, nwords as int) =~= wviews);
        }
        while k < nwords
            invariant
                k <= nwords,
                nwords == wviews.len(),
                wviews == spec_words(text@),
                words@.map_values(|w: Vec<char>| w@) == wviews,
                x <= x_max <= self.width,
                rows == self.contents@.len(),
                cols == self.width + 1,
                self.wf(),
                *self == (Window { contents: self.contents, ..*old(self) }),
                self.width == old(self).width,
                text_fits(
                    wviews.subrange(k as int, nwords as int),
                    x as int,
                    xp as int,
                    yp as int,
                    x_max as int,
                    rows as int,
                    cols as int,
                ),
                xp <= x_max + 1 + self.width,
                wrapped_text(
                    old(self).grid(),
                    wviews,
                    x as int,
                    x as int,
                    y as int,
                    x_max as int,
                ) == wrapped_text(
                    self.grid(),
                    wviews.subrange(k as int, nwords as int),
                    x as int,
                    xp as int,
                    yp as int,
                    x_max as int,
                ),
            decreases nwords - k,
        {
            let wlen = words[k].len();
            proof {
                assert(wviews.subrange(k as int, nwords as int)[0] == wviews[k as int]);
                assert(wviews[k as int] == words@[k as int]@);
            }
            let wrap = xp > x_max || wlen > x_max - xp;
            proof {
                if wrap {
                    assert(xp as int + wlen as int > x_max as int);
                } else {
                    assert(xp as int + wlen as int <= x_max as int);
                }
                assert(text_fits(
                    wviews.subrange(k as int, nwords as int),
                    x as int,
                    xp as int,
                    yp as int,
                    x_max as int,
                    rows as int,
                    cols as int,
                ));
            }
            if wrap {
                xp = x;
                yp = yp + 1;
            }
            proof {
                assert(yp < rows);
                assert(xp + wlen + 1 <= cols);
            }
            let ghost pre = self.grid();
            let ghost prew = *self;
            let x1 = xp;
            let mut j: usize = 0;
            while j < wlen
                invariant
                    j <= wlen,
                    yp < self.contents@.len(),
                    wlen == words@[k as int]@.len(),
                    k < words@.len(),
                    x1 + wlen + 1 <= cols,
                    cols == self.contents@[yp as int]@.len(),
                    self.contents@.len() == pre.len(),
                    *self == (Window { contents: self.contents, ..prew }),
                    forall|r: int|
                        0 <= r < pre.len() && r != yp ==> (#[trigger] self.grid()[r]) == pre[r],
                    self.grid()[yp as int].len() == pre[yp as int].len(),
                    forall|m: int|
                        0 <= m < j ==> self.grid()[yp as int][x1 + m] == Some(
                            char_cell(words@[k as int]@[m], text_color()),
                        ),
                    forall|m: int|
                        0 <= m < pre[yp as int].len() && !(x1 <= m < x1 + j)
                            ==> self.grid()[yp as int][m] == pre[yp as int][m],
                decreases wlen - j,
            {
                let c = words[k][j];
                let ghost gpre = self.grid();
                self.contents[yp][x1 + j] = Some(
                    ScreenChar {
                        ascii_character: #[verifier::truncate] ((c as u32) as u8),
                        color_code: ColorCode::new(FgColor::Black, BgColor::LightGray),
                    },
                );
                proof {
                    assert forall|r: int|
                        0 <= r < gpre.len() && r != yp implies #[trigger] self.grid()[r]
                            == gpre[r] by {}
                    assert(self.grid()[yp as int] =~= gpre[yp as int].update(
                        x1 + j,
                        Some(char_cell(words@[k as int]@[j as int], text_color())),
                    ));
                }
                j = j + 1;
            }
            let ghost gpre2 = self.grid();
            self.contents[yp][x1 + wlen] = Some(
                ScreenChar {
                    ascii_character: 32,
                    color_code: ColorCode::new(FgColor::Black, BgColor::LightGray),
                },
            );
            xp = x1 + wlen + 1;
            proof {
                assert forall|r: int|
                    0 <= r < gpre2.len() && r != yp implies #[trigger] self.grid()[r]
                        == gpre2[r] by {}
                assert(self.grid()[yp as int] =~= gpre2[yp as int].update(
                    x1 + wlen,
                    Some(ScreenChar { ascii_character: 32, color_code: text_color() }),
                ));
                assert forall|r: int|
                    0 <= r < pre.len() implies #[trigger] self.grid()[r] == opt_place_row(
                    pre,
                    yp as int,
                    x1 as int,
                    text_word_cells(wviews[k as int]),
                )[r] by {
                    if r == yp {
                        assert forall|m: int|
                            0 <= m < pre[yp as int].len() implies self.grid()[yp as int][m]
                                == opt_overwrite(
                                pre[yp as int],
                                x1 as int,
                                text_word_cells(wviews[k as int]),
                            )[m] by {
                            if x1 <= m < x1 + wlen {
                                let m2 = m - x1;
                                assert(self.grid()[yp as int][x1 + m2] == Some(
                                    char_cell(words@[k as int]@[m2], text_color()),
                                ));
                            } else if m == x1 + wlen {
                            } else {
                            }
                        }
                        assert(self.grid()[yp as int] =~= opt_overwrite(
                            pre[yp as int],
                            x1 as int,
                            text_word_cells(wviews[k as int]),
                        ));
                    }
                }
                assert(self.grid() =~~= opt_place_row(
                    pre,
                    yp as int,
                    x1 as int,
                    text_word_cells(wviews[k as int]),
                ));
                assert(wviews.subrange(k as int, nwords as int).drop_first() =~= wviews.subrange(
                    k + 1,
                    nwords as int,
                ));
                assert forall|r: int|
                    0 <= r < self.contents@.len() implies (#[trigger] self.contents@[r])@.len()
                        == self.width + 1 by {
                    assert(prew.contents@[r]@.len() == prew.width + 1);
                    assert(self.grid()[r].len() == pre[r].len());
                }
            }
            k = k + 1;
        }
        proof {
            assert(wviews.subrange(nwords as int, nwords as int).len() == 0);
            assert(*final(self) == (Window { contents: final(self).contents, ..*old(self) }));
        }
    }

    /// Moves the window's top-left corner.
    pub fn move_to(&mut self, x: usize, y: usize)
        ensures
            *final(self) == (Window { x_pos: x, y_pos: y, ..*old(self) }),
    {
        self.x_pos = x;
        self.y_pos = y;
    }

    /// Resets the frame to fresh border cells in the window's current
    /// focus color, discarding drawn widget cells.
    pub fn redraw_frame(&mut self)
        requires
            old(self).wf(),
        ensures
            final(self).wf(),
            final(self).grid() == border_grid(
                old(self).width as int,
                old(self).height as int,
                old(self).is_focused,
            ),
            *final(self) == (Window { contents: final(self).contents, ..*old(self) }),
    {
        let width = self.width;
        let height = self.height;
        let focused = self.is_focused;
        let rows = self.contents.len();
        let rowlen = self.contents[0].len();
        proof {
            assert(rows == height + 1);
            assert(rowlen == width + 1);
        }
        let mut contents: Vec<Vec<Option<ScreenChar>>> = Vec::new();
        let mut y: usize = 0;
        while y <= height
            invariant
                height + 1 == rows,
                width + 1 == rowlen,
                y <= height + 1,
                contents@.len() == y,
                forall|r: int|
                    0 <= r < y ==> (#[trigger] contents@[r])@ == border_grid(
                        width as int,
                        height as int,
                        focused,
                    )[r],
            decreases height + 1 - y,
        {
            let mut row: Vec<Option<ScreenChar>> = Vec::new();
            let mut x: usize = 0;
            while x <= width
                invariant
                    width + 1 == rowlen,
                    x <= width + 1,
                    y <= height,
                    height + 1 == rows,
                    row@.len() == x,
                    forall|k: int|
                        0 <= k < x ==> row@[k] == border_cell(
                            k,
                            y as int,
                            width as int,
                            height as int,
                            focused,
                        ),
                decreases width + 1 - x,
            {
                row.push(window_with_borders(x, y, width, height, focused));
                x = x + 1;
            }
            proof {
                assert(row@ =~= border_grid(width as int, height as int, focused)[y as int]);
            }
            contents.push(row);
            y = y + 1;
        }
        self.contents = contents;
        proof {
            assert(final(self).grid() =~~= border_grid(
                old(self).width as int,
                old(self).height as int,
                old(self).is_focused,
            ));
        }
    }
}

/// `g` with a block of rows overwritten, present, starting at (`y0`,
/// `x0`).
pub open spec fn place_rows(
    g: Seq<Seq<Option<ScreenChar>>>,
    y0: int,
    x0: int,
    rows: Seq<Seq<ScreenChar>>,
) -> Seq<Seq<Option<ScreenChar>>>
    decreases rows.len(),
{
    if rows.len() == 0 {
        g
    } else {
        place_rows(opt_place_row(g, y0, x0, rows[0]), y0 + 1, x0, rows.drop_first())
    }
}

/// The drawable area a stacked widget renders into: its container minus
/// its padding on both axes.
pub open spec fn widget_inner(sw: SizedWidget) -> Size {
    Size {
        width: (sw.size.width - sw.widget.spec_padding().width) as usize,
        height: (sw.size.height - sw.widget.spec_padding().height) as usize,
    }
}

/// A window frame after one stacked widget is drawn: the widget's
/// rendering lands at its stack position offset by its padding.
pub open spec fn drawn_widget(
    g: Seq<Seq<Option<ScreenChar>>>,
    sw: SizedWidget,
    focused: bool,
) -> Seq<Seq<Option<ScreenChar>>> {
    let pad = sw.widget.spec_padding();
    place_rows(
        g,
        sw.y_pos + pad.height,
        pad.width as int,
        sw.widget.spec_buffer(widget_inner(sw), window_bg(focused)),
    )
}

/// A window frame after every stacked widget is drawn, first to last.
pub open spec fn drawn_all(
    g: Seq<Seq<Option<ScreenChar>>>,
    widgets: Seq<SizedWidget>,
    focused: bool,
) -> Seq<Seq<Option<ScreenChar>>>
    decreases widgets.len(),
{
    if widgets.len() == 0 {
        g
    } else {
        drawn_all(drawn_widget(g, widgets[0], focused), widgets.drop_first(), focused)
    }
}

/// A widget's rendering has exactly its container's extent.
pub proof fn lemma_spec_buffer_dims(w: WidgetKind, container_size: Size, bgcolor: BgColor)
    requires
        w.renders_in(container_size),
    ensures
        w.spec_buffer(container_size, bgcolor).len() == container_size.height,
        forall|r: int|
            0 <= r < container_size.height ==> (#[trigger] w.spec_buffer(
                container_size,
                bgcolor,
            )[r]).len() == container_size.width,
{
    match w {
        WidgetKind::Heading(h) => {
            let base = filled_grid(
                ScreenChar {
                    ascii_character: 32,
                    color_code: ColorCode::spec_new(FgColor::Black, bgcolor),
                },
                container_size,
            );
            let res = w.spec_buffer(container_size, bgcolor);
            assert(res.len() == base.len());
            assert forall|r: int|
                0 <= r < container_size.height implies (#[trigger] res[r]).len()
                    == container_size.width by {
                assert(base[r].len() == container_size.width);
            }
        },
        WidgetKind::Text(t) => {
            let color = ColorCode::spec_new(FgColor::Black, bgcolor);
            let base = filled_grid(
                ScreenChar { ascii_character: 32, color_code: color },
                container_size,
            );
            lemma_wrapped_words_dims(
                base,
                spec_words(t@),
                0,
                0,
                container_size.width - 2,
                container_size.height - 2,
                color,
            );
            let res = w.spec_buffer(container_size, bgcolor);
            assert(res.len() == base.len());
            assert forall|r: int|
                0 <= r < container_size.height implies (#[trigger] res[r]).len()
                    == container_size.width by {
                assert(res[r].len() == base[r].len());
                assert(base[r].len() == container_size.width);
            }
        },
    }
}

/// Word wrapping never changes the grid's extent.
pub proof fn lemma_wrapped_words_dims(
    g: Seq<Seq<ScreenChar>>,
    words: Seq<Seq<char>>,
    x: int,
    y: int,
    xmax: int,
    ymax: int,
    color: ColorCode,
)
    requires
        0 <= y < ymax,
        ymax <= g.len(),
    ensures
        crate::widgets::wrapped_words(g, words, x, y, xmax, ymax, color).len() == g.len(),
        forall|r: int|
            0 <= r < g.len() ==> (#[trigger] crate::widgets::wrapped_words(
                g,
                words,
                x,
                y,
                xmax,
                ymax,
                color,
            )[r]).len() == g[r].len(),
    decreases words.len(),
{
    let res = crate::widgets::wrapped_words(g, words, x, y, xmax, ymax, color);
    if words.len() == 0 {
    } else {
        let w = words[0];
        let space = ScreenChar { ascii_character: 32, color_code: color };
        if x + w.len() > xmax && y + 1 >= ymax {
        } else {
            let x1: int = if x + w.len() > xmax {
                0
            } else {
                x
            };
            let y1: int = if x + w.len() > xmax {
                y + 1
            } else {
                y
            };
            let g1 = crate::widgets::place_row(
                g,
                y1,
                x1,
                crate::widgets::word_cells(w, color).push(space),
            );
            assert(g1.len() == g.len());
            assert forall|r: int| 0 <= r < g.len() implies (#[trigger] g1[r]).len()
                == g[r].len() by {
                if r == y1 {
                    assert(g1[r].len() == crate::widgets::overwrite(
                        g[y1],
                        x1,
                        crate::widgets::word_cells(w, color).push(space),
                    ).len());
                }
            }
            lemma_wrapped_words_dims(
                g1,
                words.drop_first(),
                x1 + w.len() as int + 1,
                y1,
                xmax,
                ymax,
                color,
            );
            let res1 = crate::widgets::wrapped_words(
                g1,
                words.drop_first(),
                x1 + w.len() as int + 1,
                y1,
                xmax,
                ymax,
                color,
            );
            assert(res == res1);
            assert forall|r: int| 0 <= r < g.len() implies (#[trigger] res[r]).len()
                == g[r].len() by {
                assert(res1[r].len() == g1[r].len());
                assert(g1[r].len() == g[r].len());
            }
        }
    }
}

impl Window {
    /// When stacked widget `i` can be drawn: its padding fits inside its
    /// container, the widget renders in what is left, and the rendering
    /// lands inside the frame.
    pub open spec fn widget_ok(self, i: int) -> bool {
        let sw = self.widgets@[i];
        let pad = sw.widget.spec_padding();
        &&& pad.width <= sw.size.width
        &&& pad.height <= sw.size.height
        &&& sw.widget.renders_in(widget_inner(sw))
        &&& sw.y_pos + pad.height + widget_inner(sw).height <= self.contents@.len()
        &&& pad.width + widget_inner(sw).width <= self.width + 1
    }

    /// Draws stacked widget `wnum` into the frame.
    pub fn draw_widget(&mut self, wnum: usize)
        requires
            old(self).wf(),
            wnum < old(self).widgets@.len(),
            old(self).widget_ok(wnum as int),
        ensures
            final(self).wf(),
            final(self).grid() == drawn_widget(
                old(self).grid(),
                old(self).widgets@[wnum as int],
                old(self).is_focused,
            ),
            *final(self) == (Window { contents: final(self).contents, ..*old(self) }),
    {
        let padding = self.widgets[wnum].widget.get_padding();
        let size = self.widgets[wnum].size;
        let inner = size.minus(padding);
        let bg = if self.is_focused {
            BgColor::LightGray
        } else {
            BgColor::DarkGray
        };
        let buf = self.widgets[wnum].widget.to_buffer(inner, bg);
        let ghost bviews = buf@.map_values(|r: Vec<ScreenChar>| r@);
        let y0 = self.widgets[wnum].y_pos + padding.height;
        let x0 = padding.width;
        proof {
            lemma_spec_buffer_dims(
                old(self).widgets@[wnum as int].widget,
                widget_inner(old(self).widgets@[wnum as int]),
                window_bg(old(self).is_focused),
            );
            assert(bviews.len() == inner.height);
            assert(forall|r: int| 0 <= r < bviews.len() ==> (#[trigger] bviews[r]).len() == inner.width);
        }
        let nrows = buf.len();
        let cols = self.contents[0].len();
        proof {
            assert(cols == self.width + 1);
            assert(bviews.subrange(0, nrows as int) =~= bviews);
        }
        let mut r: usize = 0;
        while r < nrows
            invariant
                r <= nrows,
                nrows == bviews.len(),
                y0 + nrows <= self.contents@.len(),
                x0 + inner.width <= cols,
                cols == self.width + 1,
                forall|k: int| 0 <= k < bviews.len() ==> (#[trigger] bviews[k]).len() == inner.width,
                buf@.map_values(|r2: Vec<ScreenChar>| r2@) == bviews,
                self.wf(),
                *self == (Window { contents: self.contents, ..*old(self) }),
                place_rows(old(self).grid(), y0 as int, x0 as int, bviews) == place_rows(
                    self.grid(),
                    y0 + r,
                    x0 as int,
                    bviews.subrange(r as int, nrows as int),
                ),
            decreases nrows - r,
        {
            let ghost pre = self.grid();
            let ghost prew = *self;
            let rowlen = buf[r].len();
            proof {
                assert(bviews[r as int] == buf@[r as int]@);
            }
            let mut c: usize = 0;
            while c < rowlen
                invariant
                    c <= rowlen,
                    r < nrows,
                    nrows == bviews.len(),
                    rowlen == buf@[r as int]@.len(),
                    rowlen == inner.width,
                    y0 + nrows <= self.contents@.len(),
                    x0 + inner.width <= cols,
                    cols == self.width + 1,
                    buf@.map_values(|r2: Vec<ScreenChar>| r2@) == bviews,
                    bviews[r as int] == buf@[r as int]@,
                    self.contents@.len() == pre.len(),
                    *self == (Window { contents: self.contents, ..prew }),
                    self.wf(),
                    forall|k: int|
                        0 <= k < pre.len() && k != y0 + r ==> (#[trigger] self.grid()[k]) == pre[k],
                    self.grid()[y0 + r].len() == pre[y0 + r].len(),
                    forall|m: int|
                        0 <= m < c ==> self.grid()[y0 + r][x0 + m] == Some(buf@[r as int]@[m]),
                    forall|m: int|
                        0 <= m < pre[y0 + r].len() && !(x0 <= m < x0 + c) ==> #[trigger] self.grid()[
                            y0 + r
                        ][m] == pre[y0 + r][m],
                decreases rowlen - c,
            {
                let cell = buf[r][c];
                let ghost gpre = self.grid();
                self.contents[y0 + r][x0 + c] = Some(cell);
                proof {
                    assert forall|k: int|
                        0 <= k < gpre.len() && k != y0 + r implies #[trigger] self.grid()[k]
                            == gpre[k] by {}
                    assert(self.grid()[y0 + r] =~= gpre[y0 + r].update(x0 + c, Some(cell)));
                }
                c = c + 1;
            }
            proof {
                assert forall|m: int|
                    0 <= m < pre[y0 + r].len() implies #[trigger] self.grid()[y0 + r][m]
                        == opt_overwrite(pre[y0 + r], x0 as int, bviews[r as int])[m] by {
                    if x0 <= m < x0 + rowlen {
                        let m2 = m - x0;
                        assert(self.grid()[y0 + r][x0 + m2] == Some(buf@[r as int]@[m2]));
                    }
                }
                assert(self.grid()[y0 + r] =~= opt_overwrite(pre[y0 + r], x0 as int, bviews[r as int]));
                assert(self.grid() =~~= opt_place_row(pre, y0 + r, x0 as int, bviews[r as int]));
                assert(bviews.subrange(r as int, nrows as int).drop_first() =~= bviews.subrange(
                    r + 1,
                    nrows as int,
                ));
                assert(bviews.subrange(r as int, nrows as int)[0] == bviews[r as int]);
            }
            r = r + 1;
        }
        proof {
            assert(bviews.subrange(nrows as int, nrows as int).len() == 0);
        }
    }
}

/// `buf` with a window's present cells overlaid at its position: the
/// title-bar row is never covered, and cells past the screen edge are
/// clipped.
pub open spec fn overlaid(
    buf: Seq<Seq<ScreenChar>>,
    g: Seq<Seq<Option<ScreenChar>>>,
    x_pos: int,
    y_pos: int,
) -> Seq<Seq<ScreenChar>> {
    Seq::new(
        buf.len(),
        |yy: int|
            Seq::new(
                buf[yy].len(),
                |xx: int|
                    if yy != 0 && y_pos <= yy < y_pos + g.len() && x_pos <= xx && xx - x_pos < g[yy
                        - y_pos].len() && g[yy - y_pos][xx - x_pos] is Some {
                        g[yy - y_pos][xx - x_pos]->0
                    } else {
                        buf[yy][xx]
                    },
            ),
    )
}

impl Window {
    /// Draws every stacked widget into the frame, then overlays the
    /// frame's present cells onto the screen buffer at the window's
    /// position, clipped to the screen and sparing the title-bar row.
    pub fn update_buffer(&mut self, vga_buffer: &mut Vec<Vec<ScreenChar>>)
        requires
            old(self).wf(),
            forall|i: int|
                0 <= i < old(self).widgets@.len() ==> old(self).widget_ok(i),
            old(self).y_pos + old(self).height < usize::MAX,
            old(self).x_pos + old(self).width < usize::MAX,
            old(vga_buffer)@.len() == HEIGHT,
            forall|y: int|
                0 <= y < HEIGHT ==> (#[trigger] old(vga_buffer)@[y])@.len() == WIDTH,
        ensures
            final(self).wf(),
            final(self).grid() == drawn_all(
                old(self).grid(),
                old(self).widgets@,
                old(self).is_focused,
            ),
            *final(self) == (Window { contents: final(self).contents, ..*old(self) }),
            final(vga_buffer)@.map_values(|r: Vec<ScreenChar>| r@) == overlaid(
                old(vga_buffer)@.map_values(|r: Vec<ScreenChar>| r@),
                final(self).grid(),
                old(self).x_pos as int,
                old(self).y_pos as int,
            ),
    {
        let nw = self.widgets.len();
        let mut i: usize = 0;
        proof {
            assert(old(self).widgets@.subrange(0, nw as int) =~= old(self).widgets@);
        }
        while i < nw
            invariant
                i <= nw,
                nw == old(self).widgets@.len(),
                old(self).wf(),
                self.wf(),
                *self == (Window { contents: self.contents, ..*old(self) }),
                forall|k: int| 0 <= k < nw ==> old(self).widget_ok(k),
                drawn_all(old(self).grid(), old(self).widgets@, old(self).is_focused) == drawn_all(
                    self.grid(),
                    old(self).widgets@.subrange(i as int, nw as int),
                    old(self).is_focused,
                ),
            decreases nw - i,
        {
            proof {
                assert(old(self).widgets@.subrange(i as int, nw as int)[0] == old(self).widgets@[
                    i as int]);
                assert(self.contents@.len() == self.height + 1);
                assert(old(self).contents@.len() == old(self).height + 1);
                assert(self.widget_ok(i as int) == old(self).widget_ok(i as int));
            }
            self.draw_widget(i);
            proof {
                assert(old(self).widgets@.subrange(i as int, nw as int).drop_first()
                    =~= old(self).widgets@.subrange(i + 1, nw as int));
            }
            i = i + 1;
        }
        proof {
            assert(old(self).widgets@.subrange(nw as int, nw as int).len() == 0);
        }
        let ghost g = self.grid();
        let ghost buf0 = vga_buffer@.map_values(|r: Vec<ScreenChar>| r@);
        let yend = self.y_pos + self.height;
        let xend = self.x_pos + self.width;
        let mut yy: usize = self.y_pos;
        while yy <= yend && yy < HEIGHT
            invariant
                self.wf(),
                g == self.grid(),
                self.y_pos <= yy,
                yend == self.y_pos + self.height,
                xend == self.x_pos + self.width,
                g.len() == self.height + 1,
                forall|r: int| 0 <= r < g.len() ==> (#[trigger] g[r]).len() == self.width + 1,
                vga_buffer@.len() == HEIGHT,
                forall|y: int|
                    0 <= y < HEIGHT ==> (#[trigger] vga_buffer@[y])@.len() == WIDTH,
                buf0.len() == HEIGHT,
                forall|y: int| 0 <= y < HEIGHT ==> (#[trigger] buf0[y]).len() == WIDTH,
                forall|y: int|
                    0 <= y < HEIGHT && !(self.y_pos <= y < yy) ==> (#[trigger] vga_buffer@[y])@
                        == buf0[y],
                forall|y: int|
                    self.y_pos <= y < yy && 0 <= y < HEIGHT ==> (#[trigger] vga_buffer@[y])@
                        == overlaid(buf0, g, self.x_pos as int, self.y_pos as int)[y],
            decreases HEIGHT - yy,
        {
            if yy != 0 {
                let mut xx: usize = self.x_pos;
                let ghost rowpre = vga_buffer@[yy as int]@;
                while xx <= xend && xx < WIDTH
                    invariant
                        self.wf(),
                        g == self.grid(),
                        self.x_pos <= xx,
                        self.y_pos <= yy,
                        yy <= yend,
                        yy < HEIGHT,
                        yy != 0,
                        yend == self.y_pos + self.height,
                        xend == self.x_pos + self.width,
                        g.len() == self.height + 1,
                        forall|r: int|
                            0 <= r < g.len() ==> (#[trigger] g[r]).len() == self.width + 1,
                        vga_buffer@.len() == HEIGHT,
                        forall|y: int|
                            0 <= y < HEIGHT ==> (#[trigger] vga_buffer@[y])@.len() == WIDTH,
                        buf0.len() == HEIGHT,
                        forall|y: int| 0 <= y < HEIGHT ==> (#[trigger] buf0[y]).len() == WIDTH,
                        forall|y: int|
                            0 <= y < HEIGHT && y != yy ==> (#[trigger] vga_buffer@[y])@
                                == outer_row(y, buf0, g, self.x_pos as int, self.y_pos as int, yy as int),
                        forall|x: int|
                            0 <= x < WIDTH && !(self.x_pos <= x < xx) ==> vga_buffer@[yy as int]@[x]
                                == rowpre[x],
                        rowpre == buf0[yy as int],
                        rowpre.len() == WIDTH,
                        forall|x: int|
                            self.x_pos <= x < xx && x < WIDTH ==> vga_buffer@[yy as int]@[x]
                                == overlaid(buf0, g, self.x_pos as int, self.y_pos as int)[yy as int][x],
                    decreases WIDTH - xx,
                {
                    let target = self.contents[yy - self.y_pos][xx - self.x_pos];
                    proof {
                        assert(g[yy - self.y_pos][xx - self.x_pos] == target);
                    }
                    if let Some(ch) = target {
                        let ghost bpre = vga_buffer@;
                        vga_buffer[yy][xx] = ch;
                        proof {
                            assert forall|y: int|
                                0 <= y < HEIGHT && y != yy implies #[trigger] vga_buffer@[y]@
                                    == bpre[y]@ by {}
                            assert(vga_buffer@[yy as int]@ =~= bpre[yy as int]@.update(
                                xx as int,
                                ch,
                            ));
                        }
                    }
                    proof {
                        assert(overlaid(buf0, g, self.x_pos as int, self.y_pos as int)[yy as int][
                            xx as int] == if g[yy - self.y_pos][xx - self.x_pos] is Some {
                            g[yy - self.y_pos][xx - self.x_pos]->0
                        } else {
                            buf0[yy as int][xx as int]
                        });
                        assert(vga_buffer@[yy as int]@[xx as int] == overlaid(
                            buf0,
                            g,
                            self.x_pos as int,
                            self.y_pos as int,
                        )[yy as int][xx as int]);
                    }
                    xx = xx + 1;
                }
                proof {
                    assert(vga_buffer@[yy as int]@ =~= overlaid(
                        buf0,
                        g,
                        self.x_pos as int,
                        self.y_pos as int,
                    )[yy as int]);
                }
            } else {
                proof {
                    assert(vga_buffer@[yy as int]@ =~= overlaid(
                        buf0,
                        g,
                        self.x_pos as int,
                        self.y_pos as int,
                    )[yy as int]);
                }
            }
            yy = yy + 1;
        }
        proof {
            assert forall|y: int|
                0 <= y < HEIGHT implies #[trigger] vga_buffer@[y]@ == overlaid(
                buf0,
                g,
                self.x_pos as int,
                self.y_pos as int,
            )[y] by {
                if !(self.y_pos <= y < yy) {
                    assert(vga_buffer@[y]@ == buf0[y]);
                    assert forall|x: int|
                        0 <= x < WIDTH implies overlaid(
                        buf0,
                        g,
                        self.x_pos as int,
                        self.y_pos as int,
                    )[y][x] == buf0[y][x] by {}
                    assert(overlaid(buf0, g, self.x_pos as int, self.y_pos as int)[y] =~= buf0[y]);
                }
            }
            assert(vga_buffer@.map_values(|r: Vec<ScreenChar>| r@) =~~= overlaid(
                buf0,
                g,
                self.x_pos as int,
                self.y_pos as int,
            ));
        }
    }
}

/// The value row `y` of the buffer holds while row `yy` is being
/// overlaid: already-finished rows show the overlay, untouched rows what
/// was there before.
pub open spec fn outer_row(
    y: int,
    buf0: Seq<Seq<ScreenChar>>,
    g: Seq<Seq<Option<ScreenChar>>>,
    x_pos: int,
    y_pos: int,
    yy: int,
) -> Seq<ScreenChar> {
    if y_pos <= y < yy {
        overlaid(buf0, g, x_pos, y_pos)[y]
    } else {
        buf0[y]
    }
}

/// A screen coordinate pair.
pub struct Position {
    pub x: usize,
    pub y: usize,
}

/// A focus-movement direction.
#[derive(Copy, Clone, PartialEq, Eq, Structural, Debug)]
pub enum Direction {
    Left,
    Right,
    Up,
    Down,
}

/// An axis a window is nudged along.
#[derive(Copy, Clone, PartialEq, Eq, Structural, Debug)]
pub enum Axis {
    X,
    Y,
}

/// A blank title-bar cell.
pub open spec fn title_cell() -> ScreenChar {
    ScreenChar {
        ascii_character: 32,
        color_code: ColorCode::spec_new(FgColor::White, BgColor::Black),
    }
}

/// The empty desktop screen: a black title-bar row over the wallpaper.
pub open spec fn desktop_base() -> Seq<Seq<ScreenChar>> {
    Seq::new(HEIGHT as nat, |y: int| if y == 0 {
        Seq::new(WIDTH as nat, |x: int| title_cell())
    } else {
        wallpaper_grid()[y]
    })
}

/// The title-bar row showing `name`: its characters in white on black,
/// blank to the right.
pub open spec fn title_row(name: Seq<char>) -> Seq<ScreenChar> {
    Seq::new(WIDTH as nat, |x: int| if 0 <= x < name.len() {
        char_cell(name[x], ColorCode::spec_new(FgColor::White, BgColor::Black))
    } else {
        title_cell()
    })
}

fn base_screen() -> (buffer: Vec<Vec<ScreenChar>>)
    ensures
        buffer@.map_values(|r: Vec<ScreenChar>| r@) == desktop_base(),
{
    let mut buffer = gradient_wallpaper();
    let mut row: Vec<ScreenChar> = Vec::new();
    let mut x: usize = 0;
    while x < WIDTH
        invariant
            x <= WIDTH,
            row@.len() == x,
            forall|k: int| 0 <= k < x ==> row@[k] == title_cell(),
        decreases WIDTH - x,
    {
        row.push(ScreenChar {
            ascii_character: 32,
            color_code: ColorCode::new(FgColor::White, BgColor::Black),
        });
        x = x + 1;
    }
    proof {
        assert(row@ =~= Seq::new(WIDTH as nat, |x: int| title_cell()));
        assert(buffer@.map_values(|r: Vec<ScreenChar>| r@).len() == buffer@.len());
    }
    buffer[0] = row;
    proof {
        assert(buffer@.map_values(|r: Vec<ScreenChar>| r@) =~~= desktop_base());
    }
    buffer
}

/// Whether `w` lies on the `d` side of `a` (ties included): the direction
/// filter for focus movement.
pub open spec fn dir_ok(w: Window, a: Window, d: Direction) -> bool {
    match d {
        Direction::Up => w.y_pos <= a.y_pos,
        Direction::Down => w.y_pos >= a.y_pos,
        Direction::Left => w.x_pos <= a.x_pos,
        Direction::Right => w.x_pos >= a.x_pos,
    }
}

/// The squared distance between two windows' corners; ordering by it
/// agrees with ordering by the distance itself.
pub open spec fn dist2(w: Window, a: Window) -> int {
    (w.x_pos - a.x_pos) * (w.x_pos - a.x_pos) + (w.y_pos - a.y_pos) * (w.y_pos - a.y_pos)
}

/// The desktop: the composed screen, the windows on it, and which one
/// holds focus.
pub struct Desktop {
    pub buffer: Vec<Vec<ScreenChar>>,
    pub windows: Vec<Window>,
    pub active_window: Option<usize>,
}

impl Desktop {
    /// The composed screen as a mathematical value.
    pub open spec fn screen(self) -> Seq<Seq<ScreenChar>> {
        self.buffer@.map_values(|r: Vec<ScreenChar>| r@)
    }

    pub open spec fn wf(self) -> bool {
        &&& self.buffer@.len() == HEIGHT
        &&& forall|y: int| 0 <= y < HEIGHT ==> (#[trigger] self.buffer@[y])@.len() == WIDTH
        &&& forall|i: int| 0 <= i < self.windows@.len() ==> (#[trigger] self.windows@[i]).wf()
        &&& match self.active_window {
            Some(a) => a < self.windows@.len(),
            None => true,
        }
    }

    /// Every window's corner lies on screen, so distance arithmetic stays
    /// small.
    pub open spec fn positions_bounded(self) -> bool {
        forall|i: int|
            0 <= i < self.windows@.len() ==> (#[trigger] self.windows@[i]).x_pos <= WIDTH && self.windows@[i].y_pos
                <= HEIGHT
    }

    /// Whether window `i` passes the direction filter from active window
    /// `a`.
    pub open spec fn is_candidate(self, a: int, i: int, d: Direction) -> bool {
        0 <= i < self.windows@.len() && i != a && dir_ok(self.windows@[i], self.windows@[a], d)
    }

    /// An empty desktop: the base screen, no windows, nothing focused.
    pub fn new() -> (d: Desktop)
        ensures
            d.wf(),
            d.screen() == desktop_base(),
            d.windows@.len() == 0,
            d.active_window is None,
    {
        let d = Desktop { buffer: base_screen(), windows: Vec::new(), active_window: None };
        proof {
            assert(d.screen().len() == HEIGHT);
            assert(forall|y: int|
                0 <= y < HEIGHT ==> (#[trigger] d.buffer@[y])@ == desktop_base()[y]);
        }
        d
    }

    /// Redraws window `window_num` and overlays it onto the screen.
    pub fn update_window(&mut self, window_num: usize)
        requires
            old(self).wf(),
            window_num < old(self).windows@.len(),
            forall|i: int|
                0 <= i < old(self).windows@[window_num as int].widgets@.len() ==> old(
                    self,
                ).windows@[window_num as int].widget_ok(i),
            old(self).windows@[window_num as int].y_pos + old(self).windows@[
                window_num as int].height < usize::MAX,
            old(self).windows@[window_num as int].x_pos + old(self).windows@[
                window_num as int].width < usize::MAX,
        ensures
            final(self).wf(),
            final(self).windows@ == old(self).windows@.update(
                window_num as int,
                final(self).windows@[window_num as int],
            ),
            final(self).windows@[window_num as int].grid() == drawn_all(
                old(self).windows@[window_num as int].grid(),
                old(self).windows@[window_num as int].widgets@,
                old(self).windows@[window_num as int].is_focused,
            ),
            final(self).windows@[window_num as int] == (Window {
                contents: final(self).windows@[window_num as int].contents,
                ..old(self).windows@[window_num as int]
            }),
            final(self).screen() == overlaid(
                old(self).screen(),
                final(self).windows@[window_num as int].grid(),
                old(self).windows@[window_num as int].x_pos as int,
                old(self).windows@[window_num as int].y_pos as int,
            ),
            final(self).active_window == old(self).active_window,
    {
        self.windows[window_num].update_buffer(&mut self.buffer);
        proof {
            assert(final(self).windows@ =~= old(self).windows@.update(
                window_num as int,
                final(self).windows@[window_num as int],
            ));
            let ov = overlaid(
                old(self).screen(),
                final(self).windows@[window_num as int].grid(),
                old(self).windows@[window_num as int].x_pos as int,
                old(self).windows@[window_num as int].y_pos as int,
            );
            let fb = final(self).buffer@;
            let ob = old(self).buffer@;
            assert(fb.map_values(|r: Vec<ScreenChar>| r@).len() == fb.len());
            assert(ob.map_values(|r: Vec<ScreenChar>| r@).len() == ob.len());
            assert(final(self).buffer@.len() == HEIGHT);
            assert forall|y: int|
                0 <= y < HEIGHT implies (#[trigger] final(self).buffer@[y])@.len() == WIDTH by {
                assert(final(self).buffer@[y]@ == ov[y]);
                assert(old(self).buffer@[y]@.len() == WIDTH);
            }
        }
    }

    /// Appends a window and gives it focus; its index is returned.
    pub fn push_window(&mut self, window: Window) -> (r: usize)
        requires
            old(self).wf(),
            window.wf(),
            window.name@.len() <= WIDTH,
        ensures
            final(self).wf(),
            r == old(self).windows@.len(),
            final(self).windows@.len() == old(self).windows@.len() + 1,
            final(self).active_window == Some(r),
            final(self).windows@[r as int] == (Window { is_focused: true, ..window }),
            forall|j: int|
                0 <= j < old(self).windows@.len() && old(self).active_window != Some(j as usize)
                    ==> final(self).windows@[j] == old(self).windows@[j],
            match old(self).active_window {
                Some(a) => a as int == r as int || final(self).windows@[a as int] == (Window {
                    is_focused: false,
                    ..old(self).windows@[a as int]
                }),
                None => true,
            },
            forall|y: int|
                1 <= y < HEIGHT ==> final(self).screen()[y] == old(self).screen()[y],
            final(self).screen()[0] == title_row(window.name@),
    {
        self.windows.push(window);
        let r = self.windows.len() - 1;
        self.focus(r);
        r
    }

    /// Copies the composed screen into the writer's grid, which a native
    /// build maps onto the hardware buffer.
    pub fn display(&self, w: &mut Writer)
        requires
            self.wf(),
            old(w)@.wf(),
        ensures
            final(w)@.col == old(w)@.col,
            final(w)@.color == old(w)@.color,
            final(w)@.screen == self.screen(),
            final(w)@.wf(),
    {
        let mut chars: Vec<Vec<ScreenChar>> = Vec::new();
        let mut y: usize = 0;
        while y < HEIGHT
            invariant
                self.wf(),
                y <= HEIGHT,
                chars@.len() == y,
                forall|r: int| 0 <= r < y ==> (#[trigger] chars@[r])@ == self.screen()[r],
            decreases HEIGHT - y,
        {
            let mut row: Vec<ScreenChar> = Vec::new();
            let mut x: usize = 0;
            while x < WIDTH
                invariant
                    self.wf(),
                    y < HEIGHT,
                    x <= WIDTH,
                    row@.len() == x,
                    forall|k: int| 0 <= k < x ==> row@[k] == self.screen()[y as int][k],
                decreases WIDTH - x,
            {
                row.push(self.buffer[y][x]);
                x = x + 1;
            }
            proof {
                assert(row@ =~= self.screen()[y as int]);
            }
            chars.push(row);
            y = y + 1;
        }
        w.buffer = crate::vga::Buffer { chars };
        proof {
            assert(final(w)@.screen =~~= self.screen());
        }
    }

    /// Moves focus to window `window_num`: the previously focused window
    /// is unfocused, and the title bar shows the newly focused window's
    /// name.
    pub fn focus(&mut self, window_num: usize)
        requires
            old(self).wf(),
            window_num < old(self).windows@.len(),
            old(self).windows@[window_num as int].name@.len() <= WIDTH,
        ensures
            final(self).wf(),
            final(self).active_window == Some(window_num),
            final(self).windows@.len() == old(self).windows@.len(),
            final(self).windows@[window_num as int] == (Window {
                is_focused: true,
                ..old(self).windows@[window_num as int]
            }),
            forall|j: int|
                0 <= j < old(self).windows@.len() && j != window_num && old(self).active_window
                    != Some(j as usize) ==> final(self).windows@[j] == old(self).windows@[j],
            match old(self).active_window {
                Some(a) => a as int == window_num as int || final(self).windows@[a as int]
                    == (Window { is_focused: false, ..old(self).windows@[a as int] }),
                None => true,
            },
            forall|y: int|
                1 <= y < HEIGHT ==> final(self).screen()[y] == old(self).screen()[y],
            final(self).screen()[0] == title_row(old(self).windows@[window_num as int].name@),
    {
        if let Some(a) = self.active_window {
            self.windows[a].is_focused = false;
        }
        self.active_window = Some(window_num);
        let ghost mid = *self;
        let mut x: usize = 0;
        while x < WIDTH
            invariant
                mid.wf(),
                x <= WIDTH,
                *self == (Desktop { buffer: self.buffer, ..mid }),
                self.buffer@.len() == HEIGHT,
                forall|y: int|
                    1 <= y < HEIGHT ==> (#[trigger] self.buffer@[y]) == mid.buffer@[y],
                self.buffer@[0]@.len() == WIDTH,
                forall|k: int| 0 <= k < x ==> self.buffer@[0]@[k] == title_cell(),
                forall|k: int| x <= k < WIDTH ==> self.buffer@[0]@[k] == mid.buffer@[0]@[k],
            decreases WIDTH - x,
        {
            let ghost pre = self.buffer@;
            self.buffer[0][x] = ScreenChar {
                ascii_character: 32,
                color_code: ColorCode::new(FgColor::White, BgColor::Black),
            };
            proof {
                assert forall|y: int|
                    1 <= y < HEIGHT implies #[trigger] self.buffer@[y] == pre[y] by {}
                assert(self.buffer@[0]@ =~= pre[0]@.update(x as int, title_cell()));
            }
            x = x + 1;
        }
        let name_len = self.windows[window_num].name.as_str().unicode_len();
        let ghost mid2 = *self;
        let mut i: usize = 0;
        while i < name_len
            invariant
                mid2.wf(),
                window_num < mid2.windows@.len(),
                i <= name_len,
                name_len == mid2.windows@[window_num as int].name@.len(),
                name_len <= WIDTH,
                *self == (Desktop { buffer: self.buffer, ..mid2 }),
                self.buffer@.len() == HEIGHT,
                forall|y: int|
                    1 <= y < HEIGHT ==> (#[trigger] self.buffer@[y]) == mid2.buffer@[y],
                self.buffer@[0]@.len() == WIDTH,
                forall|k: int|
                    0 <= k < i ==> self.buffer@[0]@[k] == char_cell(
                        mid2.windows@[window_num as int].name@[k],
                        ColorCode::spec_new(FgColor::White, BgColor::Black),
                    ),
                forall|k: int| i <= k < WIDTH ==> self.buffer@[0]@[k] == mid2.buffer@[0]@[k],
                forall|k: int| 0 <= k < WIDTH ==> mid2.buffer@[0]@[k] == title_cell(),
            decreases name_len - i,
        {
            let c = self.windows[window_num].name.as_str().get_char(i);
            let ghost pre = self.buffer@;
            self.buffer[0][i] = ScreenChar {
                ascii_character: #[verifier::truncate] ((c as u32) as u8),
                color_code: ColorCode::new(FgColor::White, BgColor::Black),
            };
            proof {
                assert forall|y: int|
                    1 <= y < HEIGHT implies #[trigger] self.buffer@[y] == pre[y] by {}
                assert(self.buffer@[0]@ =~= pre[0]@.update(
                    i as int,
                    char_cell(
                        mid2.windows@[window_num as int].name@[i as int],
                        ColorCode::spec_new(FgColor::White, BgColor::Black),
                    ),
                ));
            }
            i = i + 1;
        }
        let ghost bufsnap = self.buffer@;
        self.windows[window_num].is_focused = true;
        proof {
            assert(final(self).buffer@ == bufsnap);
            assert(final(self).screen()[0] == final(self).buffer@[0]@);
            assert forall|k: int|
                0 <= k < WIDTH implies bufsnap[0]@[k] == title_row(
                old(self).windows@[window_num as int].name@,
            )[k] by {
                if k < old(self).windows@[window_num as int].name@.len() {
                } else {
                    assert(bufsnap[0]@[k] == mid2.buffer@[0]@[k]);
                    assert(mid2.buffer@[0]@[k] == title_cell());
                }
            }
            assert(final(self).buffer@[0]@ =~= title_row(
                old(self).windows@[window_num as int].name@,
            ));
            assert forall|y: int|
                1 <= y < HEIGHT implies final(self).screen()[y] == old(self).screen()[y] by {
                assert(final(self).buffer@[y] == mid2.buffer@[y]);
                assert(mid2.buffer@[y] == mid.buffer@[y]);
                assert(mid.buffer@[y] == old(self).buffer@[y]);
            }
            assert(final(self).windows@[window_num as int] == (Window {
                is_focused: true,
                ..old(self).windows@[window_num as int]
            }));
        }
    }

    /// The window focus moves to in `direction`: the nearest window on
    /// that side of the active one (ties to the lowest index), the next
    /// index cyclically when no window lies that way, and the first
    /// window when nothing is focused.
    pub fn find_window_in_direction(&self, direction: Direction) -> (r: usize)
        requires
            self.wf(),
            self.windows@.len() > 0,
            self.positions_bounded(),
        ensures
            r < self.windows@.len(),
            match self.active_window {
                None => r == 0,
                Some(a) => {
                    if exists|j: int| self.is_candidate(a as int, j, direction) {
                        self.is_candidate(a as int, r as int, direction) && forall|j: int|
                            self.is_candidate(a as int, j, direction) ==> dist2(
                                self.windows@[r as int],
                                self.windows@[a as int],
                            ) < dist2(self.windows@[j], self.windows@[a as int]) || (dist2(
                                self.windows@[r as int],
                                self.windows@[a as int],
                            ) == dist2(self.windows@[j], self.windows@[a as int]) && r <= j)
                    } else {
                        r == ((a + 1) % (self.windows@.len() as int))
                    }
                },
            },
    {
        let a = match self.active_window {
            None => {
                return 0;
            },
            Some(a) => a,
        };
        let len = self.windows.len();
        let ax = self.windows[a].x_pos;
        let ay = self.windows[a].y_pos;
        let mut found = false;
        let mut best_i: usize = 0;
        let mut best_d: usize = 0;
        let mut i: usize = 0;
        while i < len
            invariant
                self.wf(),
                self.positions_bounded(),
                self.active_window == Some(a),
                a < len,
                len == self.windows@.len(),
                ax == self.windows@[a as int].x_pos,
                ay == self.windows@[a as int].y_pos,
                i <= len,
                !found ==> forall|j: int| 0 <= j < i ==> !self.is_candidate(a as int, j, direction),
                found ==> best_i < i && self.is_candidate(a as int, best_i as int, direction)
                    && best_d == dist2(self.windows@[best_i as int], self.windows@[a as int])
                    && forall|j: int|
                    0 <= j < i && self.is_candidate(a as int, j, direction) ==> best_d < dist2(
                        self.windows@[j],
                        self.windows@[a as int],
                    ) || (best_d == dist2(self.windows@[j], self.windows@[a as int]) && best_i
                        <= j),
            decreases len - i,
        {
            let keep = if i == a {
                false
            } else {
                let w = &self.windows[i];
                match direction {
                    Direction::Up => w.y_pos <= ay,
                    Direction::Down => w.y_pos >= ay,
                    Direction::Left => w.x_pos <= ax,
                    Direction::Right => w.x_pos >= ax,
                }
            };
            if keep {
                let wx = self.windows[i].x_pos;
                let wy = self.windows[i].y_pos;
                let dx = if wx >= ax {
                    wx - ax
                } else {
                    ax - wx
                };
                let dy = if wy >= ay {
                    wy - ay
                } else {
                    ay - wy
                };
                proof {
                    assert(self.windows@[i as int].x_pos <= WIDTH);
                    assert(self.windows@[i as int].y_pos <= HEIGHT);
                    assert(self.windows@[a as int].x_pos <= WIDTH);
                    assert(self.windows@[a as int].y_pos <= HEIGHT);
                }
                proof {
                    assert(dx <= WIDTH && dy <= HEIGHT);
                    assert(dx * dx + dy * dy <= 7025) by (nonlinear_arith)
                        requires
                            dx <= 80,
                            dy <= 25,
                    ;
                }
                let d = dx * dx + dy * dy;
                proof {
                    assert((wx - ax) * (wx - ax) == dx * dx && (wy - ay) * (wy - ay) == dy * dy)
                        by (nonlinear_arith)
                        requires
                            dx == (if wx >= ax { wx - ax } else { ax - wx }),
                            dy == (if wy >= ay { wy - ay } else { ay - wy }),
                    ;
                    assert(d == dist2(self.windows@[i as int], self.windows@[a as int]));
                }
                if !found || d < best_d {
                    found = true;
                    best_i = i;
                    best_d = d;
                }
            }
            i = i + 1;
        }
        if found {
            best_i
        } else {
            (a + 1) % len
        }
    }

}

/// What one focus move in `direction` leaves of the desktop: the newly
/// active window is the one the direction rule selects — the nearest
/// window on that side of the previously active one by squared distance,
/// the lowest index on ties, the next index cyclically when no window
/// lies that way, and the first window when nothing was focused. It ends
/// focused; every window keeps everything but its focus flag; the rows
/// below the title bar are untouched and the title bar shows the new
/// active window's name.
pub open spec fn focus_moved(before: Desktop, after: Desktop, direction: Direction) -> bool {
    &&& after.active_window is Some
    &&& after.windows@.len() == before.windows@.len()
    &&& after.windows@[after.active_window->0 as int].is_focused
    &&& forall|j: int|
        0 <= j < before.windows@.len() ==> after.windows@[j] == (Window {
            is_focused: after.windows@[j].is_focused,
            ..before.windows@[j]
        })
    &&& forall|y: int| 1 <= y < HEIGHT ==> after.screen()[y] == before.screen()[y]
    &&& after.screen()[0] == title_row(
        before.windows@[after.active_window->0 as int].name@,
    )
    &&& ({
        let t = after.active_window->0 as int;
        match before.active_window {
            None => t == 0,
            Some(a) => {
                if exists|j: int| before.is_candidate(a as int, j, direction) {
                    before.is_candidate(a as int, t, direction) && forall|j: int|
                        before.is_candidate(a as int, j, direction) ==> dist2(
                            before.windows@[t],
                            before.windows@[a as int],
                        ) < dist2(before.windows@[j], before.windows@[a as int]) || (dist2(
                            before.windows@[t],
                            before.windows@[a as int],
                        ) == dist2(before.windows@[j], before.windows@[a as int]) && t <= j)
                } else {
                    t == ((a + 1) % (before.windows@.len() as int))
                }
            },
        }
    })
}

impl Desktop {
    /// Moves focus in `direction`: to the nearest window on that side of
    /// the active one (ties to the lowest index), cyclically to the next
    /// index when no window lies that way, and to the first window when
    /// nothing was focused. Every window keeps its place, extent, name
    /// and widgets; only focus flags and the title bar change.
    pub fn change_focus(&mut self, direction: Direction)
        requires
            old(self).wf(),
            old(self).windows@.len() > 0,
            old(self).positions_bounded(),
            forall|i: int|
                0 <= i < old(self).windows@.len() ==> (#[trigger] old(self).windows@[i]).name@.len()
                    <= WIDTH,
        ensures
            final(self).wf(),
            focus_moved(*old(self), *final(self), direction),
    {
        let len = self.windows.len();
        let window = self.find_window_in_direction(direction);
        self.active_window = Some(window);
        let ghost mid = *self;
        self.focus(window);
        proof {
            assert forall|j: int|
                0 <= j < old(self).windows@.len() implies final(self).windows@[j] == (Window {
                is_focused: final(self).windows@[j].is_focused,
                ..old(self).windows@[j]
            }) by {
                if j != window {
                    assert(j < len as int);
                    assert((j as usize) as int == j);
                    assert(mid.active_window != Some(j as usize));
                    assert(final(self).windows@[j] == mid.windows@[j]);
                }
            }
        }
    }

    /// Renames a window.
    pub fn set_title(&mut self, window: usize, title: &str)
        requires
            window < old(self).windows@.len(),
        ensures
            final(self).windows@ == old(self).windows@.update(
                window as int,
                (Window {
                    name: final(self).windows@[window as int].name,
                    ..old(self).windows@[window as int]
                }),
            ),
            final(self).windows@[window as int].name@ == title@,
            *final(self) == (Desktop { windows: final(self).windows, ..*old(self) }),
    {
        self.windows[window].name = title.to_owned();
        proof {
            assert(final(self).windows@ =~= old(self).windows@.update(
                window as int,
                final(self).windows@[window as int],
            ));
        }
    }

    /// Moves a window's top-left corner.
    pub fn move_window(&mut self, window: usize, x: usize, y: usize)
        requires
            window < old(self).windows@.len(),
        ensures
            final(self).windows@ == old(self).windows@.update(
                window as int,
                (Window { x_pos: x, y_pos: y, ..old(self).windows@[window as int] }),
            ),
            *final(self) == (Desktop { windows: final(self).windows, ..*old(self) }),
    {
        self.windows[window].move_to(x, y);
        proof {
            assert(final(self).windows@ =~= old(self).windows@.update(
                window as int,
                (Window { x_pos: x, y_pos: y, ..old(self).windows@[window as int] }),
            ));
        }
    }

    /// A window's current position.
    pub fn get_window_position(&self, window: usize) -> (r: Position)
        requires
            window < self.windows@.len(),
        ensures
            r.x == self.windows@[window as int].x_pos,
            r.y == self.windows@[window as int].y_pos,
    {
        Position { x: self.windows[window].x_pos, y: self.windows[window].y_pos }
    }

    /// Nudges a window by `amount` along `axis`; a nudge that would push
    /// it past the screen's origin is ignored.
    pub fn budge_window(&mut self, window: usize, axis: Axis, amount: isize)
        requires
            window < old(self).windows@.len(),
            old(self).windows@[window as int].x_pos + amount <= isize::MAX,
            old(self).windows@[window as int].y_pos + amount <= isize::MAX,
            old(self).windows@[window as int].x_pos <= isize::MAX,
            old(self).windows@[window as int].y_pos <= isize::MAX,
        ensures
            *final(self) == (Desktop { windows: final(self).windows, ..*old(self) }),
            ({
                let w = old(self).windows@[window as int];
                match axis {
                    Axis::X => {
                        if w.x_pos + amount < 0 {
                            final(self).windows@ == old(self).windows@
                        } else {
                            final(self).windows@ == old(self).windows@.update(
                                window as int,
                                (Window { x_pos: (w.x_pos + amount) as usize, ..w }),
                            )
                        }
                    },
                    Axis::Y => {
                        if w.y_pos + amount < 0 {
                            final(self).windows@ == old(self).windows@
                        } else {
                            final(self).windows@ == old(self).windows@.update(
                                window as int,
                                (Window { y_pos: (w.y_pos + amount) as usize, ..w }),
                            )
                        }
                    },
                }
            }),
    {
        let windowpos = self.get_window_position(window);
        match axis {
            Axis::X => {
                if windowpos.x as isize + amount < 0 {
                    return ;
                }
                self.move_window(window, (windowpos.x as isize + amount) as usize, windowpos.y);
            },
            Axis::Y => {
                if windowpos.y as isize + amount < 0 {
                    return ;
                }
                self.move_window(window, windowpos.x, (windowpos.y as isize + amount) as usize);
            },
        }
        proof {
            assert(final(self).windows@ =~= old(self).windows@.update(
                window as int,
                final(self).windows@[window as int],
            ));
        }
    }
}

/// A window's frame as `redraw` rebuilds it: fresh borders in the given
/// focus state with every stacked widget drawn back in.
pub open spec fn refreshed_grid(w: Window, focused: bool) -> Seq<Seq<Option<ScreenChar>>> {
    drawn_all(border_grid(w.width as int, w.height as int, focused), w.widgets@, focused)
}

/// The screen after the unfocused windows `i..` are redrawn over `buf` in
/// index order, skipping the active window.
pub open spec fn overlay_rest(
    buf: Seq<Seq<ScreenChar>>,
    windows: Seq<Window>,
    active: int,
    i: int,
) -> Seq<Seq<ScreenChar>>
    decreases windows.len() - i,
{
    if i < 0 || i >= windows.len() {
        buf
    } else if i == active {
        overlay_rest(buf, windows, active, i + 1)
    } else {
        overlay_rest(
            overlaid(
                buf,
                refreshed_grid(windows[i], false),
                windows[i].x_pos as int,
                windows[i].y_pos as int,
            ),
            windows,
            active,
            i + 1,
        )
    }
}

/// The base screen with the title bar showing `name`.
pub open spec fn titled_base(name: Seq<char>) -> Seq<Seq<ScreenChar>> {
    Seq::new(HEIGHT as nat, |y: int| if y == 0 {
        title_row(name)
    } else {
        desktop_base()[y]
    })
}

impl Desktop {
    /// Repaints everything: the wallpaper and the active window's title,
    /// then every other window with a fresh unfocused frame and its
    /// widgets, and the active window last, focused, on top.
    pub fn redraw(&mut self)
        requires
            old(self).wf(),
            old(self).active_window is Some,
            forall|i: int, j: int|
                0 <= i < old(self).windows@.len() && 0 <= j < old(self).windows@[i].widgets@.len()
                    ==> old(self).windows@[i].widget_ok(j),
            forall|i: int|
                0 <= i < old(self).windows@.len() ==> (#[trigger] old(self).windows@[i]).x_pos
                    + old(self).windows@[i].width < usize::MAX && old(self).windows@[i].y_pos
                    + old(self).windows@[i].height < usize::MAX,
            old(self).windows@[old(self).active_window->0 as int].name@.len() <= WIDTH,
        ensures
            final(self).wf(),
            final(self).active_window == old(self).active_window,
            final(self).windows@.len() == old(self).windows@.len(),
            ({
                let a = old(self).active_window->0 as int;
                &&& forall|i: int|
                    0 <= i < old(self).windows@.len() && i != a ==> final(self).windows@[i]
                        == (Window {
                        contents: final(self).windows@[i].contents,
                        is_focused: false,
                        ..old(self).windows@[i]
                    }) && (#[trigger] final(self).windows@[i]).grid() == refreshed_grid(
                        old(self).windows@[i],
                        false,
                    )
                &&& final(self).windows@[a] == (Window {
                    contents: final(self).windows@[a].contents,
                    is_focused: true,
                    ..old(self).windows@[a]
                })
                &&& final(self).windows@[a].grid() == refreshed_grid(old(self).windows@[a], true)
                &&& final(self).screen() == overlaid(
                    overlay_rest(
                        titled_base(old(self).windows@[a].name@),
                        old(self).windows@,
                        a,
                        0,
                    ),
                    refreshed_grid(old(self).windows@[a], true),
                    old(self).windows@[a].x_pos as int,
                    old(self).windows@[a].y_pos as int,
                )
            }),
    {
        self.buffer = base_screen();
        proof {
            let bb = self.buffer@;
            assert(bb.map_values(|r: Vec<ScreenChar>| r@).len() == bb.len());
            assert(bb.len() == HEIGHT);
            assert forall|y: int| 0 <= y < HEIGHT implies (#[trigger] bb[y])@.len() == WIDTH by {
                assert(bb[y]@ == desktop_base()[y]);
                if y == 0 {
                } else {
                    assert(desktop_base()[y] == wallpaper_grid()[y]);
                }
            }
            assert(self.wf());
        }
        let a = match self.active_window {
            Some(a) => a,
            None => {
                proof {
                    assert(false);
                }
                0
            },
        };
        let len = self.windows.len();
        self.focus(a);
        let ghost mid = *self;
        let ghost oldw = old(self).windows@;
        let ghost tb = titled_base(old(self).windows@[a as int].name@);
        proof {
            assert(mid.screen() =~~= tb);
            assert(mid.windows@[a as int] == (Window {
                is_focused: true,
                ..old(self).windows@[a as int]
            }));
            assert forall|j: int|
                0 <= j < oldw.len() && j != a implies (#[trigger] mid.windows@[j]) == (Window {
                is_focused: mid.windows@[j].is_focused,
                ..oldw[j]
            }) by {
                match old(self).active_window {
                    Some(oa) => {
                        if j == oa as int {
                            if oa as int != a as int {
                                assert(mid.windows@[j] == (Window {
                                    is_focused: false,
                                    ..oldw[j]
                                }));
                            }
                        } else {
                            assert(j < len);
                            assert((j as usize) as int == j);
                            assert(old(self).active_window != Some(j as usize));
                            assert(mid.windows@[j] == oldw[j]);
                        }
                    },
                    None => {
                        assert(old(self).active_window != Some(j as usize));
                        assert(mid.windows@[j] == oldw[j]);
                    },
                }
            }
        }
        let mut i: usize = 0;
        while i < len
            invariant
                mid.wf(),
                self.wf(),
                a < len,
                len == oldw.len(),
                len == self.windows@.len(),
                i <= len,
                self.active_window == Some(a),
                oldw[a as int].name@.len() <= WIDTH,
                forall|k: int, j: int|
                    0 <= k < oldw.len() && 0 <= j < oldw[k].widgets@.len() ==> oldw[k].widget_ok(
                        j,
                    ),
                forall|k: int|
                    0 <= k < oldw.len() ==> (#[trigger] oldw[k]).x_pos + oldw[k].width
                        < usize::MAX && oldw[k].y_pos + oldw[k].height < usize::MAX,
                self.windows@[a as int] == (Window { is_focused: true, ..oldw[a as int] }),
                forall|j: int|
                    i <= j < len && j != a ==> (#[trigger] self.windows@[j]) == (Window {
                        is_focused: self.windows@[j].is_focused,
                        ..oldw[j]
                    }),
                forall|j: int|
                    0 <= j < i && j != a ==> (#[trigger] self.windows@[j]) == (Window {
                        contents: self.windows@[j].contents,
                        is_focused: false,
                        ..oldw[j]
                    }) && self.windows@[j].grid() == refreshed_grid(oldw[j], false),
                overlay_rest(tb, oldw, a as int, 0) == overlay_rest(
                    self.screen(),
                    oldw,
                    a as int,
                    i as int,
                ),
            decreases len - i,
        {
            if i != a {
                proof {
                    assert(self.windows@[i as int] == (Window {
                        is_focused: self.windows@[i as int].is_focused,
                        ..oldw[i as int]
                    }));
                }
                self.windows[i].is_focused = false;
                proof {
                    assert(self.windows@[i as int] == (Window {
                        is_focused: false,
                        ..oldw[i as int]
                    }));
                    assert(self.wf());
                }
                self.windows[i].redraw_frame();
                let ghost pre = *self;
                proof {
                    assert(pre.windows@[i as int].grid() == border_grid(
                        oldw[i as int].width as int,
                        oldw[i as int].height as int,
                        false,
                    ));
                    assert forall|j: int|
                        0 <= j < pre.windows@[i as int].widgets@.len() implies pre.windows@[
                        i as int].widget_ok(j) by {
                        assert(oldw[i as int].widget_ok(j));
                        assert(pre.windows@[i as int].contents@.len() == oldw[i as int].contents@.len());
                    }
                }
                self.update_window(i);
                proof {
                    assert(self.windows@[i as int].grid() == drawn_all(
                        border_grid(oldw[i as int].width as int, oldw[i as int].height as int, false),
                        oldw[i as int].widgets@,
                        false,
                    ));
                    assert(self.windows@[i as int].grid() == refreshed_grid(oldw[i as int], false));
                    assert(self.screen() == overlaid(
                        pre.screen(),
                        refreshed_grid(oldw[i as int], false),
                        oldw[i as int].x_pos as int,
                        oldw[i as int].y_pos as int,
                    ));
                    assert(overlay_rest(pre.screen(), oldw, a as int, i as int) == overlay_rest(
                        self.screen(),
                        oldw,
                        a as int,
                        i + 1,
                    ));
                }
            } else {
                proof {
                    assert(overlay_rest(self.screen(), oldw, a as int, i as int) == overlay_rest(
                        self.screen(),
                        oldw,
                        a as int,
                        i + 1,
                    ));
                }
            }
            i = i + 1;
        }
        self.windows[a].redraw_frame();
        let ghost pre2 = *self;
        proof {
            assert(overlay_rest(pre2.screen(), oldw, a as int, len as int) == pre2.screen());
            assert(pre2.windows@[a as int].grid() == border_grid(
                oldw[a as int].width as int,
                oldw[a as int].height as int,
                true,
            ));
            assert forall|j: int|
                0 <= j < pre2.windows@[a as int].widgets@.len() implies pre2.windows@[
                a as int].widget_ok(j) by {
                assert(oldw[a as int].widget_ok(j));
                assert(pre2.windows@[a as int].contents@.len() == oldw[a as int].contents@.len());
            }
        }
        self.update_window(a);
        proof {
            assert(final(self).windows@[a as int].grid() == drawn_all(
                border_grid(oldw[a as int].width as int, oldw[a as int].height as int, true),
                oldw[a as int].widgets@,
                true,
            ));
        }
    }
}

} // verus!
