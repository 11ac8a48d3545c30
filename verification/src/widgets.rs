//! The widget toolkit: rectangular buffers of character cells, a centered
//! header widget, and word-wrapped text rendering for plain strings.

use vstd::prelude::*;

use crate::size::Size;
use crate::vga::BgColor;
use crate::vga::ColorCode;
use crate::vga::FgColor;
use crate::vga::ScreenChar;

verus! {

use vstd::string::StrSliceExecFns;

/// The glyph drawn under a header title.
pub const UNDERLINE_GLYPH: u8 = 223;

/// Whitespace as the word splitter sees it.
pub open spec fn is_ascii_space(c: char) -> bool {
    c == ' ' || c == '\t' || c == '\n' || c == '\u{c}' || c == '\r'
}

fn is_space_char(c: char) -> (r: bool)
    ensures
        r == is_ascii_space(c),
{
    c == ' ' || c == '\t' || c == '\n' || c == '\u{c}' || c == '\r'
}

/// The longest whitespace-free prefix of `s`.
pub open spec fn word_prefix(s: Seq<char>) -> Seq<char>
    decreases s.len(),
{
    if s.len() == 0 || is_ascii_space(s[0]) {
        Seq::empty()
    } else {
        seq![s[0]] + word_prefix(s.drop_first())
    }
}

/// The whitespace-separated words of `s`, in order.
pub open spec fn spec_words(s: Seq<char>) -> Seq<Seq<char>>
    decreases s.len(),
    via spec_words_decreases
{
    if s.len() == 0 {
        Seq::empty()
    } else if is_ascii_space(s[0]) {
        spec_words(s.drop_first())
    } else {
        seq![word_prefix(s)] + spec_words(s.skip(word_prefix(s).len() as int))
    }
}

#[via_fn]
proof fn spec_words_decreases(s: Seq<char>) {
    if s.len() > 0 && !is_ascii_space(s[0]) {
        assert(word_prefix(s) == seq![s[0]] + word_prefix(s.drop_first()));
        lemma_word_prefix_len(s);
        assert(1 <= word_prefix(s).len() <= s.len());
        assert(s.skip(word_prefix(s).len() as int).len() < s.len());
    }
}

/// A word prefix is never longer than the text it is cut from.
pub proof fn lemma_word_prefix_len(s: Seq<char>)
    ensures
        word_prefix(s).len() <= s.len(),
    decreases s.len(),
{
    if s.len() == 0 || is_ascii_space(s[0]) {
    } else {
        lemma_word_prefix_len(s.drop_first());
    }
}

/// Splits `s` into its whitespace-separated words.
pub fn split_ascii_words(s: &str) -> (words: Vec<Vec<char>>)
    ensures
        words@.map_values(|w: Vec<char>| w@) == spec_words(s@),
{
    let n = s.unicode_len();
    let mut words: Vec<Vec<char>> = Vec::new();
    let mut i: usize = 0;
    proof {
        assert(s@.skip(0) =~= s@);
    }
    while i < n
        invariant
            i <= n,
            n == s@.len(),
            words@.map_values(|w: Vec<char>| w@) + spec_words(s@.skip(i as int)) =~= spec_words(
                s@,
            ),
        decreases n - i,
    {
        let c = s.get_char(i);
        if is_space_char(c) {
            proof {
                assert(s@.skip(i as int).drop_first() =~= s@.skip(i + 1));
            }
            i = i + 1;
        } else {
            let ghost start = i as int;
            let mut w: Vec<char> = Vec::new();
            let mut stop = false;
            while i < n && !stop
                invariant
                    start <= i <= n,
                    n == s@.len(),
                    i - start == w@.len(),
                    w@ + word_prefix(s@.skip(i as int)) =~= word_prefix(s@.skip(start)),
                    !stop ==> (i == start || !is_ascii_space(s@[i - 1])),
                    !stop ==> word_prefix(s@.skip(start)).len() >= w@.len(),
                    stop ==> word_prefix(s@.skip(i as int)) =~= Seq::<char>::empty(),
                    forall|k: int| start <= k < i ==> !is_ascii_space(s@[k]),
                decreases n - i, (if stop {
                    0int
                } else {
                    1int
                }),
            {
                let c2 = s.get_char(i);
                if is_space_char(c2) {
                    stop = true;
                } else {
                    proof {
                        assert(s@.skip(i as int)[0] == s@[i as int]);
                        assert(s@.skip(i as int).drop_first() =~= s@.skip(i + 1));
                        assert(word_prefix(s@.skip(i as int)) =~= seq![s@[i as int]] + word_prefix(
                            s@.skip(i + 1),
                        ));
                    }
                    w.push(c2);
                    i = i + 1;
                    proof {
                        assert(w@ + word_prefix(s@.skip(i as int)) =~= word_prefix(
                            s@.skip(start),
                        ));
                    }
                }
            }
            proof {
                if i == n && !stop {
                    assert(s@.skip(i as int).len() == 0);
                    assert(word_prefix(s@.skip(i as int)) =~= Seq::<char>::empty());
                }
                assert(w@ =~= word_prefix(s@.skip(start)));
                assert(s@.skip(start).skip(w@.len() as int) =~= s@.skip(i as int));
                assert(!is_ascii_space(s@.skip(start)[0]));
                assert(spec_words(s@.skip(start)) =~= seq![word_prefix(s@.skip(start))]
                    + spec_words(s@.skip(start).skip(word_prefix(s@.skip(start)).len() as int)));
            }
            let ghost before = words@.map_values(|v: Vec<char>| v@);
            words.push(w);
            proof {
                assert(words@.map_values(|v: Vec<char>| v@) =~= before.push(w@));
                assert(before.push(w@) + spec_words(s@.skip(i as int)) =~= before + (seq![w@]
                    + spec_words(s@.skip(i as int))));
            }
        }
    }
    proof {
        assert(s@.skip(n as int).len() == 0);
        assert(spec_words(s@.skip(n as int)) =~= Seq::<Seq<char>>::empty());
        assert(words@.map_values(|w: Vec<char>| w@) =~= words@.map_values(|w: Vec<char>| w@)
            + spec_words(s@.skip(n as int)));
    }
    words
}

/// The cell a character renders to in a given color.
pub open spec fn char_cell(c: char, color: ColorCode) -> ScreenChar {
    ScreenChar { ascii_character: ((c as u32) as u8), color_code: color }
}

/// A word rendered to cells.
pub open spec fn word_cells(w: Seq<char>, color: ColorCode) -> Seq<ScreenChar> {
    Seq::new(w.len(), |i: int| char_cell(w[i], color))
}

/// `row` with `cells` overwritten starting at column `x`.
pub open spec fn overwrite(row: Seq<ScreenChar>, x: int, cells: Seq<ScreenChar>) -> Seq<
    ScreenChar,
> {
    Seq::new(row.len(), |i: int| if x <= i < x + cells.len() {
        cells[i - x]
    } else {
        row[i]
    })
}

/// `g` with `cells` overwritten in row `y` starting at column `x`.
pub open spec fn place_row(g: Seq<Seq<ScreenChar>>, y: int, x: int, cells: Seq<ScreenChar>) -> Seq<
    Seq<ScreenChar>,
> {
    g.update(y, overwrite(g[y], x, cells))
}

/// A `height`-by-`width` grid of one repeated cell.
pub open spec fn filled_grid(default_char: ScreenChar, size: Size) -> Seq<Seq<ScreenChar>> {
    Seq::new(size.height as nat, |r: int| Seq::new(size.width as nat, |c: int| default_char))
}

/// A buffer a widget renders into.
pub trait WidgetBuffer {
    /// A `size`-shaped buffer of one repeated cell.
    fn fill(default_char: ScreenChar, size: Size) -> (out: Self) where Self: Sized;
}

impl WidgetBuffer for Vec<Vec<ScreenChar>> {
    fn fill(default_char: ScreenChar, size: Size) -> (out: Vec<Vec<ScreenChar>>)
        ensures
            out@.map_values(|r: Vec<ScreenChar>| r@) == filled_grid(default_char, size),
    {
        let mut output: Vec<Vec<ScreenChar>> = Vec::new();
        let mut r: usize = 0;
        while r < size.height
            invariant
                r <= size.height,
                output@.len() == r,
                forall|k: int|
                    0 <= k < r ==> (#[trigger] output@[k])@ == Seq::new(
                        size.width as nat,
                        |c: int| default_char,
                    ),
            decreases size.height - r,
        {
            let mut row: Vec<ScreenChar> = Vec::new();
            let mut c: usize = 0;
            while c < size.width
                invariant
                    c <= size.width,
                    row@.len() == c,
                    forall|k: int| 0 <= k < c ==> row@[k] == default_char,
                decreases size.width - c,
            {
                row.push(default_char);
                c = c + 1;
            }
            proof {
                assert(row@ =~= Seq::new(size.width as nat, |c: int| default_char));
            }
            output.push(row);
            r = r + 1;
        }
        proof {
            assert(output@.map_values(|r2: Vec<ScreenChar>| r2@) =~= filled_grid(
                default_char,
                size,
            ));
        }
        output
    }
}

/// A widget: something that renders into a container of cells.
pub trait Widget {
    /// The extent reserved around the widget's drawable area.
    spec fn spec_padding(&self) -> Size;

    /// When the widget can render into a container of the given size.
    spec fn renders_in(&self, container_size: Size) -> bool;

    /// What the widget renders into the container.
    spec fn spec_buffer(&self, container_size: Size, bgcolor: BgColor) -> Seq<Seq<ScreenChar>>;

    fn to_buffer(&self, container_size: Size, bgcolor: BgColor) -> (out: Vec<Vec<ScreenChar>>)
        requires
            self.renders_in(container_size),
        ensures
            out@.map_values(|r: Vec<ScreenChar>| r@) == self.spec_buffer(container_size, bgcolor),
    ;

    fn get_size_with_padding(&self, container_size: Size) -> (r: Size)
        ensures
            r == container_size,
    ;

    fn get_size(&self, container_size: Size) -> (r: Size)
        requires
            self.spec_padding().width <= container_size.width,
            self.spec_padding().height <= container_size.height,
        ensures
            r.width == container_size.width - self.spec_padding().width,
            r.height == container_size.height - self.spec_padding().height,
    ;

    fn get_padding(&self) -> (r: Size)
        ensures
            r == self.spec_padding(),
    ;
}

/// A centered title with an underline row beneath it.
pub struct Header(pub String);

impl Header {
    pub fn from(name: &str) -> (r: Header)
        ensures
            r.0@ == name@,
    {
        Header(name.to_owned())
    }
}

impl Widget for Header {
    open spec fn spec_padding(&self) -> Size {
        Size { width: 1, height: 1 }
    }

    open spec fn renders_in(&self, container_size: Size) -> bool {
        &&& 2 <= container_size.height
    	&&& self.0@.len() <= container_size.width
    }

    /// The title centered on the first row in white, underlined on the
    /// second, over a blank background.
    open spec fn spec_buffer(&self, container_size: Size, bgcolor: BgColor) -> Seq<
        Seq<ScreenChar>,
    > {
        let base = filled_grid(
            ScreenChar {
                ascii_character: 32,
                color_code: ColorCode::spec_new(FgColor::Black, bgcolor),
            },
            container_size,
        );
        let color = ColorCode::spec_new(FgColor::White, bgcolor);
        let start = container_size.width / 2 - self.0@.len() / 2;
        let underline = Seq::new(
            self.0@.len(),
            |i: int| ScreenChar { ascii_character: UNDERLINE_GLYPH, color_code: color },
        );
        place_row(place_row(base, 0, start as int, word_cells(self.0@, color)), 1, start as int, underline)
    }

    fn to_buffer(&self, container_size: Size, bgcolor: BgColor) -> (out: Vec<Vec<ScreenChar>>) {
        let mut output: Vec<Vec<ScreenChar>> = WidgetBuffer::fill(
            ScreenChar { ascii_character: 32, color_code: ColorCode::new(FgColor::Black, bgcolor) },
            container_size,
        );
        let color = ColorCode::new(FgColor::White, bgcolor);
        let len = self.0.as_str().unicode_len();
        let start = container_size.width / 2 - len / 2;
        let ghost base = output@.map_values(|r: Vec<ScreenChar>| r@);
        proof {
            assert(base.len() == output@.len());
            assert(forall|r: int| 0 <= r < output@.len() ==> base[r] == (#[trigger] output@[r])@);
        }
        let mut i: usize = 0;
        while i < len
            invariant
                i <= len,
                len == self.0@.len(),
                len <= container_size.width,
                2 <= container_size.height,
                start == container_size.width / 2 - len / 2,
                start + len <= container_size.width,
                color == ColorCode::spec_new(FgColor::White, bgcolor),
                base == filled_grid(
                    ScreenChar {
                        ascii_character: 32,
                        color_code: ColorCode::spec_new(FgColor::Black, bgcolor),
                    },
                    container_size,
                ),
                output@.len() == container_size.height,
                forall|r: int|
                    0 <= r < container_size.height ==> (#[trigger] output@[r])@.len()
                        == container_size.width,
                forall|r: int|
                    2 <= r < container_size.height ==> (#[trigger] output@[r])@ == base[r],
                forall|k: int|
                    0 <= k < i ==> output@[0]@[start + k] == char_cell(self.0@[k], color)
                        && output@[1]@[start + k] == (ScreenChar {
                        ascii_character: UNDERLINE_GLYPH,
                        color_code: color,
                    }),
                forall|k: int|
                    0 <= k < container_size.width && !(start <= k < start + i) ==> output@[0]@[k]
                        == base[0][k] && output@[1]@[k] == base[1][k],
            decreases len - i,
        {
            let c = self.0.as_str().get_char(i);
            let b = #[verifier::truncate] ((c as u32) as u8);
            let ghost pre = output@;
            output[0][start + i] = ScreenChar { ascii_character: b, color_code: color };
            output[1][start + i] = ScreenChar {
                ascii_character: UNDERLINE_GLYPH,
                color_code: color,
            };
            proof {
                assert(forall|r: int| 2 <= r < pre.len() ==> (#[trigger] output@[r]) == pre[r]);
                assert(output@[0]@ =~= pre[0]@.update(
                    start + i,
                    ScreenChar { ascii_character: b, color_code: color },
                ));
                assert(output@[1]@ =~= pre[1]@.update(
                    start + i,
                    ScreenChar { ascii_character: UNDERLINE_GLYPH, color_code: color },
                ));
            }
            i = i + 1;
        }
        proof {
            let result = self.spec_buffer(container_size, bgcolor);
            let cells = word_cells(self.0@, color);
            let underline = Seq::new(
                self.0@.len(),
                |k: int| ScreenChar { ascii_character: UNDERLINE_GLYPH, color_code: color },
            );
            let inner = place_row(base, 0, start as int, cells);
            assert forall|r: int|
                0 <= r < container_size.height implies #[trigger] output@[r]@ =~= result[r] by {
                assert(output@[r]@.len() == container_size.width);
                if r == 0 {
                    assert(result[0] == overwrite(base[0], start as int, cells));
                    assert(base[0].len() == container_size.width);
                    assert forall|k: int|
                        0 <= k < container_size.width implies output@[0]@[k] == result[0][k] by {
                        if start <= k < start + cells.len() {
                            let k2 = k - start;
                            assert(output@[0]@[start + k2] == char_cell(self.0@[k2], color));
                            assert(start + k2 == k);
                        }
                    }
                } else if r == 1 {
                    assert(inner[1] == base[1]);
                    assert(result[1] == overwrite(base[1], start as int, underline));
                    assert(base[1].len() == container_size.width);
                    assert forall|k: int|
                        0 <= k < container_size.width implies output@[1]@[k] == result[1][k] by {
                        if start <= k < start + underline.len() {
                            let k2 = k - start;
                            assert(output@[0]@[start + k2] == char_cell(self.0@[k2], color));
                            assert(output@[1]@[start + k2] == (ScreenChar {
                                ascii_character: UNDERLINE_GLYPH,
                                color_code: color,
                            }));
                            assert(start + k2 == k);
                            assert(result[1][k] == underline[k2]);
                        } else {
                            assert(output@[1]@[k] == base[1][k]);
                        }
                    }
                } else {
                    assert(result[r] == base[r]);
                }
            }
            assert(output@.map_values(|r2: Vec<ScreenChar>| r2@) =~~= result);
        }
        output
    }

    fn get_size_with_padding(&self, container_size: Size) -> Size {
        container_size
    }

    fn get_size(&self, container_size: Size) -> Size {
        container_size.shrink(1)
    }

    fn get_padding(&self) -> Size {
        Size::square(1)
    }
}

/// The words of a text wrapped into `g`, each followed by one blank cell:
/// a word that would pass `xmax` wraps the cursor to the next line's left
/// edge, and rendering stops once a wrap passes `ymax`.
pub open spec fn wrapped_words(
    g: Seq<Seq<ScreenChar>>,
    words: Seq<Seq<char>>,
    x: int,
    y: int,
    xmax: int,
    ymax: int,
    color: ColorCode,
) -> Seq<Seq<ScreenChar>>
    decreases words.len(),
{
    if words.len() == 0 {
        g
    } else {
        let w = words[0];
        let space = ScreenChar { ascii_character: 32, color_code: color };
        if x + w.len() > xmax {
            if y + 1 >= ymax {
                g
            } else {
                wrapped_words(
                    place_row(g, y + 1, 0, word_cells(w, color).push(space)),
                    words.drop_first(),
                    w.len() as int + 1,
                    y + 1,
                    xmax,
                    ymax,
                    color,
                )
            }
        } else {
            wrapped_words(
                place_row(g, y, x, word_cells(w, color).push(space)),
                words.drop_first(),
                x + w.len() as int + 1,
                y,
                xmax,
                ymax,
                color,
            )
        }
    }
}

impl Widget for String {
    open spec fn spec_padding(&self) -> Size {
        Size { width: 2, height: 2 }
    }

    open spec fn renders_in(&self, container_size: Size) -> bool {
        &&& 3 <= container_size.width
        &&& 3 <= container_size.height
        &&& forall|i: int|
            0 <= i < spec_words(self@).len() ==> (#[trigger] spec_words(self@)[i]).len() + 2
                <= container_size.width
    }

    /// The text word-wrapped into the container's drawable area, over a
    /// blank background.
    open spec fn spec_buffer(&self, container_size: Size, bgcolor: BgColor) -> Seq<
        Seq<ScreenChar>,
    > {
        let color = ColorCode::spec_new(FgColor::Black, bgcolor);
        wrapped_words(
            filled_grid(ScreenChar { ascii_character: 32, color_code: color }, container_size),
            spec_words(self@),
            0,
            0,
            container_size.width - 2,
            container_size.height - 2,
            color,
        )
    }

    fn to_buffer(&self, container_size: Size, bgcolor: BgColor) -> (out: Vec<Vec<ScreenChar>>) {
        let color = ColorCode::new(FgColor::Black, bgcolor);
        let mut output: Vec<Vec<ScreenChar>> = WidgetBuffer::fill(
            ScreenChar { ascii_character: 32, color_code: color },
            container_size,
        );
        let xmax = container_size.width - 2;
        let ymax = container_size.height - 2;
        let words = split_ascii_words(self.as_str());
        let ghost wviews = words@.map_values(|w: Vec<char>| w@);
        let nwords = words.len();
        let mut x: usize = 0;
        let mut y: usize = 0;
        let mut k: usize = 0;
        let mut stopped = false;
        proof {
            assert(wviews.subrange(0, nwords as int) =~= wviews);
            assert(output@.map_values(|r: Vec<ScreenChar>| r@).len() == output@.len());
            assert(forall|r: int|
                0 <= r < output@.len() ==> output@.map_values(|r2: Vec<ScreenChar>| r2@)[r] == (
                #[trigger] output@[r])@);
        }
        while k < nwords && !stopped
            invariant
                k <= nwords,
                nwords == wviews.len(),
                wviews == spec_words(self@),
                self.renders_in(container_size),
                xmax == container_size.width - 2,
                ymax == container_size.height - 2,
                color == ColorCode::spec_new(FgColor::Black, bgcolor),
                x <= xmax + 1,
                words@.map_values(|w: Vec<char>| w@) == wviews,
                output@.len() == container_size.height,
                forall|r: int|
                    0 <= r < container_size.height ==> (#[trigger] output@[r])@.len()
                        == container_size.width,
                !stopped ==> y < ymax,
                self.spec_buffer(container_size, bgcolor) == wrapped_words(
                    output@.map_values(|r: Vec<ScreenChar>| r@),
                    wviews.subrange(k as int, nwords as int),
                    x as int,
                    y as int,
                    xmax as int,
                    ymax as int,
                    color,
                ),
                stopped ==> wviews.subrange(k as int, nwords as int).len() > 0 && x as int
                    + wviews.subrange(k as int, nwords as int)[0].len() > xmax && y + 1 >= ymax,
            decreases nwords - k, (if stopped {
                0int
            } else {
                1int
            }),
        {
            let wlen = words[k].len();
            proof {
                assert(wviews[k as int] == words@[k as int]@);
                assert(spec_words(self@)[k as int].len() + 2 <= container_size.width);
                assert(wviews.subrange(k as int, nwords as int)[0] == wviews[k as int]);
                assert(wlen + 2 <= container_size.width);
            }
            if x > xmax || wlen > xmax - x {
                proof {
                    assert(x as int + wlen as int > xmax as int);
                }
                if y + 1 >= ymax {
                    stopped = true;
                } else {
                    y = y + 1;
                    x = 0;
                    let ghost pre = output@;
                    let mut j: usize = 0;
                    while j < wlen
                        invariant
                            j <= wlen,
                            y < output@.len(),
                            wlen == words@[k as int]@.len(),
                            k < words@.len(),
                            wlen + 2 <= container_size.width,
                            output@.len() == pre.len(),
                            forall|r: int|
                                0 <= r < pre.len() && r != y ==> (#[trigger] output@[r]) == pre[r],
                            output@[y as int]@.len() == pre[y as int]@.len(),
                            pre[y as int]@.len() == container_size.width,
                            forall|m: int|
                                0 <= m < j ==> output@[y as int]@[m] == char_cell(
                                    words@[k as int]@[m],
                                    color,
                                ),
                            forall|m: int|
                                j <= m < container_size.width ==> output@[y as int]@[m] == pre[
                                    y as int
                                ]@[m],
                        decreases wlen - j,
                    {
                        let c = words[k][j];
                        let b = #[verifier::truncate] ((c as u32) as u8);
                        output[y][j] = ScreenChar { ascii_character: b, color_code: color };
                        j = j + 1;
                    }
                    output[y][wlen] = ScreenChar { ascii_character: 32, color_code: color };
                    x = wlen + 1;
                    proof {
                        lemma_wrap_step(pre, output@, wviews, k as int, nwords as int, 0, y as int,
                            xmax as int, ymax as int, color, container_size);
                    }
                    k = k + 1;
                }
            } else {
                let ghost pre = output@;
                let x0 = x;
                let mut j: usize = 0;
                while j < wlen
                    invariant
                        j <= wlen,
                        y < output@.len(),
                        wlen == words@[k as int]@.len(),
                        k < words@.len(),
                        x0 + wlen <= xmax,
                        xmax + 2 == container_size.width,
                        output@.len() == pre.len(),
                        forall|r: int|
                            0 <= r < pre.len() && r != y ==> (#[trigger] output@[r]) == pre[r],
                        output@[y as int]@.len() == pre[y as int]@.len(),
                        pre[y as int]@.len() == container_size.width,
                        forall|m: int|
                            0 <= m < j ==> output@[y as int]@[x0 + m] == char_cell(
                                words@[k as int]@[m],
                                color,
                            ),
                        forall|m: int|
                            0 <= m < container_size.width && !(x0 <= m < x0 + j)
                                ==> output@[y as int]@[m] == pre[y as int]@[m],
                    decreases wlen - j,
                {
                    let c = words[k][j];
                    let b = #[verifier::truncate] ((c as u32) as u8);
                    output[y][x0 + j] = ScreenChar { ascii_character: b, color_code: color };
                    j = j + 1;
                }
                output[y][x0 + wlen] = ScreenChar { ascii_character: 32, color_code: color };
                x = x0 + wlen + 1;
                proof {
                    lemma_wrap_step(pre, output@, wviews, k as int, nwords as int, x0 as int,
                        y as int, xmax as int, ymax as int, color, container_size);
                }
                k = k + 1;
            }
        }
        proof {
            if !stopped {
                assert(wviews.subrange(nwords as int, nwords as int).len() == 0);
            }
            assert(output@.map_values(|r: Vec<ScreenChar>| r@) == self.spec_buffer(
                container_size,
                bgcolor,
            ));
        }
        output
    }

    fn get_size_with_padding(&self, container_size: Size) -> Size {
        container_size
    }

    fn get_size(&self, container_size: Size) -> Size {
        container_size.shrink(2)
    }

    fn get_padding(&self) -> Size {
        Size::square(2)
    }
}

/// One step of the wrap fold: after a word and its trailing blank are
/// written at (`y`, `x0`), folding the remaining words continues from the
/// advanced cursor.
proof fn lemma_wrap_step(
    pre: Seq<Vec<ScreenChar>>,
    post: Seq<Vec<ScreenChar>>,
    wviews: Seq<Seq<char>>,
    k: int,
    nwords: int,
    x0: int,
    y: int,
    xmax: int,
    ymax: int,
    color: ColorCode,
    container_size: Size,
)
    requires
        0 <= k < nwords <= wviews.len(),
        0 <= y < pre.len(),
        pre.len() == post.len(),
        pre.len() == container_size.height,
        pre[y]@.len() == container_size.width,
        post[y]@.len() == container_size.width,
        0 <= x0,
        x0 + wviews[k].len() + 1 <= container_size.width,
        forall|r: int| 0 <= r < pre.len() && r != y ==> (#[trigger] post[r]) == pre[r],
        forall|m: int|
            0 <= m < wviews[k].len() ==> post[y]@[x0 + m] == char_cell(wviews[k][m], color),
        post[y]@[x0 + wviews[k].len()] == (ScreenChar { ascii_character: 32, color_code: color }),
        forall|m: int|
            0 <= m < container_size.width && !(x0 <= m < x0 + wviews[k].len() + 1) ==> post[y]@[m]
                == pre[y]@[m],
    ensures
        post.map_values(|r: Vec<ScreenChar>| r@) == place_row(
            pre.map_values(|r: Vec<ScreenChar>| r@),
            y,
            x0,
            word_cells(wviews[k], color).push(ScreenChar { ascii_character: 32, color_code: color }),
        ),
        wviews.subrange(k, nwords).drop_first() =~= wviews.subrange(k + 1, nwords),
{
    let cells = word_cells(wviews[k], color).push(
        ScreenChar { ascii_character: 32, color_code: color },
    );
    let pv = pre.map_values(|r: Vec<ScreenChar>| r@);
    let qv = post.map_values(|r: Vec<ScreenChar>| r@);
    let placed = place_row(pv, y, x0, cells);
    assert forall|r: int| 0 <= r < qv.len() implies qv[r] =~= placed[r] by {
        assert(qv[r] == post[r]@);
        if r == y {
            assert(placed[y] == overwrite(pv[y], x0, cells));
            assert forall|m: int|
                0 <= m < container_size.width implies post[y]@[m] == placed[y][m] by {
                if x0 <= m < x0 + wviews[k].len() {
                    let m2 = m - x0;
                    assert(post[y]@[x0 + m2] == char_cell(wviews[k][m2], color));
                    assert(cells[m2] == char_cell(wviews[k][m2], color));
                } else if m == x0 + wviews[k].len() {
                    assert(cells[m - x0] == (ScreenChar { ascii_character: 32, color_code: color }));
                } else {
                    assert(post[y]@[m] == pre[y]@[m]);
                }
            }
        } else {
            assert(post[r] == pre[r]);
            assert(placed[r] == pv[r]);
        }
    }
    assert(qv =~~= placed);
}

} // verus!
