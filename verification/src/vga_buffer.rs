//! A dual-screen text console: two independent character grids, each with its
//! own cursor column and active color attribute.  A write renders bytes onto
//! the currently selected screen (handling line wrap, scrolling, clearing and
//! backspace) and then mirrors that screen into a flat byte buffer laid out as
//! the display device expects it: two bytes per cell, the character first and
//! the packed color attribute second.

use vstd::prelude::*;
use vstd::string::StringSliceAdditionalSpecFns;

verus! {

/// Number of character rows on a screen.
pub const BUFFER_HEIGHT: usize = 25;

/// Number of character columns on a screen.
pub const BUFFER_WIDTH: usize = 80;

/// The sixteen palette entries of the display device, in palette order
/// (`Black` is entry 0, `White` is entry 15).  Entries 8 and up carry the
/// bright bit, which the device honors for foregrounds only.
#[derive(Debug, Clone, Copy, PartialEq, Eq, Structural)]
pub enum Color {
    Black,
    Blue,
    Green,
    Cyan,
    Red,
    Magenta,
    Brown,
    LightGray,
    DarkGray,
    LightBlue,
    LightGreen,
    LightCyan,
    LightRed,
    Pink,
    Yellow,
    White,
}

/// The palette index of a color.
pub open spec fn color_number(c: Color) -> u8 {
    match c {
        Color::Black => 0,
        Color::Blue => 1,
        Color::Green => 2,
        Color::Cyan => 3,
        Color::Red => 4,
        Color::Magenta => 5,
        Color::Brown => 6,
        Color::LightGray => 7,
        Color::DarkGray => 8,
        Color::LightBlue => 9,
        Color::LightGreen => 10,
        Color::LightCyan => 11,
        Color::LightRed => 12,
        Color::Pink => 13,
        Color::Yellow => 14,
        Color::White => 15,
    }
}

/// A foreground and a background color packed into one attribute byte:
/// the background in the upper four bits, the foreground in the lower four.
#[derive(Debug, Clone, Copy, PartialEq, Eq, Structural)]
pub struct ColorCode(pub u8);

/// The attribute byte for a foreground and a background color.
pub open spec fn spec_color_code(foreground: Color, background: Color) -> ColorCode {
    ColorCode((color_number(background) * 16 + color_number(foreground)) as u8)
}

impl ColorCode {
    /// Packs a foreground and a background color into one attribute byte.
    pub fn new(foreground: Color, background: Color) -> (r: ColorCode)
        ensures
            r == spec_color_code(foreground, background),
            r.0 == color_number(background) * 16 + color_number(foreground),
    {
        ColorCode(color_index(background) * 16 + color_index(foreground))
    }
}

/// Returns the palette index of a color.
pub fn color_index(c: Color) -> (r: u8)
    ensures
        r == color_number(c),
{
    match c {
        Color::Black => 0,
        Color::Blue => 1,
        Color::Green => 2,
        Color::Cyan => 3,
        Color::Red => 4,
        Color::Magenta => 5,
        Color::Brown => 6,
        Color::LightGray => 7,
        Color::DarkGray => 8,
        Color::LightBlue => 9,
        Color::LightGreen => 10,
        Color::LightCyan => 11,
        Color::LightRed => 12,
        Color::Pink => 13,
        Color::Yellow => 14,
        Color::White => 15,
    }
}

/// One cell of a screen: a character byte and the attribute it is drawn with.
#[derive(Debug, Clone, Copy, PartialEq, Eq, Structural)]
pub struct ScreenChar {
    pub ascii_character: u8,
    pub color_code: ColorCode,
}

/// The mathematical state of one screen: its grid of cells
/// (`BUFFER_HEIGHT` rows of `BUFFER_WIDTH` cells), the attribute applied to
/// subsequent writes, and the cursor column on the bottom row.
pub ghost struct ScreenView {
    pub grid: Seq<Seq<ScreenChar>>,
    pub attr: ColorCode,
    pub col: int,
}

/// A blank cell: a space drawn with the given attribute.
pub open spec fn blank_cell(attr: ColorCode) -> ScreenChar {
    ScreenChar { ascii_character: 32, color_code: attr }
}

/// A full row of blank cells.
pub open spec fn spec_blank_row(attr: ColorCode) -> Seq<ScreenChar> {
    Seq::new(BUFFER_WIDTH as nat, |c: int| blank_cell(attr))
}

/// An entirely blank screen with cursor at column 0.
pub open spec fn spec_blank_screen(attr: ColorCode) -> ScreenView {
    ScreenView {
        grid: Seq::new(BUFFER_HEIGHT as nat, |r: int| spec_blank_row(attr)),
        attr,
        col: 0,
    }
}

/// Well-formedness of a screen state: full grid dimensions and a cursor
/// column that never exceeds the width.
pub open spec fn wf_screen(v: ScreenView) -> bool {
    &&& v.grid.len() == BUFFER_HEIGHT
    &&& forall|r: int| 0 <= r < BUFFER_HEIGHT ==> (#[trigger] v.grid[r]).len() == BUFFER_WIDTH
    &&& 0 <= v.col <= BUFFER_WIDTH
}

/// Effect of a newline: every row shifts up by one, the bottom row becomes
/// blank (in the current attribute), and the cursor returns to column 0.
pub open spec fn spec_new_line(v: ScreenView) -> ScreenView {
    ScreenView {
        grid: Seq::new(
            BUFFER_HEIGHT as nat,
            |r: int|
                if r < BUFFER_HEIGHT - 1 {
                    v.grid[r + 1]
                } else {
                    spec_blank_row(v.attr)
                },
        ),
        attr: v.attr,
        col: 0,
    }
}

/// Effect of clearing the screen: every cell becomes blank in the current
/// attribute and the cursor returns to column 0.
pub open spec fn spec_clear(v: ScreenView) -> ScreenView {
    ScreenView {
        grid: Seq::new(BUFFER_HEIGHT as nat, |r: int| spec_blank_row(v.attr)),
        attr: v.attr,
        col: 0,
    }
}

/// Effect of a backspace: if the cursor is past column 0, it moves back one
/// column and that cell becomes blank; at column 0 nothing happens.
pub open spec fn spec_backspace(v: ScreenView) -> ScreenView {
    if v.col > 0 {
        ScreenView {
            grid: v.grid.update(
                BUFFER_HEIGHT - 1,
                v.grid[BUFFER_HEIGHT - 1].update(v.col - 1, blank_cell(v.attr)),
            ),
            attr: v.attr,
            col: v.col - 1,
        }
    } else {
        v
    }
}

/// The glyph actually stored for a byte: printable ASCII is kept as is, any
/// other byte is replaced by the placeholder glyph 0xfe.
pub open spec fn spec_glyph(byte: u8) -> u8 {
    if 0x20 <= byte <= 0x7e {
        byte
    } else {
        0xfe
    }
}

/// Effect of placing one glyph: if the cursor already sits at the right edge
/// the screen first shifts as for a newline, then the glyph is stored at the
/// cursor on the bottom row and the cursor advances one column.
pub open spec fn spec_put(v: ScreenView, byte: u8) -> ScreenView {
    let w = if v.col >= BUFFER_WIDTH {
        spec_new_line(v)
    } else {
        v
    };
    ScreenView {
        grid: w.grid.update(
            BUFFER_HEIGHT - 1,
            w.grid[BUFFER_HEIGHT - 1].update(
                w.col,
                ScreenChar { ascii_character: spec_glyph(byte), color_code: w.attr },
            ),
        ),
        attr: w.attr,
        col: w.col + 1,
    }
}

/// Effect of writing one byte to a screen, by character class: newline shifts
/// the rows, escape is consumed with no effect, backspace steps the cursor
/// back, the null byte clears the whole screen, and every other byte is
/// placed as a glyph.
pub open spec fn spec_write_byte(v: ScreenView, byte: u8) -> ScreenView {
    if byte == 0x0a {
        spec_new_line(v)
    } else if byte == 0x1b {
        v
    } else if byte == 0x08 {
        spec_backspace(v)
    } else if byte == 0x00 {
        spec_clear(v)
    } else {
        spec_put(v, byte)
    }
}

/// Effect of writing a whole byte sequence, front to back.
pub open spec fn spec_write_bytes(v: ScreenView, s: Seq<u8>) -> ScreenView
    decreases s.len(),
{
    if s.len() == 0 {
        v
    } else {
        spec_write_bytes(spec_write_byte(v, s[0]), s.drop_first())
    }
}

/// Every transition preserves well-formedness of the screen state.
pub proof fn lemma_write_byte_wf(v: ScreenView, byte: u8)
    requires
        wf_screen(v),
    ensures
        wf_screen(spec_write_byte(v, byte)),
{
}

/// One independently addressable character grid, with its cursor column and
/// the color attribute applied to subsequent writes.
pub struct Screen {
    chars: [[ScreenChar; 80]; 25],
    color_code: ColorCode,
    column_position: usize,
}

impl View for Screen {
    type V = ScreenView;

    closed spec fn view(&self) -> ScreenView {
        ScreenView {
            grid: Seq::new(BUFFER_HEIGHT as nat, |r: int| self.chars@[r]@),
            attr: self.color_code,
            col: self.column_position as int,
        }
    }
}

impl Screen {
    /// The cursor column never exceeds the screen width.
    pub closed spec fn wf(&self) -> bool {
        self.column_position <= BUFFER_WIDTH
    }

    /// The grid dimensions of a screen are fixed by its representation.
    pub proof fn lemma_view_wf(&self)
        requires
            self.wf(),
        ensures
            wf_screen(self@),
    {
    }

    /// A fresh screen: entirely blank in the given attribute, cursor at 0.
    pub fn new(color_code: ColorCode) -> (s: Screen)
        ensures
            s.wf(),
            s@ == spec_blank_screen(color_code),
    {
        let blank = ScreenChar { ascii_character: 32, color_code };
        let s = Screen { chars: [[blank; 80]; 25], color_code, column_position: 0 };
        proof {
            assert forall|r: int| 0 <= r < BUFFER_HEIGHT implies s@.grid[r]
                =~= spec_blank_screen(color_code).grid[r] by {};
            assert(s@.grid =~= spec_blank_screen(color_code).grid);
            assert(s@ =~= spec_blank_screen(color_code));
        }
        s
    }

    /// Overwrites one row with blank cells in the current attribute.
    fn clear_row(&mut self, row: usize)
        requires
            row < BUFFER_HEIGHT,
        ensures
            final(self).wf() == old(self).wf(),
            final(self)@ == (ScreenView {
                grid: old(self)@.grid.update(row as int, spec_blank_row(old(self)@.attr)),
                ..old(self)@
            }),
    {
        let blank = ScreenChar { ascii_character: 32, color_code: self.color_code };
        let mut col: usize = 0;
        while col < BUFFER_WIDTH
            invariant
                col <= BUFFER_WIDTH,
                row < BUFFER_HEIGHT,
                blank == blank_cell(old(self)@.attr),
                self.color_code == old(self).color_code,
                self.column_position == old(self).column_position,
                forall|r: int| 0 <= r < BUFFER_HEIGHT && r != row ==> self.chars@[r] == old(
                    self,
                ).chars@[r],
                forall|c: int| 0 <= c < col ==> self.chars@[row as int]@[c] == blank,
                forall|c: int|
                    col <= c < BUFFER_WIDTH ==> self.chars@[row as int]@[c] == old(
                        self,
                    ).chars@[row as int]@[c],
            decreases BUFFER_WIDTH - col,
        {
            self.chars[row][col] = blank;
            col = col + 1;
        }
        proof {
            let target = ScreenView {
                grid: old(self)@.grid.update(row as int, spec_blank_row(old(self)@.attr)),
                ..old(self)@
            };
            assert forall|r: int| 0 <= r < BUFFER_HEIGHT implies self@.grid[r] =~= target.grid[r]
            by {
                if r != row {
                    assert(self.chars@[r] == old(self).chars@[r]);
                }
            }
            assert(self@.grid =~= target.grid);
        }
    }

    /// Shifts every row up by one, blanks the bottom row, and returns the
    /// cursor to column 0.
    fn new_line(&mut self)
        ensures
            final(self).wf(),
            final(self)@ == spec_new_line(old(self)@),
    {
        let mut row: usize = 1;
        while row < BUFFER_HEIGHT
            invariant
                1 <= row <= BUFFER_HEIGHT,
                self.color_code == old(self).color_code,
                self.column_position == old(self).column_position,
                forall|r: int|
                    0 <= r < row - 1 ==> self.chars@[r] == old(self).chars@[r + 1],
                forall|r: int|
                    row - 1 <= r < BUFFER_HEIGHT ==> self.chars@[r] == old(self).chars@[r],
            decreases BUFFER_HEIGHT - row,
        {
            let prev: usize = row - 1;
            self.chars[prev] = self.chars[row];
            row = row + 1;
        }
        self.clear_row(BUFFER_HEIGHT - 1);
        self.column_position = 0;
        proof {
            let target = spec_new_line(old(self)@);
            assert forall|r: int| 0 <= r < BUFFER_HEIGHT implies self@.grid[r] =~= target.grid[r]
            by {}
            assert(self@.grid =~= target.grid);
        }
    }

    /// Blanks every cell in the current attribute and returns the cursor to
    /// column 0.
    pub fn clear(&mut self)
        ensures
            final(self).wf(),
            final(self)@ == spec_clear(old(self)@),
    {
        let mut row: usize = 0;
        while row < BUFFER_HEIGHT
            invariant
                row <= BUFFER_HEIGHT,
                self.color_code == old(self).color_code,
                self.column_position == old(self).column_position,
                forall|r: int|
                    0 <= r < row ==> #[trigger] self.chars@[r]@ == spec_blank_row(old(self)@.attr),
                forall|r: int|
                    row <= r < BUFFER_HEIGHT ==> #[trigger] self.chars@[r]@ == old(
                        self,
                    ).chars@[r]@,
            decreases BUFFER_HEIGHT - row,
        {
            let ghost prev = *self;
            self.clear_row(row);
            proof {
                assert forall|r: int|
                    0 <= r < BUFFER_HEIGHT implies #[trigger] self.chars@[r]@ == self@.grid[r] by {}
                assert forall|r: int|
                    0 <= r < BUFFER_HEIGHT implies #[trigger] prev.chars@[r]@ == prev@.grid[r] by {}
            }
            row = row + 1;
        }
        self.column_position = 0;
        proof {
            let target = spec_clear(old(self)@);
            assert forall|r: int| 0 <= r < BUFFER_HEIGHT implies self@.grid[r] =~= target.grid[r]
            by {}
            assert(self@.grid =~= target.grid);
        }
    }

    /// Processes one byte on this screen, per the character-class rules of
    /// `spec_write_byte`.
    pub fn write_byte(&mut self, byte: u8)
        requires
            old(self).wf(),
        ensures
            final(self).wf(),
            final(self)@ == spec_write_byte(old(self)@, byte),
    {
        if byte == 0x0a {
            self.new_line();
        } else if byte == 0x1b {
            // Consumed with no visual effect; the layer above uses it as a
            // mode-switch sentinel.
        } else if byte == 0x08 {
            if self.column_position > 0 {
                self.column_position = self.column_position - 1;
                let col: usize = self.column_position;
                let blank = ScreenChar { ascii_character: 32, color_code: self.color_code };
                self.chars[BUFFER_HEIGHT - 1][col] = blank;
                proof {
                    let target = spec_backspace(old(self)@);
                    assert forall|r: int| 0 <= r < BUFFER_HEIGHT implies self@.grid[r]
                        =~= target.grid[r] by {}
                    assert(self@.grid =~= target.grid);
                }
            }
        } else if byte == 0x00 {
            self.clear();
        } else {
            if self.column_position >= BUFFER_WIDTH {
                self.new_line();
            }
            let ghost w = if old(self)@.col >= BUFFER_WIDTH {
                spec_new_line(old(self)@)
            } else {
                old(self)@
            };
            assert(self@ == w);
            let col: usize = self.column_position;
            let glyph: u8 = if 0x20 <= byte && byte <= 0x7e {
                byte
            } else {
                0xfe
            };
            let cell = ScreenChar { ascii_character: glyph, color_code: self.color_code };
            self.chars[BUFFER_HEIGHT - 1][col] = cell;
            self.column_position = col + 1;
            proof {
                let target = spec_put(old(self)@, byte);
                assert forall|r: int| 0 <= r < BUFFER_HEIGHT implies self@.grid[r]
                    =~= target.grid[r] by {}
                assert(self@.grid =~= target.grid);
            }
        }
    }

    /// The cursor column.
    pub fn column(&self) -> (c: usize)
        ensures
            c == self@.col,
    {
        self.column_position
    }

    /// The cell at the given position.
    pub fn char_at(&self, row: usize, col: usize) -> (cell: ScreenChar)
        requires
            row < BUFFER_HEIGHT,
            col < BUFFER_WIDTH,
        ensures
            cell == self@.grid[row as int][col as int],
    {
        self.chars[row][col]
    }

    /// Replaces the attribute applied to subsequent writes.
    pub fn set_color(&mut self, color_code: ColorCode)
        ensures
            final(self).wf() == old(self).wf(),
            final(self)@ == (ScreenView { attr: color_code, ..old(self)@ }),
    {
        self.color_code = color_code;
    }
}

/// Number of bytes in the display buffer: two per cell.
pub const MIRROR_BYTES: usize = 2 * BUFFER_HEIGHT * BUFFER_WIDTH;

/// The byte layout the display device expects for a grid: cells in row-major
/// order, each contributing its character byte followed by its packed
/// attribute byte.
pub open spec fn spec_mirror(g: Seq<Seq<ScreenChar>>) -> Seq<u8> {
    Seq::new(
        MIRROR_BYTES as nat,
        |i: int|
            {
                let cell = g[i / 2 / (BUFFER_WIDTH as int)][i / 2 % (BUFFER_WIDTH as int)];
                if i % 2 == 0 {
                    cell.ascii_character
                } else {
                    cell.color_code.0
                }
            },
    )
}

/// The console: two screens, the index of the one currently mirrored to the
/// display, and the flat byte buffer holding that mirror.
pub struct Writer {
    buffer: Vec<u8>,
    screens: [Screen; 2],
    screen: usize,
}

impl Writer {
    /// The index of the currently selected screen.
    pub closed spec fn selected(&self) -> int {
        self.screen as int
    }

    /// The state of the screen with the given index.
    pub closed spec fn screen_view(&self, i: int) -> ScreenView {
        self.screens@[i]@
    }

    /// The bytes currently held by the display buffer.
    pub closed spec fn mirror(&self) -> Seq<u8> {
        self.buffer@
    }

    /// A valid selection, two well-formed screens, and a full-size buffer.
    pub closed spec fn wf(&self) -> bool {
        &&& self.screen < 2
        &&& self.screens@[0].wf()
        &&& self.screens@[1].wf()
        &&& self.buffer@.len() == MIRROR_BYTES
    }

    /// The screens of a well-formed console are well-formed states.
    pub proof fn lemma_wf_screens(&self)
        requires
            self.wf(),
        ensures
            0 <= self.selected() < 2,
            wf_screen(self.screen_view(0)),
            wf_screen(self.screen_view(1)),
    {
        self.screens@[0].lemma_view_wf();
        self.screens@[1].lemma_view_wf();
    }

    /// Recomputes the display buffer from the selected screen, so that it
    /// reflects that screen's full contents.
    fn mirror_screen(&mut self)
        requires
            old(self).screen < 2,
            old(self).screens@[0].wf(),
            old(self).screens@[1].wf(),
        ensures
            final(self).wf(),
            final(self).selected() == old(self).selected(),
            final(self).screen_view(0) == old(self).screen_view(0),
            final(self).screen_view(1) == old(self).screen_view(1),
            final(self).mirror() == spec_mirror(
                old(self).screen_view(old(self).selected()).grid,
            ),
    {
        let ghost g = self.screen_view(self.selected()).grid;
        proof {
            self.screens@[0].lemma_view_wf();
            self.screens@[1].lemma_view_wf();
        }
        self.buffer = Vec::new();
        let mut row: usize = 0;
        while row < BUFFER_HEIGHT
            invariant
                row <= BUFFER_HEIGHT,
                self.screen < 2,
                self.screens == old(self).screens,
                self.screen == old(self).screen,
                g == self.screen_view(self.selected()).grid,
                wf_screen(self.screen_view(self.selected())),
                self.buffer@.len() == 2 * row * BUFFER_WIDTH,
                forall|j: int|
                    0 <= j < self.buffer@.len() ==> self.buffer@[j] == spec_mirror(g)[j],
            decreases BUFFER_HEIGHT - row,
        {
            let mut col: usize = 0;
            while col < BUFFER_WIDTH
                invariant
                    row < BUFFER_HEIGHT,
                    col <= BUFFER_WIDTH,
                    self.screen < 2,
                    self.screens == old(self).screens,
                    self.screen == old(self).screen,
                    g == self.screen_view(self.selected()).grid,
                    wf_screen(self.screen_view(self.selected())),
                    self.buffer@.len() == 2 * (row * BUFFER_WIDTH + col),
                    forall|j: int|
                        0 <= j < self.buffer@.len() ==> self.buffer@[j] == spec_mirror(g)[j],
                decreases BUFFER_WIDTH - col,
            {
                let idx: usize = self.screen;
                let cell = self.screens[idx].char_at(row, col);
                let ghost k = (row * BUFFER_WIDTH + col) as int;
                proof {
                    vstd::arithmetic::div_mod::lemma_fundamental_div_mod_converse(
                        2 * k,
                        2,
                        k,
                        0,
                    );
                    vstd::arithmetic::div_mod::lemma_fundamental_div_mod_converse(
                        2 * k + 1,
                        2,
                        k,
                        1,
                    );
                    vstd::arithmetic::div_mod::lemma_fundamental_div_mod_converse(
                        k,
                        BUFFER_WIDTH as int,
                        row as int,
                        col as int,
                    );
                    assert(spec_mirror(g)[2 * k] == cell.ascii_character);
                    assert(spec_mirror(g)[2 * k + 1] == cell.color_code.0);
                }
                self.buffer.push(cell.ascii_character);
                self.buffer.push(cell.color_code.0);
                col = col + 1;
            }
            row = row + 1;
        }
        proof {
            assert(self.buffer@ =~= spec_mirror(g));
        }
    }

    /// A fresh console: screen 0 (white on black) selected and mirrored,
    /// screen 1 white on light gray, both blank.
    pub fn new() -> (w: Writer)
        ensures
            w.wf(),
            w.selected() == 0,
            w.screen_view(0) == spec_blank_screen(ColorCode(15)),
            w.screen_view(1) == spec_blank_screen(ColorCode(127)),
            w.mirror() == spec_mirror(spec_blank_screen(ColorCode(15)).grid),
    {
        let mut w = Writer {
            buffer: Vec::new(),
            screens: [
                Screen::new(ColorCode::new(Color::White, Color::Black)),
                Screen::new(ColorCode::new(Color::White, Color::LightGray)),
            ],
            screen: 0,
        };
        w.mirror_screen();
        w
    }

    /// Processes one byte on the selected screen.  The other screen, the
    /// selection and the display buffer are untouched; the buffer is
    /// refreshed by `write_string`, not here.
    pub fn write_byte(&mut self, byte: u8)
        requires
            old(self).wf(),
        ensures
            final(self).wf(),
            final(self).selected() == old(self).selected(),
            final(self).screen_view(old(self).selected()) == spec_write_byte(
                old(self).screen_view(old(self).selected()),
                byte,
            ),
            final(self).screen_view(1 - old(self).selected()) == old(self).screen_view(
                1 - old(self).selected(),
            ),
            final(self).mirror() == old(self).mirror(),
    {
        let idx: usize = self.screen;
        self.screens[idx].write_byte(byte);
    }

    /// Writes every byte of the string to the selected screen, then mirrors
    /// that screen's full contents into the display buffer.  The other
    /// screen and the selection are untouched.
    pub fn write_string(&mut self, s: &str)
        requires
            old(self).wf(),
        ensures
            final(self).wf(),
            final(self).selected() == old(self).selected(),
            final(self).screen_view(old(self).selected()) == spec_write_bytes(
                old(self).screen_view(old(self).selected()),
                s.spec_bytes(),
            ),
            final(self).screen_view(1 - old(self).selected()) == old(self).screen_view(
                1 - old(self).selected(),
            ),
            final(self).mirror() == spec_mirror(
                final(self).screen_view(old(self).selected()).grid,
            ),
    {
        let bytes = s.as_bytes();
        let ghost sel = self.selected();
        let ghost start = self.screen_view(sel);
        let mut i: usize = 0;
        while i < bytes.len()
            invariant
                i <= bytes.len(),
                bytes@ == s.spec_bytes(),
                self.wf(),
                self.selected() == sel,
                0 <= sel < 2,
                self.screen_view(sel) == spec_write_bytes(start, bytes@.take(i as int)),
                self.screen_view(1 - sel) == old(self).screen_view(1 - sel),
                self.mirror() == old(self).mirror(),
            decreases bytes.len() - i,
        {
            let b: u8 = bytes[i];
            self.write_byte(b);
            proof {
                lemma_write_bytes_snoc(start, bytes@.take(i as int), b);
                assert(bytes@.take(i as int).push(b) =~= bytes@.take(i + 1));
            }
            i = i + 1;
        }
        proof {
            assert(bytes@.take(bytes@.len() as int) =~= bytes@);
        }
        self.mirror_screen();
    }
}

/// A screen state with its write attribute replaced.
pub open spec fn spec_with_attr(v: ScreenView, attr: ColorCode) -> ScreenView {
    ScreenView { attr, ..v }
}

impl Writer {
    /// The single console write operation: selects the target screen, applies
    /// the given colors to it, renders the string there, and mirrors that
    /// screen to the display buffer.  The other screen keeps its cells,
    /// cursor and attribute.
    pub fn write(&mut self, s: &str, fg: Color, bg: Color, screen: usize)
        requires
            old(self).wf(),
            screen < 2,
        ensures
            final(self).wf(),
            final(self).selected() == screen,
            final(self).screen_view(screen as int) == spec_write_bytes(
                spec_with_attr(old(self).screen_view(screen as int), spec_color_code(fg, bg)),
                s.spec_bytes(),
            ),
            final(self).screen_view(1 - screen as int) == old(self).screen_view(
                1 - screen as int,
            ),
            final(self).mirror() == spec_mirror(final(self).screen_view(screen as int).grid),
    {
        self.screen = screen;
        let code = ColorCode::new(fg, bg);
        self.screens[screen].set_color(code);
        self.write_string(s);
    }

    /// Selects the given screen, blanks every one of its cells in its
    /// current attribute, returns its cursor to column 0, and mirrors it to
    /// the display buffer.  The other screen is untouched.
    pub fn clear(&mut self, screen: usize)
        requires
            old(self).wf(),
            screen < 2,
        ensures
            final(self).wf(),
            final(self).selected() == screen,
            final(self).screen_view(screen as int) == spec_clear(
                old(self).screen_view(screen as int),
            ),
            final(self).screen_view(1 - screen as int) == old(self).screen_view(
                1 - screen as int,
            ),
            final(self).mirror() == spec_mirror(final(self).screen_view(screen as int).grid),
    {
        self.screen = screen;
        self.screens[screen].clear();
        self.mirror_screen();
    }

    /// The index of the screen currently mirrored to the display.
    pub fn selected_index(&self) -> (i: usize)
        ensures
            i == self.selected(),
    {
        self.screen
    }

    /// The cell at the given position of the given screen.
    pub fn screen_char(&self, screen: usize, row: usize, col: usize) -> (cell: ScreenChar)
        requires
            screen < 2,
            row < BUFFER_HEIGHT,
            col < BUFFER_WIDTH,
        ensures
            cell == self.screen_view(screen as int).grid[row as int][col as int],
    {
        self.screens[screen].char_at(row, col)
    }

    /// The cursor column of the given screen.
    pub fn cursor(&self, screen: usize) -> (c: usize)
        requires
            screen < 2,
        ensures
            c == self.screen_view(screen as int).col,
    {
        self.screens[screen].column()
    }

    /// One byte of the display buffer.
    pub fn buffer_byte(&self, i: usize) -> (b: u8)
        requires
            self.wf(),
            i < MIRROR_BYTES,
        ensures
            b == self.mirror()[i as int],
    {
        self.buffer[i]
    }
}

impl Default for Writer {
    /// The same console as `Writer::new`.
    fn default() -> (w: Self)
        ensures
            w.wf(),
            w.selected() == 0,
            w.screen_view(0) == spec_blank_screen(ColorCode(15)),
            w.screen_view(1) == spec_blank_screen(ColorCode(127)),
            w.mirror() == spec_mirror(spec_blank_screen(ColorCode(15)).grid),
    {
        Self::new()
    }
}

/// A backspace with the cursor already at column 0 changes nothing: no
/// negative cursor, no row shift, no cell touched.
pub proof fn lemma_backspace_at_zero(v: ScreenView)
    requires
        v.col == 0,
    ensures
        spec_write_byte(v, 0x08) == v,
{
}

/// After a clear, every cell is blank in the screen's then-current attribute
/// and the cursor is at column 0, regardless of the prior contents.
pub proof fn lemma_clear_blank(v: ScreenView)
    ensures
        spec_clear(v).col == 0,
        spec_clear(v).attr == v.attr,
        forall|r: int, c: int|
            0 <= r < BUFFER_HEIGHT && 0 <= c < BUFFER_WIDTH ==> #[trigger] spec_clear(
                v,
            ).grid[r][c] == blank_cell(v.attr),
{
}

/// Printable characters that fit on the current line fill cells left to
/// right on the bottom row: no row shifts, untouched cells keep their
/// contents, and the cursor advances by one column per character.
pub proof fn lemma_printables_fill_line(v: ScreenView, s: Seq<u8>)
    requires
        wf_screen(v),
        v.col + s.len() <= BUFFER_WIDTH,
        forall|i: int| 0 <= i < s.len() ==> 0x20 <= #[trigger] s[i] <= 0x7e,
    ensures
        spec_write_bytes(v, s).attr == v.attr,
        spec_write_bytes(v, s).col == v.col + s.len(),
        forall|r: int|
            0 <= r < BUFFER_HEIGHT - 1 ==> #[trigger] spec_write_bytes(v, s).grid[r] == v.grid[r],
        forall|c: int|
            0 <= c < BUFFER_WIDTH && !(v.col <= c < v.col + s.len()) ==> #[trigger] spec_write_bytes(
                v,
                s,
            ).grid[BUFFER_HEIGHT - 1][c] == v.grid[BUFFER_HEIGHT - 1][c],
        forall|i: int|
            0 <= i < s.len() ==> #[trigger] spec_write_bytes(v, s).grid[BUFFER_HEIGHT - 1][v.col
                + i] == (ScreenChar { ascii_character: s[i], color_code: v.attr }),
    decreases s.len(),
{
    if s.len() > 0 {
        let v1 = spec_write_byte(v, s[0]);
        assert(v1 == spec_put(v, s[0]));
        lemma_write_byte_wf(v, s[0]);
        lemma_printables_fill_line(v1, s.drop_first());
        let w = spec_write_bytes(v, s);
        assert(w == spec_write_bytes(v1, s.drop_first()));
        assert forall|i: int| 0 <= i < s.len() implies #[trigger] w.grid[BUFFER_HEIGHT - 1][v.col
            + i] == ScreenChar { ascii_character: s[i], color_code: v.attr } by {
            if i == 0 {
                assert(w.grid[BUFFER_HEIGHT - 1][v1.col + (i - 1)] == v1.grid[BUFFER_HEIGHT
                    - 1][v.col]);
            } else {
                assert(w.grid[BUFFER_HEIGHT - 1][v1.col + (i - 1)] == ScreenChar {
                    ascii_character: s.drop_first()[i - 1],
                    color_code: v1.attr,
                });
            }
        }
    }
}

/// Writing exactly one full line of printable characters leaves the cursor
/// at the width, with no row shift; the next printable character then causes
/// exactly one shift, after which it stands alone at column 0 of the bottom
/// row and the full line stands one row higher.
pub proof fn lemma_line_wrap(v: ScreenView, s: Seq<u8>, b: u8)
    requires
        wf_screen(v),
        v.col == 0,
        s.len() == BUFFER_WIDTH,
        forall|i: int| 0 <= i < s.len() ==> 0x20 <= #[trigger] s[i] <= 0x7e,
        0x20 <= b <= 0x7e,
    ensures
        spec_write_bytes(v, s).col == BUFFER_WIDTH,
        forall|r: int|
            0 <= r < BUFFER_HEIGHT - 1 ==> #[trigger] spec_write_bytes(v, s).grid[r] == v.grid[r],
        spec_write_byte(spec_write_bytes(v, s), b).col == 1,
        forall|r: int|
            0 <= r < BUFFER_HEIGHT - 1 ==> #[trigger] spec_write_byte(
                spec_write_bytes(v, s),
                b,
            ).grid[r] == spec_write_bytes(v, s).grid[r + 1],
        spec_write_byte(spec_write_bytes(v, s), b).grid[BUFFER_HEIGHT - 1] == spec_blank_row(
            v.attr,
        ).update(0, (ScreenChar { ascii_character: b, color_code: v.attr })),
{
    lemma_printables_fill_line(v, s);
    let w = spec_write_bytes(v, s);
    let u = spec_write_byte(w, b);
    assert(u == spec_put(w, b));
    let shifted = spec_new_line(w);
    assert(u.grid[BUFFER_HEIGHT - 1] =~= spec_blank_row(v.attr).update(
        0,
        ScreenChar { ascii_character: b, color_code: v.attr },
    ));
    assert forall|r: int| 0 <= r < BUFFER_HEIGHT - 1 implies #[trigger] u.grid[r] == w.grid[r + 1]
    by {
        assert(u.grid[r] == shifted.grid[r]);
    }
}

/// Writing a sequence and then one more byte is the same as writing the
/// sequence extended by that byte.
pub proof fn lemma_write_bytes_snoc(v: ScreenView, s: Seq<u8>, b: u8)
    ensures
        spec_write_bytes(v, s.push(b)) == spec_write_byte(spec_write_bytes(v, s), b),
    decreases s.len(),
{
    if s.len() == 0 {
        assert(s.push(b).drop_first() =~= Seq::<u8>::empty());
        assert(s.push(b)[0] == b);
        assert(spec_write_bytes(v, s.push(b)) == spec_write_bytes(
            spec_write_byte(v, b),
            Seq::<u8>::empty(),
        ));
        assert(spec_write_bytes(spec_write_byte(v, b), Seq::<u8>::empty()) == spec_write_byte(
            v,
            b,
        ));
        assert(spec_write_bytes(v, s) == v);
    } else {
        let w = spec_write_byte(v, s[0]);
        assert(s.push(b).drop_first() =~= s.drop_first().push(b));
        assert(s.push(b)[0] == s[0]);
        assert(spec_write_bytes(v, s.push(b)) == spec_write_bytes(w, s.drop_first().push(b)));
        lemma_write_bytes_snoc(w, s.drop_first(), b);
        assert(spec_write_bytes(v, s) == spec_write_bytes(w, s.drop_first()));
    }
}

} // verus!
