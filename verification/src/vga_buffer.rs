//! The text-mode frame-buffer writer: a cursor/color state machine over a
//! fixed grid of character cells.
//!
//! The hardware presents the display as a flat array of `BUFFER_WIDTH` x
//! `BUFFER_HEIGHT` two-byte cells, each a code point and a packed color
//! attribute. The writer owns the logical right to write that grid; here
//! the grid is held as an in-memory array of cells behind index-validated
//! accessors, so every write is bounds-checked and the cursor arithmetic is
//! proved to keep line and column in range. The display is a circular
//! overwrite log: advancing past the last line wraps to the first, silently
//! overwriting it.

use vstd::pervasive::VecAdditionalExecFns;
use vstd::prelude::*;

verus! {

/// Width of the text buffer in character cells.
pub const BUFFER_WIDTH: usize = 80;

/// Height of the text buffer in lines.
pub const BUFFER_HEIGHT: usize = 25;

/// Code point that triggers the newline transition.
pub const NEWLINE_CODE: u8 = 0x0a;

/// Code point of the blank cell that clearing fills the grid with.
pub const SPACE_CODE: u8 = 0x20;

/// Packed byte of the default color: white foreground on black background.
pub const DEFAULT_COLOR_CODE: u8 = 0x0f;

/// 4-bit representation of a display color. The "bright" values used as a
/// background make text blink on real hardware.
#[derive(Clone, Copy, Debug, PartialEq, Eq, Structural)]
pub enum Color {
    Black,
    Blue,
    Green,
    Cyan,
    Red,
    Magenta,
    Brown,
    LightGray,
    DarkGray,
    LightBlue,
    LightGreen,
    LightCyan,
    LightRed,
    LightMagenta,
    Yellow,
    White,
}

/// The 4-bit code of a color, as the hardware encodes it.
pub open spec fn spec_color_code(c: Color) -> u8 {
    match c {
        Color::Black => 0,
        Color::Blue => 1,
        Color::Green => 2,
        Color::Cyan => 3,
        Color::Red => 4,
        Color::Magenta => 5,
        Color::Brown => 6,
        Color::LightGray => 7,
        Color::DarkGray => 8,
        Color::LightBlue => 9,
        Color::LightGreen => 10,
        Color::LightCyan => 11,
        Color::LightRed => 12,
        Color::LightMagenta => 13,
        Color::Yellow => 14,
        Color::White => 15,
    }
}

/// The color a 4-bit code denotes: the explicit, total inverse of
/// `spec_color_code` on codes below 16.
pub open spec fn spec_color_of(code: u8) -> Color
    recommends
        code < 16,
{
    if code == 0 {
        Color::Black
    } else if code == 1 {
        Color::Blue
    } else if code == 2 {
        Color::Green
    } else if code == 3 {
        Color::Cyan
    } else if code == 4 {
        Color::Red
    } else if code == 5 {
        Color::Magenta
    } else if code == 6 {
        Color::Brown
    } else if code == 7 {
        Color::LightGray
    } else if code == 8 {
        Color::DarkGray
    } else if code == 9 {
        Color::LightBlue
    } else if code == 10 {
        Color::LightGreen
    } else if code == 11 {
        Color::LightCyan
    } else if code == 12 {
        Color::LightRed
    } else if code == 13 {
        Color::LightMagenta
    } else if code == 14 {
        Color::Yellow
    } else {
        Color::White
    }
}

/// Decoding the code of a color gives the color back.
pub proof fn lemma_color_code_round_trip(c: Color)
    ensures
        spec_color_code(c) < 16,
        spec_color_of(spec_color_code(c)) == c,
{
}

impl Color {
    /// The 4-bit code of this color.
    pub fn code(self) -> (n: u8)
        ensures
            n == spec_color_code(self),
            n < 16,
    {
        match self {
            Color::Black => 0,
            Color::Blue => 1,
            Color::Green => 2,
            Color::Cyan => 3,
            Color::Red => 4,
            Color::Magenta => 5,
            Color::Brown => 6,
            Color::LightGray => 7,
            Color::DarkGray => 8,
            Color::LightBlue => 9,
            Color::LightGreen => 10,
            Color::LightCyan => 11,
            Color::LightRed => 12,
            Color::LightMagenta => 13,
            Color::Yellow => 14,
            Color::White => 15,
        }
    }

    /// The color a 4-bit code denotes: the explicit mapping table, never a
    /// reinterpretation of raw bits.
    pub fn from_code(code: u8) -> (c: Color)
        requires
            code < 16,
        ensures
            c == spec_color_of(code),
    {
        if code == 0 {
            Color::Black
        } else if code == 1 {
            Color::Blue
        } else if code == 2 {
            Color::Green
        } else if code == 3 {
            Color::Cyan
        } else if code == 4 {
            Color::Red
        } else if code == 5 {
            Color::Magenta
        } else if code == 6 {
            Color::Brown
        } else if code == 7 {
            Color::LightGray
        } else if code == 8 {
            Color::DarkGray
        } else if code == 9 {
            Color::LightBlue
        } else if code == 10 {
            Color::LightGreen
        } else if code == 11 {
            Color::LightCyan
        } else if code == 12 {
            Color::LightRed
        } else if code == 13 {
            Color::LightMagenta
        } else if code == 14 {
            Color::Yellow
        } else {
            Color::White
        }
    }
}

/// A background and a foreground color packed into one byte: background in
/// the high nibble, foreground in the low nibble.
#[derive(Clone, Copy, Debug, PartialEq, Eq, Structural)]
pub struct ColorInfo(u8);

impl View for ColorInfo {
    type V = u8;

    /// The packed byte.
    closed spec fn view(&self) -> u8 {
        self.0
    }
}

/// The packed byte that holds `bg` in the high nibble and `fg` in the low
/// nibble.
pub open spec fn spec_pair_code(bg: Color, fg: Color) -> u8 {
    (spec_color_code(bg) << 4) | spec_color_code(fg)
}

impl ColorInfo {
    /// The background: the high nibble, decoded.
    pub open spec fn spec_bg(self) -> Color {
        spec_color_of(self@ >> 4)
    }

    /// The foreground: the low nibble, decoded.
    pub open spec fn spec_fg(self) -> Color {
        spec_color_of(self@ & 0x0f)
    }

    /// Construct the default white-on-black color pair.
    pub fn new() -> (c: Self)
        ensures
            c@ == DEFAULT_COLOR_CODE,
            c.spec_bg() == Color::Black,
            c.spec_fg() == Color::White,
    {
        let c = ColorInfo(DEFAULT_COLOR_CODE);
        proof {
            assert(0x0fu8 >> 4 == 0 && 0x0fu8 & 0x0f == 15) by (bit_vector);
        }
        c
    }

    /// Construct a color pair from a background and a foreground.
    pub fn pair(bg: Color, fg: Color) -> (c: Self)
        ensures
            c@ == spec_pair_code(bg, fg),
            c.spec_bg() == bg,
            c.spec_fg() == fg,
    {
        let c = Self::new().with_bg(bg).with_fg(fg);
        proof {
            let b = spec_color_code(bg);
            let f = spec_color_code(fg);
            assert((((0x0fu8 & 0x0f) | (b << 4)) & 0xf0) | f == (b << 4) | f) by (bit_vector)
                requires
                    b < 16 && f < 16,
            ;
            lemma_pair_code_round_trip(bg, fg);
        }
        c
    }

    /// Read the background back from the high nibble.
    pub fn bg(&self) -> (c: Color)
        ensures
            c == self.spec_bg(),
    {
        let byte = self.0;
        let code = byte >> 4;
        proof {
            assert(byte >> 4 < 16) by (bit_vector);
        }
        Color::from_code(code)
    }

    /// Read the foreground back from the low nibble.
    pub fn fg(&self) -> (c: Color)
        ensures
            c == self.spec_fg(),
    {
        let byte = self.0;
        let code = byte & 0x0f;
        proof {
            assert(byte & 0x0f < 16) by (bit_vector);
        }
        Color::from_code(code)
    }

    /// Consume a color pair to produce one with a new background: the high
    /// nibble is cleared, then set, so no stale bits survive. The
    /// foreground is unchanged.
    pub fn with_bg(self, color: Color) -> (c: Self)
        ensures
            c@ == (self@ & 0x0f) | (spec_color_code(color) << 4),
            c.spec_bg() == color,
            c.spec_fg() == self.spec_fg(),
    {
        let byte = self.0;
        let code = color.code();
        let c = ColorInfo((byte & 0x0f) | (code << 4));
        proof {
            assert(((byte & 0x0f) | (code << 4)) >> 4 == code && ((byte & 0x0f) | (code << 4))
                & 0x0f == byte & 0x0f) by (bit_vector)
                requires
                    code < 16,
            ;
            lemma_color_code_round_trip(color);
        }
        c
    }

    /// Consume a color pair to produce one with a new foreground: the low
    /// nibble is cleared, then set, so no stale bits survive. The
    /// background is unchanged.
    pub fn with_fg(self, color: Color) -> (c: Self)
        ensures
            c@ == (self@ & 0xf0) | spec_color_code(color),
            c.spec_fg() == color,
            c.spec_bg() == self.spec_bg(),
    {
        let byte = self.0;
        let code = color.code();
        let c = ColorInfo((byte & 0xf0) | code);
        proof {
            assert(((byte & 0xf0) | code) & 0x0f == code && ((byte & 0xf0) | code) >> 4 == byte
                >> 4) by (bit_vector)
                requires
                    code < 16,
            ;
            lemma_color_code_round_trip(color);
        }
        c
    }
}

impl Default for ColorInfo {
    /// The default color pair: white foreground on black background.
    fn default() -> (c: Self)
        ensures
            c@ == DEFAULT_COLOR_CODE,
    {
        ColorInfo(DEFAULT_COLOR_CODE)
    }
}

/// A packed color byte decodes back to exactly the pair it was built from:
/// for every background and foreground, the high nibble of the pair code is
/// the background's code and the low nibble is the foreground's code.
pub proof fn lemma_pair_code_round_trip(bg: Color, fg: Color)
    ensures
        spec_color_of(spec_pair_code(bg, fg) >> 4) == bg,
        spec_color_of(spec_pair_code(bg, fg) & 0x0f) == fg,
{
    let b = spec_color_code(bg);
    let f = spec_color_code(fg);
    assert(((b << 4) | f) >> 4 == b && ((b << 4) | f) & 0x0f == f) by (bit_vector)
        requires
            b < 16 && f < 16,
    ;
    lemma_color_code_round_trip(bg);
    lemma_color_code_round_trip(fg);
}

/// One display cell: a code point and the color it is shown in.
#[derive(Clone, Copy, Debug, PartialEq, Eq, Structural)]
pub struct Character {
    pub char: u8,
    pub color: ColorInfo,
}

impl Character {
    /// Create a white-on-black cell from a code point.
    pub fn new(char: u8) -> (ch: Self)
        ensures
            ch.char == char,
            ch.color@ == DEFAULT_COLOR_CODE,
    {
        Self::with_color(char, ColorInfo::default())
    }

    /// Create a cell from a code point and an explicit color.
    pub fn with_color(char: u8, color: ColorInfo) -> (ch: Self)
        ensures
            ch == (Character { char, color }),
    {
        Character { char, color }
    }
}

/// The mathematical state of the display: cursor line and column, cursor
/// color, and the grid of cells in row-major order.
pub ghost struct ScreenState {
    pub line: int,
    pub column: int,
    pub color: ColorInfo,
    pub grid: Seq<Character>,
}

/// The flat row-major index of the cell at (line, column).
pub open spec fn cell_index(line: int, column: int) -> int {
    line * BUFFER_WIDTH + column
}

/// Well-formedness of a screen state: the cursor is inside the grid and the
/// grid has exactly one cell per position.
pub open spec fn screen_wf(s: ScreenState) -> bool {
    &&& 0 <= s.line < BUFFER_HEIGHT
    &&& 0 <= s.column < BUFFER_WIDTH
    &&& s.grid.len() == BUFFER_WIDTH * BUFFER_HEIGHT
}

/// The screen state after writing one cell, disregarding the cursor color:
/// the newline code point performs the newline transition only; a write in
/// the last column wraps first and then places the cell at the new cursor
/// position (wrap-then-place), leaving the cursor on it; an ordinary write
/// places the cell and advances the column.
pub open spec fn screen_write_char(s: ScreenState, ch: Character) -> ScreenState {
    if ch.char == NEWLINE_CODE {
        ScreenState { line: (s.line + 1) % (BUFFER_HEIGHT as int), column: 0, ..s }
    } else if s.column == BUFFER_WIDTH - 1 {
        let wrapped = (s.line + 1) % (BUFFER_HEIGHT as int);
        ScreenState {
            line: wrapped,
            column: 0,
            color: s.color,
            grid: s.grid.update(cell_index(wrapped, 0), ch),
        }
    } else {
        ScreenState {
            line: s.line,
            column: s.column + 1,
            color: s.color,
            grid: s.grid.update(cell_index(s.line, s.column), ch),
        }
    }
}

/// The screen state after writing one code point in the cursor color.
pub open spec fn screen_write_byte(s: ScreenState, code: u8) -> ScreenState {
    screen_write_char(s, Character { char: code, color: s.color })
}

/// The screen state after writing a sequence of code points in order, each
/// in the cursor color.
pub open spec fn screen_write_bytes(s: ScreenState, bytes: Seq<u8>) -> ScreenState
    decreases bytes.len(),
{
    if bytes.len() == 0 {
        s
    } else {
        screen_write_bytes(screen_write_byte(s, bytes[0]), bytes.drop_first())
    }
}

/// The same screen with the cursor color replaced.
pub open spec fn screen_with_color(s: ScreenState, color: ColorInfo) -> ScreenState {
    ScreenState { color, ..s }
}

/// Writing one cell preserves well-formedness and never changes the grid's
/// size: the modular cursor arithmetic keeps every index in range.
pub proof fn lemma_write_char_wf(s: ScreenState, ch: Character)
    requires
        screen_wf(s),
    ensures
        screen_wf(screen_write_char(s, ch)),
        screen_write_char(s, ch).grid.len() == s.grid.len(),
        screen_write_char(s, ch).color == s.color,
{
}

/// Writing a sequence of code points preserves well-formedness and the
/// cursor color.
pub proof fn lemma_write_bytes_wf(s: ScreenState, bytes: Seq<u8>)
    requires
        screen_wf(s),
    ensures
        screen_wf(screen_write_bytes(s, bytes)),
        screen_write_bytes(s, bytes).color == s.color,
    decreases bytes.len(),
{
    if bytes.len() > 0 {
        lemma_write_bytes_wf(screen_write_byte(s, bytes[0]), bytes.drop_first());
    }
}

/// Writing the bytes of `prefix` and then one more byte is the same as
/// writing `prefix.push(code)` in one go.
pub proof fn lemma_write_bytes_snoc(s: ScreenState, prefix: Seq<u8>, code: u8)
    ensures
        screen_write_bytes(s, prefix.push(code)) == screen_write_byte(
            screen_write_bytes(s, prefix),
            code,
        ),
    decreases prefix.len(),
{
    let pc = prefix.push(code);
    if prefix.len() == 0 {
        assert(pc[0] == code);
        assert(pc.drop_first() =~= Seq::<u8>::empty());
        assert(screen_write_bytes(s, pc) == screen_write_bytes(
            screen_write_byte(s, code),
            Seq::<u8>::empty(),
        ));
        assert(screen_write_bytes(screen_write_byte(s, code), Seq::<u8>::empty())
            == screen_write_byte(s, code));
        assert(screen_write_bytes(s, prefix) == s);
    } else {
        let s1 = screen_write_byte(s, prefix[0]);
        assert(pc[0] == prefix[0]);
        assert(pc.drop_first() =~= prefix.drop_first().push(code));
        lemma_write_bytes_snoc(s1, prefix.drop_first(), code);
        assert(screen_write_bytes(s, pc) == screen_write_bytes(s1, pc.drop_first()));
        assert(screen_write_bytes(s, prefix) == screen_write_bytes(s1, prefix.drop_first()));
    }
}

/// Consecutive non-newline writes that fit on the current line move only
/// the column: after writing `bytes` from column `c`, the column is
/// `c + bytes.len()`, the line and color are unchanged, the written bytes
/// stand in the cursor color at the positions they were written to, and no
/// other cell changed.
pub proof fn lemma_consecutive_writes(s: ScreenState, bytes: Seq<u8>)
    requires
        screen_wf(s),
        forall|i: int| 0 <= i < bytes.len() ==> bytes[i] != NEWLINE_CODE,
        s.column + bytes.len() < BUFFER_WIDTH,
    ensures
        screen_write_bytes(s, bytes).line == s.line,
        screen_write_bytes(s, bytes).column == s.column + bytes.len(),
        screen_write_bytes(s, bytes).color == s.color,
        screen_write_bytes(s, bytes).grid.len() == s.grid.len(),
        forall|j: int|
            0 <= j < bytes.len() ==> screen_write_bytes(s, bytes).grid[cell_index(
                s.line,
                s.column + j,
            )] == (Character { char: bytes[j], color: s.color }),
        forall|k: int|
            0 <= k < s.grid.len() && !(cell_index(s.line, s.column) <= k < cell_index(
                s.line,
                s.column + bytes.len(),
            )) ==> screen_write_bytes(s, bytes).grid[k] == s.grid[k],
    decreases bytes.len(),
{
    if bytes.len() > 0 {
        let ch0 = Character { char: bytes[0], color: s.color };
        let s1 = screen_write_byte(s, bytes[0]);
        let rest = bytes.drop_first();
        let r = screen_write_bytes(s, bytes);
        assert(cell_index(s.line, s.column) < s.grid.len()) by (nonlinear_arith)
            requires
                0 <= s.line < BUFFER_HEIGHT,
                0 <= s.column < BUFFER_WIDTH,
                s.grid.len() == BUFFER_WIDTH * BUFFER_HEIGHT,
        ;
        assert(s1.grid == s.grid.update(cell_index(s.line, s.column), ch0));
        lemma_consecutive_writes(s1, rest);
        assert(r == screen_write_bytes(s1, rest));
        assert forall|j: int| 0 <= j < bytes.len() implies r.grid[cell_index(
            s.line,
            s.column + j,
        )] == (Character { char: bytes[j], color: s.color }) by {
            if j == 0 {
                assert(r.grid[cell_index(s.line, s.column)] == s1.grid[cell_index(
                    s.line,
                    s.column,
                )]);
            } else {
                assert(rest[j - 1] == bytes[j]);
                assert(r.grid[cell_index(s1.line, s1.column + (j - 1))] == (Character {
                    char: rest[j - 1],
                    color: s1.color,
                }));
                assert(cell_index(s1.line, s1.column + (j - 1)) == cell_index(
                    s.line,
                    s.column + j,
                ));
            }
        }
        assert forall|k: int|
            0 <= k < s.grid.len() && !(cell_index(s.line, s.column) <= k < cell_index(
                s.line,
                s.column + bytes.len(),
            )) implies r.grid[k] == s.grid[k] by {
            assert(r.grid[k] == s1.grid[k]);
            assert(s1.grid[k] == s.grid[k]);
        }
    }
}

/// Writing the newline code point resets the column to 0 and advances the
/// line by one modulo the height; the grid and the cursor color are
/// untouched.
pub proof fn lemma_newline_resets_cursor(s: ScreenState)
    ensures
        screen_write_byte(s, NEWLINE_CODE).column == 0,
        screen_write_byte(s, NEWLINE_CODE).line == (s.line + 1) % (BUFFER_HEIGHT as int),
        screen_write_byte(s, NEWLINE_CODE).grid == s.grid,
        screen_write_byte(s, NEWLINE_CODE).color == s.color,
{
}

/// Writing on the last line at the wrap boundary is a circular overwrite,
/// never an error: a newline there moves the cursor to the first line, and
/// a non-newline write in the last column wraps to the first line and
/// places the cell in its first column, overwriting what was there.
pub proof fn lemma_wrap_on_last_line(s: ScreenState, ch: Character)
    requires
        screen_wf(s),
        s.line == BUFFER_HEIGHT - 1,
    ensures
        screen_wf(screen_write_char(s, ch)),
        ch.char == NEWLINE_CODE ==> screen_write_char(s, ch).line == 0
            && screen_write_char(s, ch).column == 0 && screen_write_char(s, ch).grid == s.grid,
        ch.char != NEWLINE_CODE && s.column == BUFFER_WIDTH - 1 ==> screen_write_char(s, ch).line
            == 0 && screen_write_char(s, ch).column == 0 && screen_write_char(s, ch).grid
            == s.grid.update(0, ch),
{
}

/// The text-mode writer: the cursor state machine that owns logical write
/// access to the display grid. `line` and `column` are the cursor, `color`
/// is the color new code points are written in; single cells are read back
/// through the index-validated `cell` accessor.
#[derive(Clone, Debug)]
pub struct Writer {
    /// The line the next character will be placed on.
    pub line: usize,
    /// The first free column of the current line.
    pub column: usize,
    /// The color that written code points are displayed in.
    pub color: ColorInfo,
    /// The grid of cells the writer owns, in row-major order.
    pub cells: Vec<Character>,
}

impl Writer {
    /// The grid of cells in row-major order.
    pub open spec fn grid(self) -> Seq<Character> {
        self.cells@
    }

    /// The mathematical state of this writer's display.
    pub open spec fn screen(self) -> ScreenState {
        ScreenState {
            line: self.line as int,
            column: self.column as int,
            color: self.color,
            grid: self.grid(),
        }
    }

    /// The writer's invariant: cursor in range, one cell per position.
    pub open spec fn wf(self) -> bool {
        screen_wf(self.screen())
    }

    /// Construct a writer with its cursor in the top left corner, the
    /// default white-on-black color, and a blank grid.
    pub fn new() -> (w: Self)
        ensures
            w.wf(),
            w.line == 0,
            w.column == 0,
            w.color@ == DEFAULT_COLOR_CODE,
            forall|i: int|
                0 <= i < BUFFER_WIDTH * BUFFER_HEIGHT ==> w.grid()[i] == (Character {
                    char: SPACE_CODE,
                    color: w.color,
                }),
    {
        let color = ColorInfo::default();
        let blank = Character::with_color(SPACE_CODE, color);
        let mut cells: Vec<Character> = Vec::new();
        let mut i: usize = 0;
        while i < BUFFER_WIDTH * BUFFER_HEIGHT
            invariant
                i <= BUFFER_WIDTH * BUFFER_HEIGHT,
                cells@.len() == i,
                forall|j: int| 0 <= j < i ==> cells@[j] == blank,
            decreases BUFFER_WIDTH * BUFFER_HEIGHT - i,
        {
            cells.push(blank);
            i = i + 1;
        }
        Writer { line: 0, column: 0, color, cells }
    }

    /// Consume a writer to change its cursor color; cursor and grid are
    /// untouched.
    pub fn color(self, color: ColorInfo) -> (w: Self)
        ensures
            w.screen() == screen_with_color(self.screen(), color),
            w.wf() == self.wf(),
    {
        let w = Writer { color, ..self };
        proof {
            assert(w.screen() =~= screen_with_color(self.screen(), color));
        }
        w
    }

    /// Read the cell at (line, column) back from the grid.
    pub fn cell(&self, line: usize, column: usize) -> (ch: Character)
        requires
            self.wf(),
            line < BUFFER_HEIGHT,
            column < BUFFER_WIDTH,
        ensures
            ch == self.grid()[cell_index(line as int, column as int)],
    {
        proof {
            assert(cell_index(line as int, column as int) < BUFFER_WIDTH * BUFFER_HEIGHT)
                by (nonlinear_arith)
                requires
                    line < BUFFER_HEIGHT,
                    column < BUFFER_WIDTH,
            ;
        }
        self.cells[line * BUFFER_WIDTH + column]
    }

    /// Perform the newline transition: the cursor moves to the start of the
    /// next line, wrapping from the last line back to the first.
    fn write_newline(&mut self)
        requires
            old(self).wf(),
        ensures
            final(self).wf(),
            final(self).line == (old(self).line + 1) % (BUFFER_HEIGHT as int),
            final(self).column == 0,
            final(self).color == old(self).color,
            final(self).grid() == old(self).grid(),
    {
        self.column = 0;
        self.line = (self.line + 1) % BUFFER_HEIGHT;
    }

    /// Write one cell, disregarding the cursor color. The newline code
    /// point only performs the newline transition; a write in the last
    /// column wraps first and then places the cell at the new cursor
    /// position; any other write places the cell and advances the column.
    pub fn write_character(&mut self, char: Character)
        requires
            old(self).wf(),
        ensures
            final(self).wf(),
            final(self).screen() == screen_write_char(old(self).screen(), char),
    {
        if char.char == NEWLINE_CODE {
            self.write_newline();
            proof {
                assert(final(self).screen() =~= screen_write_char(old(self).screen(), char));
            }
            return ;
        }
        if self.column == BUFFER_WIDTH - 1 {
            self.write_newline();
            let index = self.line * BUFFER_WIDTH;
            proof {
                assert(cell_index(self.line as int, 0) < BUFFER_WIDTH * BUFFER_HEIGHT)
                    by (nonlinear_arith)
                    requires
                        self.line < BUFFER_HEIGHT,
                ;
            }
            self.cells.set(index, char);
            proof {
                assert(final(self).screen() =~= screen_write_char(old(self).screen(), char));
            }
            return ;
        }
        proof {
            assert(cell_index(self.line as int, self.column as int)
                < BUFFER_WIDTH * BUFFER_HEIGHT) by (nonlinear_arith)
                requires
                    self.line < BUFFER_HEIGHT,
                    self.column < BUFFER_WIDTH,
            ;
        }
        let index = self.line * BUFFER_WIDTH + self.column;
        self.cells.set(index, char);
        self.column = self.column + 1;
        proof {
            assert(final(self).screen() =~= screen_write_char(old(self).screen(), char));
        }
    }

    /// Write one code point in the cursor color.
    pub fn write_byte(&mut self, char: u8)
        requires
            old(self).wf(),
        ensures
            final(self).wf(),
            final(self).screen() == screen_write_byte(old(self).screen(), char),
    {
        let color = self.color;
        self.write_character(Character::with_color(char, color));
    }

    /// Write a sequence of code points in order, each in the cursor color.
    pub fn write_bytes(&mut self, bytes: &[u8])
        requires
            old(self).wf(),
        ensures
            final(self).wf(),
            final(self).screen() == screen_write_bytes(old(self).screen(), bytes@),
    {
        let ghost start = self.screen();
        let mut i: usize = 0;
        while i < bytes.len()
            invariant
                i <= bytes@.len(),
                self.wf(),
                self.screen() == screen_write_bytes(start, bytes@.take(i as int)),
            decreases bytes@.len() - i,
        {
            self.write_byte(bytes[i]);
            proof {
                lemma_write_bytes_snoc(start, bytes@.take(i as int), bytes@[i as int]);
                assert(bytes@.take(i as int).push(bytes@[i as int]) =~= bytes@.take(
                    i + 1 as int,
                ));
            }
            i = i + 1;
        }
        proof {
            assert(bytes@.take(bytes@.len() as int) =~= bytes@);
        }
    }

    /// Set the cursor color, move the cursor to the top left corner, and
    /// fill every cell of the grid with a space in the new color, in
    /// row-major order.
    pub fn clear_color(&mut self, color: ColorInfo)
        requires
            old(self).wf(),
        ensures
            final(self).wf(),
            final(self).line == 0,
            final(self).column == 0,
            final(self).color == color,
            final(self).grid().len() == BUFFER_WIDTH * BUFFER_HEIGHT,
            forall|i: int|
                0 <= i < BUFFER_WIDTH * BUFFER_HEIGHT ==> final(self).grid()[i] == (Character {
                    char: SPACE_CODE,
                    color,
                }),
    {
        self.color = color;
        self.line = 0;
        self.column = 0;
        let blank = Character::with_color(SPACE_CODE, color);
        let mut i: usize = 0;
        while i < BUFFER_WIDTH * BUFFER_HEIGHT
            invariant
                i <= BUFFER_WIDTH * BUFFER_HEIGHT,
                self.grid().len() == BUFFER_WIDTH * BUFFER_HEIGHT,
                self.line == 0,
                self.column == 0,
                self.color == color,
                blank == (Character { char: SPACE_CODE, color }),
                forall|j: int| 0 <= j < i ==> self.grid()[j] == blank,
            decreases BUFFER_WIDTH * BUFFER_HEIGHT - i,
        {
            self.cells.set(i, blank);
            i = i + 1;
        }
    }

    /// Clear the screen with the cursor color and move the cursor to the
    /// top left corner.
    pub fn clear(&mut self)
        requires
            old(self).wf(),
        ensures
            final(self).wf(),
            final(self).line == 0,
            final(self).column == 0,
            final(self).color == old(self).color,
            forall|i: int|
                0 <= i < BUFFER_WIDTH * BUFFER_HEIGHT ==> final(self).grid()[i] == (Character {
                    char: SPACE_CODE,
                    color: old(self).color,
                }),
    {
        let color = self.color;
        self.clear_color(color);
    }

    /// Write a sequence of code points in a one-shot override color: the
    /// override is swapped in, the bytes are written, and the previous
    /// cursor color is restored unconditionally.
    pub fn write_bytes_color(&mut self, color: ColorInfo, bytes: &[u8])
        requires
            old(self).wf(),
        ensures
            final(self).wf(),
            final(self).color == old(self).color,
            final(self).screen() == screen_with_color(
                screen_write_bytes(screen_with_color(old(self).screen(), color), bytes@),
                old(self).color,
            ),
    {
        let saved = self.color;
        self.color = color;
        proof {
            assert(self.screen() =~= screen_with_color(old(self).screen(), color));
        }
        self.write_bytes(bytes);
        self.color = saved;
        proof {
            assert(final(self).screen() =~= screen_with_color(
                screen_write_bytes(screen_with_color(old(self).screen(), color), bytes@),
                old(self).color,
            ));
        }
    }
}

} // verus!
