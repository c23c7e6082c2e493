//! Mathematical model of the terminal: the cell and color types, and the
//! state transitions of the engine (writing, scrolling, history capture)
//! as pure functions over sequences. The executable engine in
//! `vga_buffer` proves that each of its operations performs exactly one
//! of these transitions.

use vstd::prelude::*;

use crate::{BUFFER_HEIGHT, BUFFER_WIDTH, GRID_CELLS, HISTORY_LINES, INPUT_BUFFER_SIZE,
    SUBSTITUTE_GLYPH};

verus! {

/// The sixteen VGA text-mode colors.
#[derive(Clone, Copy, Debug, PartialEq, Eq, Structural)]
pub enum Color {
    Black,
    Blue,
    Green,
    Cyan,
    Red,
    Magenta,
    Brown,
    LightGray,
    DarkGray,
    LightBlue,
    LightGreen,
    LightCyan,
    LightRed,
    Pink,
    Yellow,
    White,
}

/// The hardware number of a color.
pub open spec fn color_number(c: Color) -> u8 {
    match c {
        Color::Black => 0,
        Color::Blue => 1,
        Color::Green => 2,
        Color::Cyan => 3,
        Color::Red => 4,
        Color::Magenta => 5,
        Color::Brown => 6,
        Color::LightGray => 7,
        Color::DarkGray => 8,
        Color::LightBlue => 9,
        Color::LightGreen => 10,
        Color::LightCyan => 11,
        Color::LightRed => 12,
        Color::Pink => 13,
        Color::Yellow => 14,
        Color::White => 15,
    }
}

/// A packed attribute byte: background color in the high four bits,
/// foreground color in the low four.
#[derive(Clone, Copy, Debug, PartialEq, Eq, Structural)]
pub struct ColorCode(pub u8);

impl ColorCode {
    /// Packs a foreground and a background color into one attribute byte.
    pub fn new(foreground: Color, background: Color) -> (r: ColorCode)
        ensures
            r == spec_color_code(foreground, background),
    {
        ColorCode(color_as_u8(background) * 16 + color_as_u8(foreground))
    }
}

/// The attribute byte for a foreground/background pair.
pub open spec fn spec_color_code(foreground: Color, background: Color) -> ColorCode {
    ColorCode((color_number(background) * 16 + color_number(foreground)) as u8)
}

/// Exec mirror of `color_number`.
pub fn color_as_u8(c: Color) -> (r: u8)
    ensures
        r == color_number(c),
{
    match c {
        Color::Black => 0,
        Color::Blue => 1,
        Color::Green => 2,
        Color::Cyan => 3,
        Color::Red => 4,
        Color::Magenta => 5,
        Color::Brown => 6,
        Color::LightGray => 7,
        Color::DarkGray => 8,
        Color::LightBlue => 9,
        Color::LightGreen => 10,
        Color::LightCyan => 11,
        Color::LightRed => 12,
        Color::Pink => 13,
        Color::Yellow => 14,
        Color::White => 15,
    }
}

/// The default attribute: white text on a black background.
pub open spec fn default_color() -> ColorCode {
    spec_color_code(Color::White, Color::Black)
}

/// One character cell of the grid: a displayed byte plus its attribute.
#[derive(Clone, Copy, Debug, PartialEq, Eq, Structural)]
pub struct ScreenChar {
    pub ascii_character: u8,
    pub color_code: ColorCode,
}

/// The byte stored on screen for a written byte: printable ASCII passes
/// through, everything else becomes the substitute glyph.
pub open spec fn glyph_of(b: u8) -> u8 {
    if 0x20 <= b && b <= 0x7e {
        b
    } else {
        SUBSTITUTE_GLYPH
    }
}

/// Exec mirror of `glyph_of`.
pub fn filter_byte(b: u8) -> (r: u8)
    ensures
        r == glyph_of(b),
{
    if 0x20 <= b && b <= 0x7e {
        b
    } else {
        SUBSTITUTE_GLYPH
    }
}

/// The glyph filter renders every byte outside the printable range as
/// the fixed substitute glyph, and is idempotent: a byte that already
/// went through the filter renders unchanged when written again.
pub proof fn lemma_filter_idempotent(b: u8)
    ensures
        !(0x20 <= b && b <= 0x7e) ==> glyph_of(b) == SUBSTITUTE_GLYPH,
        glyph_of(glyph_of(b)) == glyph_of(b),
{
}

/// A blank cell in the given color.
pub open spec fn blank_cell(color: ColorCode) -> ScreenChar {
    ScreenChar { ascii_character: 0x20, color_code: color }
}

/// A blank row in the given color.
pub open spec fn blank_row(color: ColorCode) -> Seq<ScreenChar> {
    Seq::new(BUFFER_WIDTH as nat, |i: int| blank_cell(color))
}

/// Row `r` of a row-major grid.
pub open spec fn row_of(grid: Seq<ScreenChar>, r: int) -> Seq<ScreenChar> {
    grid.subrange(r * BUFFER_WIDTH as int, r * BUFFER_WIDTH as int + BUFFER_WIDTH as int)
}

/// The grid with row `r` replaced by `row`.
pub open spec fn grid_set_row(grid: Seq<ScreenChar>, r: int, row: Seq<ScreenChar>) -> Seq<
    ScreenChar,
> {
    Seq::new(
        GRID_CELLS as nat,
        |i: int|
            if r * BUFFER_WIDTH as int <= i < (r + 1) * BUFFER_WIDTH as int {
                row[i - r * BUFFER_WIDTH as int]
            } else {
                grid[i]
            },
    )
}

/// The grid moved one row toward the bottom, with `top` as the new first
/// row; the old last row falls off.
pub open spec fn grid_shift_down(grid: Seq<ScreenChar>, top: Seq<ScreenChar>) -> Seq<ScreenChar> {
    Seq::new(
        GRID_CELLS as nat,
        |i: int|
            if i < BUFFER_WIDTH as int {
                top[i]
            } else {
                grid[i - BUFFER_WIDTH as int]
            },
    )
}

/// The grid moved one row toward the top, with `bottom` as the new last
/// row; the old first row falls off.
pub open spec fn grid_shift_up(grid: Seq<ScreenChar>, bottom: Seq<ScreenChar>) -> Seq<ScreenChar> {
    Seq::new(
        GRID_CELLS as nat,
        |i: int|
            if i < GRID_CELLS as int - BUFFER_WIDTH as int {
                grid[i + BUFFER_WIDTH as int]
            } else {
                bottom[i - (GRID_CELLS as int - BUFFER_WIDTH as int)]
            },
    )
}

/// A bounded history push: the line goes to the back; if the buffer is
/// full the oldest line (the front) is evicted first.
pub open spec fn history_push(
    h: Seq<Seq<ScreenChar>>,
    line: Seq<ScreenChar>,
    max: int,
) -> Seq<Seq<ScreenChar>> {
    if h.len() >= max {
        h.subrange(1, h.len() as int).push(line)
    } else {
        h.push(line)
    }
}

/// A bounded echo push: bytes beyond the capacity are silently dropped.
pub open spec fn echo_push(e: Seq<u8>, b: u8) -> Seq<u8> {
    if e.len() < INPUT_BUFFER_SIZE as int {
        e.push(b)
    } else {
        e
    }
}

/// The whole state of the terminal engine.
#[verifier::ext_equal]
pub ghost struct TermModel {
    /// The visible cells, row-major, `BUFFER_HEIGHT * BUFFER_WIDTH` of them.
    pub grid: Seq<ScreenChar>,
    /// Column where the next byte lands (wraps at `BUFFER_WIDTH`).
    pub column: int,
    /// Bookkeeping row advanced by manual scrolling.
    pub row_position: int,
    /// The active attribute byte.
    pub color: ColorCode,
    /// The logical write row; may drift out of the visible range between
    /// operations and is re-clamped on entry to each one.
    pub write_row: int,
    /// Rows pushed off the bottom by scrolling up, newest last.
    pub up_history: Seq<Seq<ScreenChar>>,
    /// Rows pushed off the top by scrolling down or by new lines, newest last.
    pub down_history: Seq<Seq<ScreenChar>>,
    /// The input echo buffer: what was typed on the current line.
    pub echo: Seq<u8>,
}

/// Well-formedness of a history buffer: bounded, with full-width rows.
pub open spec fn history_wf(h: Seq<Seq<ScreenChar>>) -> bool {
    &&& h.len() <= HISTORY_LINES as int
    &&& forall|i: int| 0 <= i < h.len() ==> (#[trigger] h[i]).len() == BUFFER_WIDTH as int
}

/// Well-formedness of the terminal state.
pub open spec fn term_wf(m: TermModel) -> bool {
    &&& m.grid.len() == GRID_CELLS as int
    &&& 0 <= m.column <= BUFFER_WIDTH as int
    &&& 0 <= m.row_position < BUFFER_HEIGHT as int
    &&& history_wf(m.up_history)
    &&& history_wf(m.down_history)
    &&& m.echo.len() <= INPUT_BUFFER_SIZE as int
    &&& isize::MIN <= m.write_row <= isize::MAX
}

/// One manual scroll toward older content: the last visible row is
/// captured into the up-history, every row moves down one, and the new
/// top row is restored from the down-history if it has anything, else
/// left blank.
pub open spec fn scroll_up_spec(m: TermModel) -> TermModel {
    let top = if m.down_history.len() > 0 {
        m.down_history.last()
    } else {
        blank_row(m.color)
    };
    TermModel {
        grid: grid_shift_down(m.grid, top),
        up_history: history_push(m.up_history, row_of(m.grid, BUFFER_HEIGHT as int - 1),
            HISTORY_LINES as int),
        down_history: if m.down_history.len() > 0 {
            m.down_history.drop_last()
        } else {
            m.down_history
        },
        row_position: if m.row_position < BUFFER_HEIGHT as int - 1 {
            m.row_position + 1
        } else {
            m.row_position
        },
        ..m
    }
}

/// One manual scroll toward newer content: the mirror of `scroll_up_spec`.
pub open spec fn scroll_down_spec(m: TermModel) -> TermModel {
    let bottom = if m.up_history.len() > 0 {
        m.up_history.last()
    } else {
        blank_row(m.color)
    };
    TermModel {
        grid: grid_shift_up(m.grid, bottom),
        down_history: history_push(m.down_history, row_of(m.grid, 0), HISTORY_LINES as int),
        up_history: if m.up_history.len() > 0 {
            m.up_history.drop_last()
        } else {
            m.up_history
        },
        row_position: BUFFER_HEIGHT as int - 1,
        ..m
    }
}

/// Ending the current row: the first visible row is captured into the
/// down-history, the column resets, and the write row advances; if it
/// leaves the visible range the grid moves up one row, the last row is
/// cleared, and the write row is pinned to the last visible row.
pub open spec fn new_line_spec(m: TermModel) -> TermModel {
    let pushed = history_push(m.down_history, row_of(m.grid, 0), HISTORY_LINES as int);
    let wr = m.write_row + 1;
    if wr >= BUFFER_HEIGHT as int || wr < 0 {
        TermModel {
            grid: grid_shift_up(m.grid, blank_row(m.color)),
            down_history: pushed,
            column: 0,
            write_row: BUFFER_HEIGHT as int - 1,
            ..m
        }
    } else {
        TermModel { down_history: pushed, column: 0, write_row: wr, ..m }
    }
}

/// The re-normalization of the write row: scroll up while it sits at or
/// below the top margin, then scroll down while it sits past the bottom;
/// afterwards it is strictly inside the visible range.
pub open spec fn check_write_row_spec(m: TermModel) -> TermModel
    decreases
            (if m.write_row <= 1 {
                2 - m.write_row
            } else if m.write_row >= BUFFER_HEIGHT as int {
                m.write_row - (BUFFER_HEIGHT as int - 1)
            } else {
                0
            }),
{
    if m.write_row <= 1 {
        check_write_row_spec(TermModel { write_row: m.write_row + 1, ..scroll_up_spec(m) })
    } else if m.write_row >= BUFFER_HEIGHT as int {
        check_write_row_spec(TermModel { write_row: m.write_row - 1, ..scroll_down_spec(m) })
    } else {
        m
    }
}

/// Writing one byte: re-normalize the write row; a newline ends the row;
/// anything else is filtered, wraps at the last column, lands at the
/// cursor, and is mirrored into the echo buffer.
pub open spec fn write_byte_spec(m: TermModel, b: u8) -> TermModel {
    let m1 = check_write_row_spec(m);
    if b == 0x0a {
        let m2 = new_line_spec(m1);
        TermModel { echo: echo_push(m2.echo, 0x0a), ..m2 }
    } else {
        let g = glyph_of(b);
        let m2 = if m1.column >= BUFFER_WIDTH as int {
            new_line_spec(m1)
        } else {
            m1
        };
        TermModel {
            grid: m2.grid.update(m2.write_row * BUFFER_WIDTH as int + m2.column,
                ScreenChar { ascii_character: g, color_code: m2.color }),
            column: m2.column + 1,
            echo: echo_push(m2.echo, g),
            ..m2
        }
    }
}

/// Writing a whole byte string, left to right.
pub open spec fn write_bytes_spec(m: TermModel, s: Seq<u8>) -> TermModel
    decreases s.len(),
{
    if s.len() == 0 {
        m
    } else {
        write_byte_spec(write_bytes_spec(m, s.drop_last()), s.last())
    }
}

/// Erasing one character: re-normalize, step the cursor back (wrapping to
/// the previous row unless already at the very top), blank that cell, and
/// drop one byte from the echo buffer if it has any.
pub open spec fn backspace_spec(m: TermModel) -> TermModel {
    let m1 = check_write_row_spec(m);
    if m1.column == 0 && m1.write_row == 0 {
        m1
    } else {
        let wr = if m1.column == 0 {
            m1.write_row - 1
        } else {
            m1.write_row
        };
        let col = if m1.column == 0 {
            BUFFER_WIDTH as int - 1
        } else {
            m1.column - 1
        };
        TermModel {
            grid: m1.grid.update(wr * BUFFER_WIDTH as int + col, blank_cell(m1.color)),
            write_row: wr,
            column: col,
            echo: if m1.echo.len() > 0 {
                m1.echo.drop_last()
            } else {
                m1.echo
            },
            ..m1
        }
    }
}

/// Clearing the screen: every cell blanked in the active color, cursor
/// and histories reset, and the write row parked at row one so that the
/// next re-normalization scrolls exactly once.
pub open spec fn clear_screen_spec(m: TermModel) -> TermModel {
    TermModel {
        grid: Seq::new(GRID_CELLS as nat, |i: int| blank_cell(m.color)),
        column: 0,
        row_position: 0,
        color: m.color,
        write_row: 1,
        up_history: Seq::empty(),
        down_history: Seq::empty(),
        echo: Seq::empty(),
    }
}

/// A bounded history push keeps the buffer within its capacity, appends
/// the new line at the back, and, when the buffer is full, evicts exactly
/// the oldest line.
pub proof fn lemma_history_push(h: Seq<Seq<ScreenChar>>, line: Seq<ScreenChar>, max: int)
    requires
        0 < max,
        h.len() <= max,
    ensures
        history_push(h, line, max).len() <= max,
        history_push(h, line, max).last() == line,
        h.len() < max ==> history_push(h, line, max) == h.push(line),
        h.len() == max ==> history_push(h, line, max).len() == max,
        h.len() == max ==> forall|i: int|
            0 <= i < max - 1 ==> history_push(h, line, max)[i] == h[i + 1],
{
}

/// Scrolling preserves well-formedness.
pub proof fn lemma_scroll_up_wf(m: TermModel)
    requires
        term_wf(m),
    ensures
        term_wf(scroll_up_spec(m)),
{
    lemma_history_push(m.up_history, row_of(m.grid, BUFFER_HEIGHT as int - 1),
        HISTORY_LINES as int);
}

/// Scrolling preserves well-formedness.
pub proof fn lemma_scroll_down_wf(m: TermModel)
    requires
        term_wf(m),
    ensures
        term_wf(scroll_down_spec(m)),
{
    lemma_history_push(m.down_history, row_of(m.grid, 0), HISTORY_LINES as int);
}

/// Ending a row preserves well-formedness and leaves the write row and
/// the column inside the visible range.
pub proof fn lemma_new_line_wf(m: TermModel)
    requires
        term_wf(m),
    ensures
        term_wf(new_line_spec(m)),
        0 <= new_line_spec(m).write_row < BUFFER_HEIGHT as int,
        new_line_spec(m).column == 0,
{
    lemma_history_push(m.down_history, row_of(m.grid, 0), HISTORY_LINES as int);
}

/// Re-normalization always lands the write row strictly inside the
/// visible range, and touches nothing but the grid, the histories, the
/// row position and the write row itself.
pub proof fn lemma_check_write_row(m: TermModel)
    ensures
        1 < check_write_row_spec(m).write_row < BUFFER_HEIGHT as int,
        check_write_row_spec(m).column == m.column,
        check_write_row_spec(m).echo == m.echo,
        check_write_row_spec(m).color == m.color,
        term_wf(m) ==> term_wf(check_write_row_spec(m)),
    decreases
            (if m.write_row <= 1 {
                2 - m.write_row
            } else if m.write_row >= BUFFER_HEIGHT as int {
                m.write_row - (BUFFER_HEIGHT as int - 1)
            } else {
                0
            }),
{
    if m.write_row <= 1 {
        if term_wf(m) {
            lemma_scroll_up_wf(m);
        }
        lemma_check_write_row(TermModel { write_row: m.write_row + 1, ..scroll_up_spec(m) });
    } else if m.write_row >= BUFFER_HEIGHT as int {
        if term_wf(m) {
            lemma_scroll_down_wf(m);
        }
        lemma_check_write_row(TermModel { write_row: m.write_row - 1, ..scroll_down_spec(m) });
    }
}

/// Writing one byte preserves well-formedness and keeps the cursor in
/// range: the write row strictly inside the visible rows, the column at
/// most one past the last written cell.
pub proof fn lemma_write_byte_wf(m: TermModel, b: u8)
    requires
        term_wf(m),
    ensures
        term_wf(write_byte_spec(m, b)),
        0 <= write_byte_spec(m, b).write_row < BUFFER_HEIGHT as int,
        0 < write_byte_spec(m, b).column <= BUFFER_WIDTH as int || b == 0x0a,
{
    lemma_check_write_row(m);
    let m1 = check_write_row_spec(m);
    if b == 0x0a {
        lemma_new_line_wf(m1);
    } else {
        if m1.column >= BUFFER_WIDTH as int {
            lemma_new_line_wf(m1);
        }
    }
}

/// Writing any byte string preserves well-formedness.
pub proof fn lemma_write_bytes_wf(m: TermModel, s: Seq<u8>)
    requires
        term_wf(m),
    ensures
        term_wf(write_bytes_spec(m, s)),
    decreases s.len(),
{
    if s.len() > 0 {
        lemma_write_bytes_wf(m, s.drop_last());
        lemma_write_byte_wf(write_bytes_spec(m, s.drop_last()), s.last());
    }
}

/// Erasing one character preserves well-formedness.
pub proof fn lemma_backspace_wf(m: TermModel)
    requires
        term_wf(m),
    ensures
        term_wf(backspace_spec(m)),
{
    lemma_check_write_row(m);
}

/// After writing any byte string, re-normalization puts the logical write
/// row inside `[1, BUFFER_HEIGHT - 1]`, and the column never passes the
/// grid width.
pub proof fn lemma_grid_bounds(m: TermModel, s: Seq<u8>)
    requires
        term_wf(m),
    ensures
        1 <= check_write_row_spec(write_bytes_spec(m, s)).write_row <= BUFFER_HEIGHT as int - 1,
        0 <= write_bytes_spec(m, s).column <= BUFFER_WIDTH as int,
{
    lemma_write_bytes_wf(m, s);
    lemma_check_write_row(write_bytes_spec(m, s));
}

/// Scrolling up and then immediately down restores the visible grid
/// exactly; when the down-history was not empty and the up-history was
/// not full beforehand, both histories are restored as well.
pub proof fn lemma_scroll_round_trip(m: TermModel)
    requires
        term_wf(m),
    ensures
        scroll_down_spec(scroll_up_spec(m)).grid == m.grid,
        scroll_down_spec(scroll_up_spec(m)).column == m.column,
        scroll_down_spec(scroll_up_spec(m)).write_row == m.write_row,
        scroll_down_spec(scroll_up_spec(m)).echo == m.echo,
        m.down_history.len() > 0 && m.up_history.len() < HISTORY_LINES as int
            ==> scroll_down_spec(scroll_up_spec(m)).up_history == m.up_history
            && scroll_down_spec(scroll_up_spec(m)).down_history == m.down_history,
{
    let m1 = scroll_up_spec(m);
    let m2 = scroll_down_spec(m1);
    lemma_history_push(m.up_history, row_of(m.grid, BUFFER_HEIGHT as int - 1),
        HISTORY_LINES as int);
    assert(m1.up_history.last() == row_of(m.grid, BUFFER_HEIGHT as int - 1));
    assert(m2.grid =~= m.grid);
    if m.down_history.len() > 0 && m.up_history.len() < HISTORY_LINES as int {
        assert(m1.up_history == m.up_history.push(row_of(m.grid, BUFFER_HEIGHT as int - 1)));
        assert(m2.up_history =~= m.up_history);
        assert(row_of(m1.grid, 0) =~= m.down_history.last());
        assert(m2.down_history =~= m.down_history);
    }
}

/// A whole byte string pushed into the echo buffer, left to right.
pub open spec fn echo_push_all(e: Seq<u8>, bs: Seq<u8>) -> Seq<u8>
    decreases bs.len(),
{
    if bs.len() == 0 {
        e
    } else {
        echo_push(echo_push_all(e, bs.drop_last()), bs.last())
    }
}

/// The echo buffer takes exactly what fits: pushing any byte string onto
/// a buffer within capacity keeps the earliest-accepted bytes intact and
/// silently drops the excess, never growing past the capacity.
pub proof fn lemma_echo_capacity(e: Seq<u8>, bs: Seq<u8>)
    requires
        e.len() <= INPUT_BUFFER_SIZE as int,
    ensures
        echo_push_all(e, bs) == e + bs.take(
            if INPUT_BUFFER_SIZE as int - e.len() <= bs.len() {
                INPUT_BUFFER_SIZE as int - e.len()
            } else {
                bs.len() as int
            },
        ),
        echo_push_all(e, bs).len() == (if e.len() + bs.len() <= INPUT_BUFFER_SIZE as int {
            e.len() + bs.len()
        } else {
            INPUT_BUFFER_SIZE as nat
        }),
    decreases bs.len(),
{
    let cap = INPUT_BUFFER_SIZE as int;
    if bs.len() == 0 {
        assert(echo_push_all(e, bs) =~= e + bs.take(0));
    } else {
        let dl = bs.drop_last();
        lemma_echo_capacity(e, dl);
        let kd = if cap - e.len() <= dl.len() {
            cap - e.len()
        } else {
            dl.len() as int
        };
        let k = if cap - e.len() <= bs.len() {
            cap - e.len()
        } else {
            bs.len() as int
        };
        let r = echo_push_all(e, dl);
        assert(r == e + dl.take(kd));
        if r.len() < cap {
            assert(kd == dl.len());
            assert(dl.take(kd) =~= dl);
            assert(k == bs.len());
            assert(bs.take(k) =~= dl.push(bs.last()));
            assert(echo_push_all(e, bs) =~= e + bs.take(k));
        } else {
            assert(echo_push_all(e, bs) == r);
            assert(dl.take(kd) =~= bs.take(k));
        }
    }
}

/// The terminal as it stands right after construction.
pub open spec fn initial_term() -> TermModel {
    TermModel {
        grid: Seq::new(GRID_CELLS as nat, |i: int| blank_cell(default_color())),
        column: 0,
        row_position: 0,
        color: default_color(),
        write_row: 0,
        up_history: Seq::empty(),
        down_history: Seq::empty(),
        echo: Seq::empty(),
    }
}

} // verus!
