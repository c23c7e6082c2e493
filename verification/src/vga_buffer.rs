//! The executable terminal engine: the input echo buffer, the two bounded
//! scroll-history buffers, and the `Writer` that owns the character grid.
//! Every operation is proved equal to the corresponding transition of the
//! model in `screen`.

use vstd::prelude::*;
use vstd::pervasive::VecAdditionalExecFns;
use vstd::string::StringSliceAdditionalSpecFns;
use vstd::slice::SliceAdditionalExecFns;
use vstd::utf8::{valid_utf8, decode_utf8};

use crate::screen::{ScreenChar, ColorCode, Color, TermModel, history_push, echo_push, blank_cell,
    blank_row, row_of, grid_set_row, grid_shift_down, grid_shift_up, term_wf, scroll_up_spec,
    scroll_down_spec, new_line_spec, check_write_row_spec, write_byte_spec, write_bytes_spec,
    backspace_spec, clear_screen_spec, initial_term, default_color, spec_color_code, glyph_of,
    lemma_scroll_up_wf, lemma_scroll_down_wf, lemma_new_line_wf, lemma_check_write_row,
    lemma_write_byte_wf, lemma_backspace_wf};
use crate::{BUFFER_HEIGHT, BUFFER_WIDTH, GRID_CELLS, HISTORY_LINES, INPUT_BUFFER_SIZE,
    SUBSTITUTE_GLYPH};

verus! {

/// The contents of a list of rows, as a sequence of sequences.
pub open spec fn rows_view(lines: Seq<Vec<ScreenChar>>) -> Seq<Seq<ScreenChar>> {
    Seq::new(lines.len(), |i: int| lines[i]@)
}

/// The input echo buffer: a bounded byte buffer mirroring what was typed
/// on the current logical line. Bytes past the capacity are dropped.
pub struct InputBuffer {
    buf: Vec<u8>,
}

impl View for InputBuffer {
    type V = Seq<u8>;

    closed spec fn view(&self) -> Seq<u8> {
        self.buf@
    }
}

impl InputBuffer {
    /// An empty echo buffer.
    pub fn new() -> (r: InputBuffer)
        ensures
            r@ == Seq::<u8>::empty(),
    {
        InputBuffer { buf: Vec::new() }
    }

    /// Appends one byte; a byte arriving at capacity is silently dropped.
    pub fn push_byte(&mut self, byte: u8)
        ensures
            final(self)@ == echo_push(old(self)@, byte),
    {
        if self.buf.len() < INPUT_BUFFER_SIZE {
            self.buf.push(byte);
        }
    }

    /// Drops the most recent byte, if there is one.
    pub fn pop_byte(&mut self)
        ensures
            old(self)@.len() > 0 ==> final(self)@ == old(self)@.drop_last(),
            old(self)@.len() == 0 ==> final(self)@ == old(self)@,
    {
        let _ = self.buf.pop();
    }

    /// Forgets everything typed so far.
    pub fn clear(&mut self)
        ensures
            final(self)@ == Seq::<u8>::empty(),
    {
        self.buf.clear();
    }

    /// How many bytes are held.
    pub fn len(&self) -> (n: usize)
        ensures
            n == self@.len(),
    {
        self.buf.len()
    }

    /// The byte at position `i`.
    pub fn byte_at(&self, i: usize) -> (b: u8)
        requires
            i < self@.len(),
        ensures
            b == self@[i as int],
    {
        self.buf[i]
    }

    /// The buffered bytes as text; an invalid UTF-8 content (possible
    /// once a substitute glyph was echoed) reads as the empty string.
    pub fn as_str(&self) -> (s: &str)
        ensures
            valid_utf8(self@) ==> s@ == decode_utf8(self@),
            !valid_utf8(self@) ==> s@ == Seq::<char>::empty(),
    {
        match bytes_as_utf8(self.buf.as_slice()) {
            Some(s) => s,
            None => {
                let r = "";
                proof {
                    reveal_strlit("");
                    assert(r@ =~= Seq::<char>::empty());
                }
                r
            },
        }
    }
}

/// Relies on core::str::from_utf8: it returns `Ok` exactly on valid
/// UTF-8 input, decoded as vstd's UTF-8 model describes.
#[verifier::external_body]
fn bytes_as_utf8(bytes: &[u8]) -> (r: Option<&str>)
    ensures
        r is Some <==> valid_utf8(bytes@),
        r matches Some(s) ==> s@ == decode_utf8(bytes@),
{
    core::str::from_utf8(bytes).ok()
}

/// History of rows pushed off the bottom of the screen by scrolling up;
/// bounded, oldest-evicted.
pub struct UpBuffer {
    lines: Vec<Vec<ScreenChar>>,
    max_lines: usize,
}

impl View for UpBuffer {
    type V = Seq<Seq<ScreenChar>>;

    closed spec fn view(&self) -> Seq<Seq<ScreenChar>> {
        rows_view(self.lines@)
    }
}

impl UpBuffer {
    /// The bound this buffer was made with.
    pub closed spec fn spec_max_lines(&self) -> usize {
        self.max_lines
    }

    /// An empty history holding at most `max_history` rows.
    pub fn new(max_history: usize) -> (r: UpBuffer)
        ensures
            r@ == Seq::<Seq<ScreenChar>>::empty(),
            r.spec_max_lines() == max_history,
    {
        let r = UpBuffer { lines: Vec::new(), max_lines: max_history };
        proof {
            assert(r@ =~= Seq::<Seq<ScreenChar>>::empty());
        }
        r
    }

    /// Appends a row, evicting the oldest row first when full.
    pub fn push_line(&mut self, line: Vec<ScreenChar>)
        requires
            0 < old(self).spec_max_lines(),
        ensures
            final(self)@ == history_push(old(self)@, line@, old(self).spec_max_lines() as int),
            final(self).spec_max_lines() == old(self).spec_max_lines(),
    {
        if self.lines.len() >= self.max_lines {
            self.lines.remove(0);
            proof {
                assert(self.lines@ =~= old(self).lines@.subrange(
                    1,
                    old(self).lines@.len() as int,
                ));
            }
        }
        self.lines.push(line);
        proof {
            assert(self@ =~= history_push(old(self)@, line@, self.spec_max_lines() as int));
        }
    }

    /// Takes the most recent row, if there is one.
    pub fn pop_line(&mut self) -> (r: Option<Vec<ScreenChar>>)
        ensures
            final(self).spec_max_lines() == old(self).spec_max_lines(),
            old(self)@.len() == 0 ==> r is None && final(self)@ == old(self)@,
            old(self)@.len() > 0 ==> (r matches Some(line) && line@ == old(self)@.last()
                && final(self)@ == old(self)@.drop_last()),
    {
        let r = self.lines.pop();
        proof {
            if old(self)@.len() > 0 {
                assert(self@ =~= old(self)@.drop_last());
            } else {
                assert(self@ =~= old(self)@);
            }
        }
        r
    }

    /// Whether nothing is buffered.
    pub fn is_empty(&self) -> (r: bool)
        ensures
            r <==> self@.len() == 0,
    {
        self.lines.is_empty()
    }

    /// Forgets all buffered rows.
    pub fn clear(&mut self)
        ensures
            final(self)@ == Seq::<Seq<ScreenChar>>::empty(),
            final(self).spec_max_lines() == old(self).spec_max_lines(),
    {
        self.lines.clear();
        proof {
            assert(self@ =~= Seq::<Seq<ScreenChar>>::empty());
        }
    }
}

/// History of rows pushed off the top of the screen by scrolling down or
/// by finished lines; bounded, oldest-evicted.
pub struct DownBuffer {
    lines: Vec<Vec<ScreenChar>>,
    max_lines: usize,
}

impl View for DownBuffer {
    type V = Seq<Seq<ScreenChar>>;

    closed spec fn view(&self) -> Seq<Seq<ScreenChar>> {
        rows_view(self.lines@)
    }
}

impl DownBuffer {
    /// The bound this buffer was made with.
    pub closed spec fn spec_max_lines(&self) -> usize {
        self.max_lines
    }

    /// An empty history holding at most `max_history` rows.
    pub fn new(max_history: usize) -> (r: DownBuffer)
        ensures
            r@ == Seq::<Seq<ScreenChar>>::empty(),
            r.spec_max_lines() == max_history,
    {
        let r = DownBuffer { lines: Vec::new(), max_lines: max_history };
        proof {
            assert(r@ =~= Seq::<Seq<ScreenChar>>::empty());
        }
        r
    }

    /// Appends a row, evicting the oldest row first when full.
    pub fn push_line(&mut self, line: Vec<ScreenChar>)
        requires
            0 < old(self).spec_max_lines(),
        ensures
            final(self)@ == history_push(old(self)@, line@, old(self).spec_max_lines() as int),
            final(self).spec_max_lines() == old(self).spec_max_lines(),
    {
        if self.lines.len() >= self.max_lines {
            self.lines.remove(0);
            proof {
                assert(self.lines@ =~= old(self).lines@.subrange(
                    1,
                    old(self).lines@.len() as int,
                ));
            }
        }
        self.lines.push(line);
        proof {
            assert(self@ =~= history_push(old(self)@, line@, self.spec_max_lines() as int));
        }
    }

    /// Takes the most recent row, if there is one.
    pub fn pop_line(&mut self) -> (r: Option<Vec<ScreenChar>>)
        ensures
            final(self).spec_max_lines() == old(self).spec_max_lines(),
            old(self)@.len() == 0 ==> r is None && final(self)@ == old(self)@,
            old(self)@.len() > 0 ==> (r matches Some(line) && line@ == old(self)@.last()
                && final(self)@ == old(self)@.drop_last()),
    {
        let r = self.lines.pop();
        proof {
            if old(self)@.len() > 0 {
                assert(self@ =~= old(self)@.drop_last());
            } else {
                assert(self@ =~= old(self)@);
            }
        }
        r
    }

    /// Whether nothing is buffered.
    pub fn is_empty(&self) -> (r: bool)
        ensures
            r <==> self@.len() == 0,
    {
        self.lines.is_empty()
    }

    /// Forgets all buffered rows.
    pub fn clear(&mut self)
        ensures
            final(self)@ == Seq::<Seq<ScreenChar>>::empty(),
            final(self).spec_max_lines() == old(self).spec_max_lines(),
    {
        self.lines.clear();
        proof {
            assert(self@ =~= Seq::<Seq<ScreenChar>>::empty());
        }
    }
}

/// A freshly allocated blank row in the given color.
fn grid_blank_row(color: ColorCode) -> (line: Vec<ScreenChar>)
    ensures
        line@ == blank_row(color),
{
    let mut line: Vec<ScreenChar> = Vec::new();
    let mut c: usize = 0;
    while c < BUFFER_WIDTH
        invariant
            c <= BUFFER_WIDTH,
            line@.len() == c,
            forall|j: int| 0 <= j < c ==> line@[j] == blank_cell(color),
        decreases BUFFER_WIDTH - c,
    {
        line.push(ScreenChar { ascii_character: 0x20, color_code: color });
        c = c + 1;
    }
    proof {
        assert(line@ =~= blank_row(color));
    }
    line
}

/// A freshly allocated grid of blank cells in the given color.
fn grid_blank(color: ColorCode) -> (grid: Vec<ScreenChar>)
    ensures
        grid@ == Seq::new(GRID_CELLS as nat, |i: int| blank_cell(color)),
{
    let mut grid: Vec<ScreenChar> = Vec::new();
    let mut c: usize = 0;
    while c < GRID_CELLS
        invariant
            c <= GRID_CELLS,
            grid@.len() == c,
            forall|j: int| 0 <= j < c ==> grid@[j] == blank_cell(color),
        decreases GRID_CELLS - c,
    {
        grid.push(ScreenChar { ascii_character: 0x20, color_code: color });
        c = c + 1;
    }
    proof {
        assert(grid@ =~= Seq::new(GRID_CELLS as nat, |i: int| blank_cell(color)));
    }
    grid
}

/// A copy of row `r` of the grid.
fn grid_copy_row(grid: &Vec<ScreenChar>, r: usize) -> (line: Vec<ScreenChar>)
    requires
        grid@.len() == GRID_CELLS as int,
        r < BUFFER_HEIGHT,
    ensures
        line@ == row_of(grid@, r as int),
{
    let mut line: Vec<ScreenChar> = Vec::new();
    let base = r * BUFFER_WIDTH;
    let mut c: usize = 0;
    while c < BUFFER_WIDTH
        invariant
            c <= BUFFER_WIDTH,
            base == r * BUFFER_WIDTH,
            r < BUFFER_HEIGHT,
            grid@.len() == GRID_CELLS as int,
            line@.len() == c,
            forall|j: int| 0 <= j < c ==> line@[j] == grid@[base + j],
        decreases BUFFER_WIDTH - c,
    {
        line.push(grid[base + c]);
        c = c + 1;
    }
    proof {
        assert(line@ =~= row_of(grid@, r as int));
    }
    line
}

/// Overwrites row `r` of the grid with the given line.
fn grid_write_row(grid: &mut Vec<ScreenChar>, r: usize, line: &Vec<ScreenChar>)
    requires
        old(grid)@.len() == GRID_CELLS as int,
        r < BUFFER_HEIGHT,
        line@.len() == BUFFER_WIDTH as int,
    ensures
        final(grid)@ == grid_set_row(old(grid)@, r as int, line@),
{
    let base = r * BUFFER_WIDTH;
    let mut c: usize = 0;
    while c < BUFFER_WIDTH
        invariant
            c <= BUFFER_WIDTH,
            base == r * BUFFER_WIDTH,
            r < BUFFER_HEIGHT,
            line@.len() == BUFFER_WIDTH as int,
            grid@.len() == GRID_CELLS as int,
            forall|j: int| base <= j < base + c ==> grid@[j] == line@[j - base],
            forall|j: int|
                0 <= j < GRID_CELLS as int && !(base <= j < base + c) ==> grid@[j] == old(
                    grid,
                )@[j],
        decreases BUFFER_WIDTH - c,
    {
        grid.set(base + c, line[c]);
        c = c + 1;
    }
    proof {
        assert(grid@ =~= grid_set_row(old(grid)@, r as int, line@));
    }
}

/// Moves every row one step toward the bottom; the first row keeps its
/// old contents and the old last row falls off.
fn grid_shift_rows_down(grid: &mut Vec<ScreenChar>)
    requires
        old(grid)@.len() == GRID_CELLS as int,
    ensures
        final(grid)@ == grid_shift_down(old(grid)@, row_of(old(grid)@, 0)),
{
    let mut i: usize = GRID_CELLS - BUFFER_WIDTH;
    while i > 0
        invariant
            i <= GRID_CELLS - BUFFER_WIDTH,
            grid@.len() == GRID_CELLS as int,
            forall|j: int|
                i + BUFFER_WIDTH <= j < GRID_CELLS as int ==> grid@[j] == old(grid)@[j
                    - BUFFER_WIDTH],
            forall|j: int| 0 <= j < i + BUFFER_WIDTH ==> grid@[j] == old(grid)@[j],
        decreases i,
    {
        i = i - 1;
        let cell = grid[i];
        grid.set(i + BUFFER_WIDTH, cell);
    }
    proof {
        assert(grid@ =~= grid_shift_down(old(grid)@, row_of(old(grid)@, 0)));
    }
}

/// Moves every row one step toward the top; the last row keeps its old
/// contents and the old first row falls off.
fn grid_shift_rows_up(grid: &mut Vec<ScreenChar>)
    requires
        old(grid)@.len() == GRID_CELLS as int,
    ensures
        final(grid)@ == grid_shift_up(old(grid)@, row_of(old(grid)@, BUFFER_HEIGHT as int - 1)),
{
    let mut i: usize = BUFFER_WIDTH;
    while i < GRID_CELLS
        invariant
            BUFFER_WIDTH <= i <= GRID_CELLS,
            grid@.len() == GRID_CELLS as int,
            forall|j: int|
                0 <= j < i - BUFFER_WIDTH ==> grid@[j] == old(grid)@[j + BUFFER_WIDTH],
            forall|j: int| i - BUFFER_WIDTH <= j < GRID_CELLS as int ==> grid@[j] == old(grid)@[j],
        decreases GRID_CELLS - i,
    {
        let cell = grid[i];
        grid.set(i - BUFFER_WIDTH, cell);
        i = i + 1;
    }
    proof {
        assert(grid@ =~= grid_shift_up(old(grid)@, row_of(old(grid)@, BUFFER_HEIGHT as int - 1)));
    }
}

/// The terminal engine: owns the character grid, the cursor state, the
/// two scroll histories and the input echo buffer, and is the single
/// point of mutation for on-screen text.
pub struct Writer {
    column_position: usize,
    row_position: usize,
    color_code: ColorCode,
    buffer: Vec<ScreenChar>,
    buffer_string: InputBuffer,
    up_buffer: UpBuffer,
    down_buffer: DownBuffer,
    write_row: isize,
}

impl View for Writer {
    type V = TermModel;

    closed spec fn view(&self) -> TermModel {
        TermModel {
            grid: self.buffer@,
            column: self.column_position as int,
            row_position: self.row_position as int,
            color: self.color_code,
            write_row: self.write_row as int,
            up_history: self.up_buffer@,
            down_history: self.down_buffer@,
            echo: self.buffer_string@,
        }
    }
}

impl Writer {
    /// The history buffers carry the capacity the engine was built with.
    pub closed spec fn caps_ok(&self) -> bool {
        &&& self.up_buffer.spec_max_lines() == HISTORY_LINES
        &&& self.down_buffer.spec_max_lines() == HISTORY_LINES
    }

    /// Well-formedness: the model is well-formed and the history buffers
    /// have the right capacity.
    pub open spec fn wf(&self) -> bool {
        &&& term_wf(self@)
        &&& self.caps_ok()
    }

    /// A fresh terminal: a blank white-on-black grid, the cursor at the
    /// origin, and empty histories.
    pub fn new() -> (w: Writer)
        ensures
            w@ == initial_term(),
            w.wf(),
    {
        let color_code = ColorCode::new(Color::White, Color::Black);
        let w = Writer {
            column_position: 0,
            row_position: 0,
            color_code,
            buffer: grid_blank(color_code),
            buffer_string: InputBuffer::new(),
            up_buffer: UpBuffer::new(HISTORY_LINES),
            down_buffer: DownBuffer::new(HISTORY_LINES),
            write_row: 0,
        };
        proof {
            assert(w@ =~~= initial_term());
        }
        w
    }

    /// Switches the active color for subsequent output.
    pub fn set_color(&mut self, foreground: Color, background: Color)
        ensures
            final(self)@ == (TermModel { color: spec_color_code(foreground, background), ..old(
                self,
            )@ }),
            old(self).wf() ==> final(self).wf(),
    {
        self.color_code = ColorCode::new(foreground, background);
    }

    /// One manual scroll toward older content; see `scroll_up_spec`.
    pub fn scroll_up(&mut self)
        requires
            old(self).wf(),
        ensures
            final(self)@ == scroll_up_spec(old(self)@),
            final(self).wf(),
    {
        proof {
            lemma_scroll_up_wf(old(self)@);
        }
        let last = grid_copy_row(&self.buffer, BUFFER_HEIGHT - 1);
        self.up_buffer.push_line(last);
        grid_shift_rows_down(&mut self.buffer);
        let blank = grid_blank_row(self.color_code);
        grid_write_row(&mut self.buffer, 0, &blank);
        if self.row_position < BUFFER_HEIGHT - 1 {
            self.row_position = self.row_position + 1;
        }
        match self.down_buffer.pop_line() {
            Some(line) => {
                grid_write_row(&mut self.buffer, 0, &line);
            },
            None => {
                let blank_again = grid_blank_row(self.color_code);
                grid_write_row(&mut self.buffer, 0, &blank_again);
            },
        }
        proof {
            assert(self@.grid =~= scroll_up_spec(old(self)@).grid);
            assert(self@ =~~= scroll_up_spec(old(self)@));
        }
    }

    /// One manual scroll toward newer content; see `scroll_down_spec`.
    pub fn scroll_down(&mut self)
        requires
            old(self).wf(),
        ensures
            final(self)@ == scroll_down_spec(old(self)@),
            final(self).wf(),
    {
        proof {
            lemma_scroll_down_wf(old(self)@);
        }
        let first = grid_copy_row(&self.buffer, 0);
        self.down_buffer.push_line(first);
        grid_shift_rows_up(&mut self.buffer);
        let blank = grid_blank_row(self.color_code);
        grid_write_row(&mut self.buffer, BUFFER_HEIGHT - 1, &blank);
        self.row_position = BUFFER_HEIGHT - 1;
        match self.up_buffer.pop_line() {
            Some(line) => {
                grid_write_row(&mut self.buffer, BUFFER_HEIGHT - 1, &line);
            },
            None => {
                let blank_again = grid_blank_row(self.color_code);
                grid_write_row(&mut self.buffer, BUFFER_HEIGHT - 1, &blank_again);
            },
        }
        proof {
            assert(self@.grid =~= scroll_down_spec(old(self)@).grid);
            assert(self@ =~~= scroll_down_spec(old(self)@));
        }
    }

    /// Advances the logical write row by one; used by the mouse driver
    /// right after a manual scroll up.
    pub fn plus_write_row(&mut self)
        requires
            old(self)@.write_row < isize::MAX as int,
        ensures
            final(self)@ == (TermModel { write_row: old(self)@.write_row + 1, ..old(self)@ }),
            old(self).wf() ==> final(self).wf(),
    {
        self.write_row = self.write_row + 1;
    }

    /// Retracts the logical write row by one; used by the mouse driver
    /// right after a manual scroll down.
    pub fn minus_write_row(&mut self)
        requires
            old(self)@.write_row > isize::MIN as int,
        ensures
            final(self)@ == (TermModel { write_row: old(self)@.write_row - 1, ..old(self)@ }),
            old(self).wf() ==> final(self).wf(),
    {
        self.write_row = self.write_row - 1;
    }

    /// Re-normalizes the logical write row before any row-indexed access:
    /// scrolls up while the row sits at or below the top margin, down
    /// while it sits past the bottom; see `check_write_row_spec`.
    pub fn check_write_row(&mut self)
        requires
            old(self).wf(),
        ensures
            final(self)@ == check_write_row_spec(old(self)@),
            final(self).wf(),
            1 < final(self)@.write_row < BUFFER_HEIGHT as int,
    {
        proof {
            lemma_check_write_row(old(self)@);
        }
        while self.write_row <= 1
            invariant
                self.wf(),
                check_write_row_spec(self@) == check_write_row_spec(old(self)@),
            decreases 2 - self@.write_row,
        {
            self.scroll_up();
            self.write_row = self.write_row + 1;
        }
        while self.write_row >= BUFFER_HEIGHT as isize
            invariant
                self.wf(),
                1 < self@.write_row,
                check_write_row_spec(self@) == check_write_row_spec(old(self)@),
            decreases self@.write_row,
        {
            self.scroll_down();
            self.write_row = self.write_row - 1;
        }
    }

    /// Ends the current row, capturing the first visible row into the
    /// down-history; see `new_line_spec`.
    pub fn new_line(&mut self)
        requires
            old(self).wf(),
            old(self)@.write_row < isize::MAX as int,
        ensures
            final(self)@ == new_line_spec(old(self)@),
            final(self).wf(),
    {
        proof {
            lemma_new_line_wf(old(self)@);
        }
        let first = grid_copy_row(&self.buffer, 0);
        self.down_buffer.push_line(first);
        self.column_position = 0;
        self.write_row = self.write_row + 1;
        if self.write_row >= BUFFER_HEIGHT as isize || self.write_row < 0 {
            grid_shift_rows_up(&mut self.buffer);
            let blank = grid_blank_row(self.color_code);
            grid_write_row(&mut self.buffer, BUFFER_HEIGHT - 1, &blank);
            self.write_row = (BUFFER_HEIGHT - 1) as isize;
            proof {
                assert(self@.grid =~= new_line_spec(old(self)@).grid);
            }
        }
        proof {
            assert(self@ =~~= new_line_spec(old(self)@));
        }
    }

    /// Writes one byte at the cursor: printable ASCII and newline pass
    /// through, anything else renders as the substitute glyph; the byte
    /// is also mirrored into the echo buffer. See `write_byte_spec`.
    pub fn write_byte(&mut self, byte: u8)
        requires
            old(self).wf(),
        ensures
            final(self)@ == write_byte_spec(old(self)@, byte),
            final(self).wf(),
    {
        proof {
            lemma_write_byte_wf(old(self)@, byte);
        }
        match byte {
            0x0a => {
                self.check_write_row();
                self.new_line();
                self.buffer_string.push_byte(0x0a);
            },
            0x20..=0x7e => {
                self.check_write_row();
                if self.column_position >= BUFFER_WIDTH {
                    self.new_line();
                }
                let row = self.write_row as usize;
                let col = self.column_position;
                let color_code = self.color_code;
                self.buffer.set(row * BUFFER_WIDTH + col, ScreenChar {
                    ascii_character: byte,
                    color_code,
                });
                self.column_position = col + 1;
                self.buffer_string.push_byte(byte);
            },
            _ => {
                self.check_write_row();
                if self.column_position >= BUFFER_WIDTH {
                    self.new_line();
                }
                let row = self.write_row as usize;
                let col = self.column_position;
                let color_code = self.color_code;
                self.buffer.set(row * BUFFER_WIDTH + col, ScreenChar {
                    ascii_character: SUBSTITUTE_GLYPH,
                    color_code,
                });
                self.column_position = col + 1;
                self.buffer_string.push_byte(SUBSTITUTE_GLYPH);
            },
        }
        proof {
            assert(self@ =~~= write_byte_spec(old(self)@, byte));
        }
    }

    /// Writes a byte string left to right through the same filter as
    /// `write_byte`.
    pub fn write_bytes(&mut self, s: &[u8])
        requires
            old(self).wf(),
        ensures
            final(self)@ == write_bytes_spec(old(self)@, s@),
            final(self).wf(),
    {
        let n = s.len();
        let mut i: usize = 0;
        while i < n
            invariant
                i <= n,
                n == s@.len(),
                self.wf(),
                self@ == write_bytes_spec(old(self)@, s@.take(i as int)),
            decreases n - i,
        {
            let ghost prev = self@;
            let b = *vstd::slice::slice_index_get(s, i);
            match b {
                0x20..=0x7e | 0x0a => self.write_byte(b),
                _ => self.write_byte(SUBSTITUTE_GLYPH),
            }
            proof {
                if !(0x20 <= b && b <= 0x7e) && b != 0x0a {
                    assert(glyph_of(SUBSTITUTE_GLYPH) == glyph_of(b));
                    assert(write_byte_spec(prev, SUBSTITUTE_GLYPH) =~~= write_byte_spec(prev, b));
                }
                assert(s@.take(i + 1).drop_last() =~= s@.take(i as int));
                assert(s@.take(i + 1).last() == s@[i as int]);
            }
            i = i + 1;
        }
        proof {
            assert(s@.take(n as int) =~= s@);
        }
    }

    /// Writes a string slice; see `write_bytes`.
    pub fn write_string(&mut self, s: &str)
        requires
            old(self).wf(),
        ensures
            final(self)@ == write_bytes_spec(old(self)@, s.spec_bytes()),
            final(self).wf(),
    {
        self.write_bytes(s.as_bytes());
    }

    /// Erases the previous character cell, wrapping to the previous row
    /// unless already at the very top; see `backspace_spec`.
    pub fn backspace(&mut self)
        requires
            old(self).wf(),
        ensures
            final(self)@ == backspace_spec(old(self)@),
            final(self).wf(),
    {
        proof {
            lemma_backspace_wf(old(self)@);
        }
        self.check_write_row();
        if self.column_position == 0 && self.write_row == 0 {
            return ;
        }
        if self.column_position == 0 {
            self.write_row = self.write_row - 1;
            self.column_position = BUFFER_WIDTH - 1;
        } else {
            self.column_position = self.column_position - 1;
        }
        let row = self.write_row as usize;
        let col = self.column_position;
        let color_code = self.color_code;
        self.buffer.set(row * BUFFER_WIDTH + col, ScreenChar { ascii_character: 0x20, color_code });
        self.buffer_string.pop_byte();
        proof {
            assert(self@ =~~= backspace_spec(old(self)@));
        }
    }

    /// Blanks every cell, resets the cursor, clears both histories and
    /// the echo buffer, and parks the write row at row one; see
    /// `clear_screen_spec`.
    pub fn clear_screen(&mut self)
        requires
            old(self).wf(),
        ensures
            final(self)@ == clear_screen_spec(old(self)@),
            final(self).wf(),
    {
        proof {
            lemma_check_write_row(old(self)@);
        }
        self.check_write_row();
        self.buffer = grid_blank(self.color_code);
        self.column_position = 0;
        self.row_position = 0;
        self.buffer_string.clear();
        self.up_buffer.clear();
        self.down_buffer.clear();
        self.write_row = 1;
        proof {
            assert(self@ =~~= clear_screen_spec(old(self)@));
        }
    }

    /// The character shown at the given row and column.
    pub fn char_at(&self, row: usize, col: usize) -> (b: u8)
        requires
            self.wf(),
            row < BUFFER_HEIGHT,
            col < BUFFER_WIDTH,
        ensures
            b == self@.grid[row * BUFFER_WIDTH as int + col].ascii_character,
    {
        self.buffer[row * BUFFER_WIDTH + col].ascii_character
    }

    /// The whole cell at the given row and column.
    pub fn cell_at(&self, row: usize, col: usize) -> (cell: ScreenChar)
        requires
            self.wf(),
            row < BUFFER_HEIGHT,
            col < BUFFER_WIDTH,
        ensures
            cell == self@.grid[row * BUFFER_WIDTH as int + col],
    {
        self.buffer[row * BUFFER_WIDTH + col]
    }

    /// The echo buffer's current line as text; invalid UTF-8 content
    /// reads as the empty string.
    pub fn get_buffer(&self) -> (s: &str)
        ensures
            valid_utf8(self@.echo) ==> s@ == decode_utf8(self@.echo),
            !valid_utf8(self@.echo) ==> s@ == Seq::<char>::empty(),
    {
        self.buffer_string.as_str()
    }
}

/// What `buffer_copy` reads: the echo buffer's bytes where they form
/// valid text, nothing otherwise.
pub open spec fn echo_bytes(m: TermModel) -> Seq<u8> {
    if valid_utf8(m.echo) {
        m.echo
    } else {
        Seq::empty()
    }
}

/// Copies the echoed line into the front of `dest` and says how many
/// bytes were copied; the rest of `dest` is untouched.
pub fn buffer_copy(writer: &Writer, dest: &mut [u8]) -> (len: usize)
    ensures
        len == if old(dest)@.len() <= echo_bytes(writer@).len() {
            old(dest)@.len() as int
        } else {
            echo_bytes(writer@).len() as int
        },
        final(dest)@.len() == old(dest)@.len(),
        forall|i: int| 0 <= i < len ==> final(dest)@[i] == echo_bytes(writer@)[i],
        forall|i: int| len <= i < old(dest)@.len() ==> final(dest)@[i] == old(dest)@[i],
{
    broadcast use vstd::utf8::decode_utf8_encode_utf8;

    let s = writer.get_buffer();
    let buf = s.as_bytes();
    proof {
        if valid_utf8(writer@.echo) {
            assert(buf@ == writer@.echo);
        } else {
            assert(s@.len() == 0);
            assert(buf@ =~= Seq::<u8>::empty());
        }
    }
    let n = if dest.len() <= buf.len() {
        dest.len()
    } else {
        buf.len()
    };
    let mut i: usize = 0;
    while i < n
        invariant
            i <= n,
            n <= buf@.len(),
            n <= dest@.len(),
            dest@.len() == old(dest)@.len(),
            forall|j: int| 0 <= j < i ==> dest@[j] == buf@[j],
            forall|j: int| i <= j < dest@.len() ==> dest@[j] == old(dest)@[j],
        decreases n - i,
    {
        let b = *vstd::slice::slice_index_get(buf, i);
        dest.set(i, b);
        i = i + 1;
    }
    n
}

/// Forgets the echoed line; the grid and everything else stay as they
/// were.
pub fn buffer_clear(writer: &mut Writer)
    ensures
        final(writer)@ == (TermModel { echo: Seq::<u8>::empty(), ..old(writer)@ }),
        old(writer).wf() ==> final(writer).wf(),
{
    writer.buffer_string.clear();
    proof {
        assert(writer@ =~~= (TermModel { echo: Seq::<u8>::empty(), ..old(writer)@ }));
    }
}

/// A scoped color change: switches to the given colors, writes the byte
/// string, and restores the default white-on-black, unconditionally.
pub fn print_colored(writer: &mut Writer, s: &[u8], foreground: Color, background: Color)
    requires
        old(writer).wf(),
    ensures
        final(writer)@ == (TermModel {
            color: default_color(),
            ..write_bytes_spec(
                TermModel { color: spec_color_code(foreground, background), ..old(writer)@ },
                s@,
            )
        }),
        final(writer).wf(),
{
    writer.set_color(foreground, background);
    writer.write_bytes(s);
    writer.set_color(Color::White, Color::Black);
    proof {
        assert(writer@ =~~= (TermModel {
            color: default_color(),
            ..write_bytes_spec(
                TermModel { color: spec_color_code(foreground, background), ..old(writer)@ },
                s@,
            )
        }));
    }
}

} // verus!
