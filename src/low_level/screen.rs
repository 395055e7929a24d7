use vstd::prelude::*;

use super::color::{pack, Char, Color, ColorCode};

verus! {

pub const BUFFER_HEIGHT: usize = 25;

pub const BUFFER_WIDTH: usize = 80;

/// The columns the writer uses. Input stops working past this column on the
/// emulated hardware, so the cursor never goes beyond it; keep it until that
/// defect is understood.
pub const ACTUAL_BUFFER_WIDTH: usize = 50;

pub const NEWLINE: u8 = 10;

pub const SPACE: u8 = 32;

/// The row that receives all writes.
pub open spec fn bottom() -> int {
    BUFFER_HEIGHT - 1
}

pub open spec fn blank(color: ColorCode) -> Char {
    Char { ascii_character: SPACE, color_code: color }
}

pub open spec fn blank_row(color: ColorCode) -> Seq<Char> {
    Seq::new(BUFFER_WIDTH as nat, |c: int| blank(color))
}

pub open spec fn blank_grid(color: ColorCode) -> Seq<Seq<Char>> {
    Seq::new(BUFFER_HEIGHT as nat, |r: int| blank_row(color))
}

pub open spec fn grid_shaped(rows: Seq<Seq<Char>>) -> bool {
    &&& rows.len() == BUFFER_HEIGHT
    &&& forall|r: int| 0 <= r < BUFFER_HEIGHT ==> (#[trigger] rows[r]).len() == BUFFER_WIDTH
}

/// The grid with the cell `column` of the bottom row replaced.
pub open spec fn put_cell(rows: Seq<Seq<Char>>, column: int, c: Char) -> Seq<Seq<Char>> {
    rows.update(bottom(), rows[bottom()].update(column, c))
}

/// The grid as drawn: the cell just past the cursor column is shown with its
/// colors swapped.
pub open spec fn marked(rows: Seq<Seq<Char>>, column: int) -> Seq<Seq<Char>> {
    put_cell(rows, column + 1, rows[bottom()][column + 1].inverted())
}

/// The grid moved up by one row, with a blank bottom row.
pub open spec fn shifted(rows: Seq<Seq<Char>>, color: ColorCode) -> Seq<Seq<Char>> {
    rows.subrange(1, BUFFER_HEIGHT as int).push(blank_row(color))
}

/// What the writer shows, with the cursor highlight taken out: the rows of
/// cells, the cursor column, and the color used for new characters.
pub struct TextScreen {
    pub rows: Seq<Seq<Char>>,
    pub column: nat,
    pub color: ColorCode,
}

impl TextScreen {
    pub open spec fn wf(self) -> bool {
        &&& grid_shaped(self.rows)
        &&& self.column <= ACTUAL_BUFFER_WIDTH
    }

    /// Start a new line: every row moves up one, the top row is lost, the
    /// bottom row is blank in the active color, and the cursor is at column 0.
    pub open spec fn scrolled(self) -> TextScreen {
        TextScreen { rows: shifted(self.rows, self.color), column: 0, color: self.color }
    }

    /// Move the cursor; column 0 means a new line.
    pub open spec fn moved(self, column: nat) -> TextScreen {
        if column == 0 {
            self.scrolled()
        } else {
            TextScreen { column, ..self }
        }
    }

    /// Write one byte: a newline, or any byte once the usable width is
    /// reached, starts a new line; any other byte advances the cursor and is
    /// placed at the new cursor column.
    pub open spec fn put(self, byte: u8) -> TextScreen {
        if byte == NEWLINE || self.column >= ACTUAL_BUFFER_WIDTH {
            self.scrolled()
        } else {
            TextScreen {
                rows: put_cell(
                    self.rows,
                    self.column + 1 as int,
                    Char { ascii_character: byte, color_code: self.color },
                ),
                column: self.column + 1,
                color: self.color,
            }
        }
    }

    /// Write the bytes in order.
    pub open spec fn put_all(self, bytes: Seq<u8>) -> TextScreen
        decreases bytes.len(),
    {
        if bytes.len() == 0 {
            self
        } else {
            self.put_all(bytes.drop_last()).put(bytes.last())
        }
    }

    /// Erase the character under the cursor and step back.
    pub open spec fn backspaced(self) -> TextScreen {
        if self.column == 0 {
            self
        } else {
            TextScreen {
                rows: put_cell(self.rows, self.column as int, blank(self.color)),
                ..self
            }.moved((self.column - 1) as nat)
        }
    }

    pub open spec fn stepped_back(self) -> TextScreen {
        if self.column == 0 {
            self
        } else {
            self.moved((self.column - 1) as nat)
        }
    }

    pub open spec fn stepped_front(self) -> TextScreen {
        if self.column == ACTUAL_BUFFER_WIDTH {
            self
        } else {
            self.moved(self.column + 1)
        }
    }

    pub open spec fn cleared(self, color: ColorCode) -> TextScreen {
        TextScreen { rows: blank_grid(color), ..self }
    }

    pub open spec fn recolored(self, color: ColorCode) -> TextScreen {
        TextScreen { color, ..self }
    }
}

/// Drawing the cursor highlight twice leaves the grid as it was.
pub proof fn lemma_marked_twice(rows: Seq<Seq<Char>>, column: int)
    requires
        grid_shaped(rows),
        0 <= column < BUFFER_WIDTH - 1,
    ensures
        marked(marked(rows, column), column) == rows,
{
    super::color::lemma_inverted_twice(rows[bottom()][column + 1]);
    assert(marked(marked(rows, column), column)[bottom()] =~= rows[bottom()]);
    assert(marked(marked(rows, column), column) =~= rows);
}

/// Replacing a cell other than the highlighted one commutes with drawing the
/// highlight.
pub proof fn lemma_marked_put_cell(rows: Seq<Seq<Char>>, column: int, k: int, c: Char)
    requires
        grid_shaped(rows),
        0 <= column < BUFFER_WIDTH - 1,
        0 <= k < BUFFER_WIDTH,
        k != column + 1,
    ensures
        marked(put_cell(rows, k, c), column) == put_cell(marked(rows, column), k, c),
{
    assert(marked(put_cell(rows, k, c), column)[bottom()] =~= put_cell(
        marked(rows, column),
        k,
        c,
    )[bottom()]);
    assert(marked(put_cell(rows, k, c), column) =~= put_cell(marked(rows, column), k, c));
}

/// A blank grid whose code has equal halves looks the same highlighted.
pub proof fn lemma_marked_blank(color: ColorCode, column: int)
    requires
        color.swapped() == color,
        0 <= column < BUFFER_WIDTH - 1,
    ensures
        marked(blank_grid(color), column) == blank_grid(color),
{
    assert(marked(blank_grid(color), column)[bottom()] =~= blank_grid(color)[bottom()]);
    assert(marked(blank_grid(color), column) =~= blank_grid(color));
}

pub proof fn lemma_shifted_shaped(rows: Seq<Seq<Char>>, color: ColorCode)
    requires
        grid_shaped(rows),
    ensures
        grid_shaped(shifted(rows, color)),
{
    assert forall|r: int| 0 <= r < BUFFER_HEIGHT implies (#[trigger] shifted(rows, color)[r]).len()
        == BUFFER_WIDTH by {
        if r < bottom() {
            assert(shifted(rows, color)[r] == rows[r + 1]);
        }
    }
}

pub proof fn lemma_put_cell_shaped(rows: Seq<Seq<Char>>, column: int, c: Char)
    requires
        grid_shaped(rows),
        0 <= column < BUFFER_WIDTH,
    ensures
        grid_shaped(put_cell(rows, column, c)),
{
    assert forall|r: int| 0 <= r < BUFFER_HEIGHT implies (#[trigger] put_cell(
        rows,
        column,
        c,
    )[r]).len() == BUFFER_WIDTH by {
        if r != bottom() {
            assert(put_cell(rows, column, c)[r] == rows[r]);
        }
    }
}

pub proof fn lemma_put_keeps_wf(s: TextScreen, byte: u8)
    requires
        s.wf(),
    ensures
        s.put(byte).wf(),
{
    lemma_shifted_shaped(s.rows, s.color);
    lemma_put_cell_shaped(
        s.rows,
        s.column + 1 as int,
        Char { ascii_character: byte, color_code: s.color },
    );
}

/// After clearing with `color`, every cell of every row is a blank whose
/// foreground and background are both `color`.
pub proof fn lemma_cleared_all_blank(s: TextScreen, color: Color)
    ensures
        ({
            let code = ColorCode(pack(color.nibble(), color.nibble()));
            &&& code.foreground() == color.nibble()
            &&& code.background() == color.nibble()
            &&& grid_shaped(s.cleared(code).rows)
            &&& forall|r: int, c: int|
                0 <= r < BUFFER_HEIGHT && 0 <= c < BUFFER_WIDTH ==> #[trigger] s.cleared(
                    code,
                ).rows[r][c] == Char { ascii_character: SPACE, color_code: code }
        }),
{
}

/// Writing bytes that hold no newline and fit before the usable width places
/// them in order after the cursor on the bottom row, advances the cursor by
/// their number, and leaves every other cell as it was.
pub proof fn lemma_put_all_in_line(s: TextScreen, bytes: Seq<u8>)
    requires
        s.wf(),
        s.column + bytes.len() <= ACTUAL_BUFFER_WIDTH,
        forall|i: int| 0 <= i < bytes.len() ==> bytes[i] != NEWLINE,
    ensures
        ({
            let t = s.put_all(bytes);
            &&& t.wf()
            &&& t.color == s.color
            &&& t.column == s.column + bytes.len()
            &&& forall|r: int| 0 <= r < bottom() ==> #[trigger] t.rows[r] == s.rows[r]
            &&& forall|i: int|
                0 <= i < bytes.len() ==> #[trigger] t.rows[bottom()][s.column + 1 + i] == Char {
                    ascii_character: bytes[i],
                    color_code: s.color,
                }
            &&& forall|c: int|
                0 <= c < BUFFER_WIDTH && (c <= s.column || c > s.column + bytes.len())
                    ==> #[trigger] t.rows[bottom()][c] == s.rows[bottom()][c]
        }),
    decreases bytes.len(),
{
    if bytes.len() > 0 {
        let front = bytes.drop_last();
        lemma_put_all_in_line(s, front);
        let t0 = s.put_all(front);
        lemma_put_keeps_wf(t0, bytes.last());
        let t = s.put_all(bytes);
        assert forall|i: int| 0 <= i < bytes.len() implies #[trigger] t.rows[bottom()][s.column + 1
            + i] == Char { ascii_character: bytes[i], color_code: s.color } by {
            if i < front.len() {
                assert(front[i] == bytes[i]);
                assert(t0.rows[bottom()][s.column + 1 + i] == Char {
                    ascii_character: front[i],
                    color_code: s.color,
                });
            }
        }
    }
}

/// From column 0, writing as many non-newline bytes as the usable width
/// leaves the cursor at the usable width, the bytes in order in the bottom
/// row's cells 1 to the usable width, and every other cell as it was.
pub proof fn lemma_fill_line(s: TextScreen, bytes: Seq<u8>)
    requires
        s.wf(),
        s.column == 0,
        bytes.len() == ACTUAL_BUFFER_WIDTH,
        forall|i: int| 0 <= i < bytes.len() ==> bytes[i] != NEWLINE,
    ensures
        ({
            let t = s.put_all(bytes);
            &&& t.column == ACTUAL_BUFFER_WIDTH
            &&& forall|r: int| 0 <= r < bottom() ==> #[trigger] t.rows[r] == s.rows[r]
            &&& forall|i: int|
                0 <= i < ACTUAL_BUFFER_WIDTH ==> #[trigger] t.rows[bottom()][1 + i] == Char {
                    ascii_character: bytes[i],
                    color_code: s.color,
                }
            &&& t.rows[bottom()][0] == s.rows[bottom()][0]
            &&& forall|c: int|
                ACTUAL_BUFFER_WIDTH < c < BUFFER_WIDTH ==> #[trigger] t.rows[bottom()][c]
                    == s.rows[bottom()][c]
        }),
{
    lemma_put_all_in_line(s, bytes);
    let t = s.put_all(bytes);
    assert forall|i: int| 0 <= i < ACTUAL_BUFFER_WIDTH implies #[trigger] t.rows[bottom()][1 + i]
        == Char { ascii_character: bytes[i], color_code: s.color } by {
        assert(t.rows[bottom()][s.column + 1 + i] == Char {
            ascii_character: bytes[i],
            color_code: s.color,
        });
    }
    assert forall|c: int| ACTUAL_BUFFER_WIDTH < c < BUFFER_WIDTH implies #[trigger] t.rows[bottom()][c]
        == s.rows[bottom()][c] by {
        assert(c > s.column + bytes.len());
    }
    assert(t.rows[bottom()][0] == s.rows[bottom()][0]);
}

/// A newline, or any byte once the cursor is at the usable width, scrolls
/// exactly once: each row takes the contents of the row below it, the bottom
/// row is blank in the active color, and the cursor goes to column 0.
pub proof fn lemma_wrap_scrolls_once(s: TextScreen, byte: u8)
    requires
        s.wf(),
        byte == NEWLINE || s.column >= ACTUAL_BUFFER_WIDTH,
    ensures
        s.put(byte) == s.scrolled(),
        s.put(byte).wf(),
        forall|r: int| 1 <= r < BUFFER_HEIGHT ==> #[trigger] s.put(byte).rows[r - 1] == s.rows[r],
        s.put(byte).rows[bottom()] == blank_row(s.color),
        s.put(byte).column == 0,
        s.put(byte).color == s.color,
{
    lemma_put_keeps_wf(s, byte);
}

/// Backspace at column 0 changes nothing. Past column 1 it blanks the cell at
/// the cursor in the active color and moves the cursor back by one; at column
/// 1 the step back to column 0 starts a new line instead.
pub proof fn lemma_backspace(s: TextScreen)
    requires
        s.wf(),
    ensures
        s.column == 0 ==> s.backspaced() == s,
        s.column > 1 ==> s.backspaced() == (TextScreen {
            rows: put_cell(s.rows, s.column as int, blank(s.color)),
            column: (s.column - 1) as nat,
            color: s.color,
        }),
        s.column == 1 ==> s.backspaced() == (TextScreen {
            rows: put_cell(s.rows, 1, blank(s.color)),
            ..s
        }).scrolled(),
{
}

} // verus!
