use vstd::prelude::*;
use vstd::string::StringSliceAdditionalSpecFns;

pub use super::color::{Char, Color, ColorCode};
pub use super::screen::{ACTUAL_BUFFER_WIDTH, BUFFER_HEIGHT, BUFFER_WIDTH, TextScreen};

use super::color::{char_of_word, lemma_word_round_trip, pack, word_of};
use super::screen::{
    blank,
    blank_row,
    bottom,
    grid_shaped,
    lemma_marked_put_cell,
    lemma_marked_twice,
    lemma_put_cell_shaped,
    lemma_shifted_shaped,
    marked,
    put_cell,
    shifted,
    NEWLINE,
    SPACE,
};

verus! {

/// The text-mode memory: rows of 16-bit cell words, character byte low and
/// color byte high.
pub type Buffer = [[u16; BUFFER_WIDTH]; BUFFER_HEIGHT];

/// The cells that a buffer holds, as stored.
pub open spec fn grid_of(buffer: Buffer) -> Seq<Seq<Char>> {
    Seq::new(
        BUFFER_HEIGHT as nat,
        |r: int| Seq::new(BUFFER_WIDTH as nat, |c: int| char_of_word(buffer[r][c])),
    )
}

proof fn lemma_grid_of_shaped(buffer: Buffer)
    ensures
        grid_shaped(grid_of(buffer)),
{
}

/// Draws a byte stream into a text buffer that it owns exclusively. The cell
/// just past the cursor column on the bottom row is kept with its colors
/// swapped, which renders the cursor.
pub struct Writer {
    column_position: usize,
    color_code: ColorCode,
    buffer: &'static mut Buffer,
}

impl View for Writer {
    type V = TextScreen;

    /// The screen with the cursor highlight taken out.
    closed spec fn view(&self) -> TextScreen {
        TextScreen {
            rows: marked(grid_of(*self.buffer), self.column_position as int),
            column: self.column_position as nat,
            color: self.color_code,
        }
    }
}

impl Writer {
    /// The cells as they are stored, cursor highlight included.
    pub closed spec fn drawn(&self) -> Seq<Seq<Char>> {
        grid_of(*self.buffer)
    }

    proof fn lemma_view(&self)
        requires
            self.column_position <= ACTUAL_BUFFER_WIDTH,
        ensures
            self@.wf(),
            self@.rows == marked(self.drawn(), self.column_position as int),
            self.drawn() == marked(self@.rows, self.column_position as int),
            grid_shaped(self.drawn()),
            self@.column == self.column_position,
            self@.color == self.color_code,
    {
        let g = grid_of(*self.buffer);
        lemma_grid_of_shaped(*self.buffer);
        lemma_put_cell_shaped(
            g,
            self.column_position + 1,
            g[bottom()][self.column_position + 1].inverted(),
        );
        lemma_marked_twice(g, self.column_position as int);
    }

    /// A writer at column 0 that draws in `color_code` into `buffer`.
    pub fn new(buffer: &'static mut Buffer, color_code: ColorCode) -> (r: Writer)
        ensures
            r@.wf(),
            r@.rows == marked(grid_of(*old(buffer)), 0),
            r@.column == 0,
            r@.color == color_code,
            r.drawn() == grid_of(*old(buffer)),
    {
        let r = Writer { column_position: 0, color_code, buffer };
        proof {
            r.lemma_view();
        }
        r
    }

    pub fn column_position(&self) -> (r: usize)
        requires
            self@.wf(),
        ensures
            r == self@.column,
    {
        proof {
            self.lemma_view();
        }
        self.column_position
    }

    pub fn color_code(&self) -> (r: ColorCode)
        requires
            self@.wf(),
        ensures
            r == self@.color,
    {
        proof {
            self.lemma_view();
        }
        self.color_code
    }

    /// The cell at (`row`, `col`), cursor highlight taken out.
    pub fn char_at(&self, row: usize, col: usize) -> (r: Char)
        requires
            self@.wf(),
            row < BUFFER_HEIGHT,
            col < BUFFER_WIDTH,
        ensures
            r == self@.rows[row as int][col as int],
    {
        proof {
            self.lemma_view();
        }
        let c = Char::from_word(self.buffer[row][col]);
        if row == BUFFER_HEIGHT - 1 && col == self.column_position + 1 {
            let mut c = c;
            c.invert_colors();
            c
        } else {
            c
        }
    }

    /// The cell at (`row`, `col`) as stored in the buffer.
    pub fn drawn_at(&self, row: usize, col: usize) -> (r: Char)
        requires
            row < BUFFER_HEIGHT,
            col < BUFFER_WIDTH,
        ensures
            r == self.drawn()[row as int][col as int],
    {
        Char::from_word(self.buffer[row][col])
    }

    /// Swap the colors of the cell just past the cursor column.
    fn invert_cursor_cell(&mut self)
        requires
            old(self).column_position <= ACTUAL_BUFFER_WIDTH,
        ensures
            final(self).column_position == old(self).column_position,
            final(self).color_code == old(self).color_code,
            final(self).drawn() == marked(old(self).drawn(), old(self).column_position as int),
    {
        let col = self.column_position + 1;
        let mut c = Char::from_word(self.buffer[BUFFER_HEIGHT - 1][col]);
        c.invert_colors();
        self.buffer[BUFFER_HEIGHT - 1][col] = c.to_word();
        proof {
            lemma_word_round_trip(c);
            assert(self.drawn()[bottom()] =~= marked(old(self).drawn(), col - 1)[bottom()]);
            assert(self.drawn() =~= marked(old(self).drawn(), col - 1));
        }
    }

    /// Store `byte` in the active color at the cursor column.
    fn set_char(&mut self, byte: u8)
        requires
            old(self).column_position <= ACTUAL_BUFFER_WIDTH,
        ensures
            final(self).column_position == old(self).column_position,
            final(self).color_code == old(self).color_code,
            final(self).drawn() == put_cell(
                old(self).drawn(),
                old(self).column_position as int,
                Char { ascii_character: byte, color_code: old(self).color_code },
            ),
    {
        let c = Char { ascii_character: byte, color_code: self.color_code };
        let col = self.column_position;
        self.buffer[BUFFER_HEIGHT - 1][col] = c.to_word();
        proof {
            lemma_word_round_trip(c);
            assert(self.drawn()[bottom()] =~= put_cell(old(self).drawn(), col as int, c)[bottom()]);
            assert(self.drawn() =~= put_cell(old(self).drawn(), col as int, c));
        }
    }

    /// Fill `row` with blanks in the active color.
    fn clear_row(&mut self, row: usize)
        requires
            row < BUFFER_HEIGHT,
        ensures
            final(self).column_position == old(self).column_position,
            final(self).color_code == old(self).color_code,
            final(self).drawn() == old(self).drawn().update(row as int, blank_row(old(self).color_code)),
    {
        let blank = Char { ascii_character: SPACE, color_code: self.color_code };
        let w = blank.to_word();
        proof {
            lemma_word_round_trip(blank);
        }
        let mut col: usize = 0;
        while col < BUFFER_WIDTH
            invariant
                col <= BUFFER_WIDTH,
                row < BUFFER_HEIGHT,
                w == word_of(blank),
                blank == super::screen::blank(old(self).color_code),
                self.column_position == old(self).column_position,
                self.color_code == old(self).color_code,
                forall|r: int| 0 <= r < BUFFER_HEIGHT && r != row ==> #[trigger] self.buffer[r] == old(self).buffer[r],
                forall|c: int| 0 <= c < col ==> #[trigger] self.buffer[row as int][c] == w,
                forall|c: int| col <= c < BUFFER_WIDTH ==> #[trigger] self.buffer[row as int][c] == old(self).buffer[row as int][c],
            decreases BUFFER_WIDTH - col,
        {
            self.buffer[row][col] = w;
            col = col + 1;
        }
        proof {
            assert(self.drawn()[row as int] =~= blank_row(old(self).color_code));
            assert forall|r: int| 0 <= r < BUFFER_HEIGHT && r != row implies #[trigger] self.drawn()[r] =~= old(self).drawn()[r] by {
                assert(self.buffer[r] == old(self).buffer[r]);
            }
            assert(self.drawn() =~= old(self).drawn().update(row as int, blank_row(old(self).color_code)));
        }
    }

    /// Move every row up by one, blank the bottom row and go to column 0.
    fn next_line(&mut self)
        ensures
            final(self).column_position == 0,
            final(self).color_code == old(self).color_code,
            final(self).drawn() == shifted(old(self).drawn(), old(self).color_code),
    {
        let mut row: usize = 1;
        while row < BUFFER_HEIGHT
            invariant
                1 <= row <= BUFFER_HEIGHT,
                self.column_position == old(self).column_position,
                self.color_code == old(self).color_code,
                forall|r: int| 0 <= r < row - 1 ==> #[trigger] self.buffer[r] == old(self).buffer[r + 1],
                forall|r: int| row - 1 <= r < BUFFER_HEIGHT ==> #[trigger] self.buffer[r] == old(self).buffer[r],
            decreases BUFFER_HEIGHT - row,
        {
            self.buffer[row - 1] = self.buffer[row];
            row = row + 1;
        }
        let ghost moved = self.drawn();
        assert(moved =~= old(self).drawn().subrange(1, BUFFER_HEIGHT as int).push(moved[bottom()]));
        self.clear_row(BUFFER_HEIGHT - 1);
        self.column_position = 0;
        proof {
            assert(self.drawn() =~= shifted(old(self).drawn(), old(self).color_code));
        }
    }

    /// Move the cursor to `column_position`; column 0 starts a new line.
    pub fn move_cursor(&mut self, column_position: usize)
        requires
            old(self)@.wf(),
            column_position <= ACTUAL_BUFFER_WIDTH,
        ensures
            final(self)@.wf(),
            final(self)@ == old(self)@.moved(column_position as nat),
    {
        proof {
            self.lemma_view();
        }
        self.invert_cursor_cell();
        let ghost plain = self.drawn();
        assert(plain == old(self)@.rows);
        if column_position == 0 {
            self.next_line();
            proof {
                lemma_shifted_shaped(plain, self.color_code);
                lemma_marked_twice(self.drawn(), 0);
            }
        } else {
            self.column_position = column_position;
            proof {
                lemma_marked_twice(plain, column_position as int);
            }
        }
        self.invert_cursor_cell();
        proof {
            self.lemma_view();
        }
    }

    /// Write one byte at the cursor; a newline, or any byte once the usable
    /// width is filled, starts a new line instead.
    pub fn write_byte(&mut self, byte: u8)
        requires
            old(self)@.wf(),
        ensures
            final(self)@.wf(),
            final(self)@ == old(self)@.put(byte),
    {
        proof {
            self.lemma_view();
        }
        if byte == NEWLINE || self.column_position >= ACTUAL_BUFFER_WIDTH {
            self.move_cursor(0);
            return;
        }
        self.move_cursor(self.column_position + 1);
        proof {
            self.lemma_view();
        }
        let ghost before = self.drawn();
        self.set_char(byte);
        proof {
            let c = Char { ascii_character: byte, color_code: self.color_code };
            let col = self.column_position as int;
            lemma_put_cell_shaped(before, col, c);
            lemma_marked_put_cell(before, col, col, c);
            self.lemma_view();
            assert(self@.rows == put_cell(marked(before, col), col, c));
        }
    }

    /// Fill every cell with a blank whose foreground and background are both
    /// `color`. The cursor column and the active color stay.
    pub fn clear_screen(&mut self, color: Color)
        requires
            old(self)@.wf(),
        ensures
            final(self)@.wf(),
            final(self)@ == old(self)@.cleared(ColorCode(pack(color.nibble(), color.nibble()))),
    {
        let blank = Char { ascii_character: SPACE, color_code: ColorCode::new(color, color) };
        let w = blank.to_word();
        proof {
            lemma_word_round_trip(blank);
        }
        let mut row: usize = 0;
        while row < BUFFER_HEIGHT
            invariant
                row <= BUFFER_HEIGHT,
                w == word_of(blank),
                self.column_position == old(self).column_position,
                self.color_code == old(self).color_code,
                forall|r: int, c: int| 0 <= r < row && 0 <= c < BUFFER_WIDTH ==> #[trigger] self.buffer[r][c] == w,
            decreases BUFFER_HEIGHT - row,
        {
            let mut col: usize = 0;
            while col < BUFFER_WIDTH
                invariant
                    row < BUFFER_HEIGHT,
                    col <= BUFFER_WIDTH,
                    self.column_position == old(self).column_position,
                    self.color_code == old(self).color_code,
                    forall|r: int, c: int| 0 <= r < row && 0 <= c < BUFFER_WIDTH ==> #[trigger] self.buffer[r][c] == w,
                    forall|c: int| 0 <= c < col ==> #[trigger] self.buffer[row as int][c] == w,
                decreases BUFFER_WIDTH - col,
            {
                self.buffer[row][col] = w;
                col = col + 1;
            }
            row = row + 1;
        }
        proof {
            let code = blank.color_code;
            super::color::lemma_invert_construct(color, color);
            assert forall|r: int| 0 <= r < BUFFER_HEIGHT implies #[trigger] self.drawn()[r] =~= blank_row(code) by {
                assert forall|c: int| 0 <= c < BUFFER_WIDTH implies #[trigger] self.drawn()[r][c] == blank_row(code)[c] by {
                    assert(self.buffer[r][c] == w);
                }
            }
            assert(self.drawn() =~= super::screen::blank_grid(code));
            super::screen::lemma_marked_blank(code, self.column_position as int);
            self.lemma_view();
        }
    }

    /// Write the bytes of `s` in order.
    pub fn write_string(&mut self, s: &str)
        requires
            old(self)@.wf(),
        ensures
            final(self)@.wf(),
            final(self)@ == old(self)@.put_all(s.spec_bytes()),
    {
        let bytes = s.as_bytes();
        let mut i: usize = 0;
        while i < bytes.len()
            invariant
                i <= bytes@.len(),
                bytes@ == s.spec_bytes(),
                self@.wf(),
                self@ == old(self)@.put_all(bytes@.take(i as int)),
            decreases bytes@.len() - i,
        {
            proof {
                assert(bytes@.take(i + 1).drop_last() =~= bytes@.take(i as int));
            }
            self.write_byte(bytes[i]);
            i = i + 1;
        }
        proof {
            assert(bytes@.take(i as int) =~= bytes@);
        }
    }

    /// Use `foreground` on `background` for the characters written from now
    /// on; cells already written keep their colors.
    pub fn set_color(&mut self, foreground: Color, background: Color)
        requires
            old(self)@.wf(),
        ensures
            final(self)@.wf(),
            final(self)@ == old(self)@.recolored(
                ColorCode(pack(foreground.nibble(), background.nibble())),
            ),
    {
        proof {
            self.lemma_view();
        }
        self.color_code = ColorCode::new(foreground, background);
        proof {
            self.lemma_view();
        }
    }

    /// Erase the character at the cursor and step back one column; nothing
    /// happens at column 0.
    pub fn backspace(&mut self)
        requires
            old(self)@.wf(),
        ensures
            final(self)@.wf(),
            final(self)@ == old(self)@.backspaced(),
    {
        proof {
            self.lemma_view();
        }
        if self.column_position == 0 {
            return;
        }
        let ghost before = self.drawn();
        self.set_char(SPACE);
        proof {
            let col = self.column_position as int;
            lemma_marked_put_cell(before, col, col, blank(self.color_code));
            self.lemma_view();
            assert(self@.rows == put_cell(old(self)@.rows, col, blank(self.color_code)));
        }
        self.move_cursor(self.column_position - 1);
    }

    /// Step the cursor back one column, leaving the cells as they are; nothing
    /// happens at column 0.
    pub fn cursor_back(&mut self)
        requires
            old(self)@.wf(),
        ensures
            final(self)@.wf(),
            final(self)@ == old(self)@.stepped_back(),
    {
        proof {
            self.lemma_view();
        }
        if self.column_position == 0 {
            return;
        }
        self.move_cursor(self.column_position - 1)
    }

    /// Step the cursor forward one column, leaving the cells as they are;
    /// nothing happens at the last usable column.
    pub fn cursor_front(&mut self)
        requires
            old(self)@.wf(),
        ensures
            final(self)@.wf(),
            final(self)@ == old(self)@.stepped_front(),
    {
        proof {
            self.lemma_view();
        }
        if self.column_position == ACTUAL_BUFFER_WIDTH {
            return;
        }
        self.move_cursor(self.column_position + 1)
    }

    /// Write each message in its own colors, in order, as one operation. The
    /// active color afterwards is that of the last message.
    pub fn write_colored(&mut self, messages: &[MessageToVga])
        requires
            old(self)@.wf(),
        ensures
            final(self)@.wf(),
            final(self)@ == after_messages(old(self)@, messages@),
    {
        let mut i: usize = 0;
        while i < messages.len()
            invariant
                i <= messages@.len(),
                self@.wf(),
                self@ == after_messages(old(self)@, messages@.take(i as int)),
            decreases messages@.len() - i,
        {
            proof {
                assert(messages@.take(i + 1).drop_last() =~= messages@.take(i as int));
            }
            let m = &messages[i];
            self.set_color(m.foreground, m.background);
            self.write_string(m.text);
            i = i + 1;
        }
        proof {
            assert(messages@.take(i as int) =~= messages@);
        }
    }
}

/// A piece of text with the colors to draw it in.
pub struct MessageToVga<'a> {
    pub foreground: Color,
    pub background: Color,
    pub text: &'a str,
}

impl<'a> MessageToVga<'a> {
    pub fn new(foreground: Color, background: Color, text: &'a str) -> (r: MessageToVga<'a>)
        ensures
            r.foreground == foreground,
            r.background == background,
            r.text == text,
    {
        MessageToVga { foreground, background, text }
    }
}

/// The screen after each message's colors are made active and its text is
/// written, in order.
pub open spec fn after_messages(s: TextScreen, messages: Seq<MessageToVga>) -> TextScreen
    decreases messages.len(),
{
    if messages.len() == 0 {
        s
    } else {
        let m = messages.last();
        after_messages(s, messages.drop_last()).recolored(
            ColorCode(pack(m.foreground.nibble(), m.background.nibble())),
        ).put_all(m.text.spec_bytes())
    }
}

} // verus!
