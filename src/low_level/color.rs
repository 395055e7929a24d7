use vstd::prelude::*;

verus! {

/// One of the sixteen entries of the text-mode hardware palette.
#[derive(Debug, Clone, Copy, PartialEq, Eq, Structural)]
pub enum Color {
    Black,
    Blue,
    Green,
    Cyan,
    Red,
    Magenta,
    Brown,
    LighGrey,
    DarkGrey,
    LightBlue,
    LightGreen,
    LightCyan,
    LightRed,
    LightMagenta,
    Yellow,
    White,
}

impl Color {
    /// The 4-bit hardware number of this palette entry.
    pub open spec fn nibble(self) -> u8 {
        match self {
            Color::Black => 0,
            Color::Blue => 1,
            Color::Green => 2,
            Color::Cyan => 3,
            Color::Red => 4,
            Color::Magenta => 5,
            Color::Brown => 6,
            Color::LighGrey => 7,
            Color::DarkGrey => 8,
            Color::LightBlue => 9,
            Color::LightGreen => 10,
            Color::LightCyan => 11,
            Color::LightRed => 12,
            Color::LightMagenta => 13,
            Color::Yellow => 14,
            Color::White => 15,
        }
    }

    pub fn value(self) -> (r: u8)
        ensures
            r == self.nibble(),
            r < 16,
    {
        match self {
            Color::Black => 0,
            Color::Blue => 1,
            Color::Green => 2,
            Color::Cyan => 3,
            Color::Red => 4,
            Color::Magenta => 5,
            Color::Brown => 6,
            Color::LighGrey => 7,
            Color::DarkGrey => 8,
            Color::LightBlue => 9,
            Color::LightGreen => 10,
            Color::LightCyan => 11,
            Color::LightRed => 12,
            Color::LightMagenta => 13,
            Color::Yellow => 14,
            Color::White => 15,
        }
    }
}

/// The packed color byte of a cell: background in the high nibble,
/// foreground in the low nibble.
#[derive(Debug, Clone, Copy, PartialEq, Eq, Structural)]
pub struct ColorCode(pub u8);

/// The byte that packs a foreground and a background nibble.
pub open spec fn pack(foreground: u8, background: u8) -> u8 {
    (background * 16 + foreground) as u8
}

impl ColorCode {
    pub open spec fn foreground(self) -> u8 {
        self.0 % 16
    }

    pub open spec fn background(self) -> u8 {
        self.0 / 16
    }

    /// The same code with its two halves swapped.
    pub open spec fn swapped(self) -> ColorCode {
        ColorCode(pack(self.background(), self.foreground()))
    }

    pub fn new(foreground: Color, background: Color) -> (r: ColorCode)
        ensures
            r.0 == pack(foreground.nibble(), background.nibble()),
            r.foreground() == foreground.nibble(),
            r.background() == background.nibble(),
    {
        Self::generate(foreground.value(), background.value())
    }

    pub fn generate(foreground: u8, background: u8) -> (r: ColorCode)
        requires
            foreground < 16,
            background < 16,
        ensures
            r.0 == pack(foreground, background),
            r.foreground() == foreground,
            r.background() == background,
    {
        ColorCode(background * 16 + foreground)
    }

    /// The (foreground, background) nibbles of this code.
    pub fn get_colors(&self) -> (r: (u8, u8))
        ensures
            r == (self.foreground(), self.background()),
            r.0 < 16,
            r.1 < 16,
    {
        (self.0 % 16, self.0 / 16)
    }

    pub fn invert(&mut self)
        ensures
            *final(self) == old(self).swapped(),
    {
        let colors = self.get_colors();
        *self = Self::generate(colors.1, colors.0);
    }
}

/// Swapping the halves of a code twice gives the code back.
pub proof fn lemma_swapped_twice(code: ColorCode)
    ensures
        code.swapped().swapped() == code,
{
    assert(code.swapped().swapped().0 == code.0);
}

/// Taking apart the code built from two colors gives back those colors.
pub proof fn lemma_decompose_construct(foreground: Color, background: Color)
    ensures
        ({
            let code = ColorCode(pack(foreground.nibble(), background.nibble()));
            (code.foreground(), code.background()) == (foreground.nibble(), background.nibble())
        }),
{
}

/// Swapping the halves of the code built from two colors gives the code of
/// the two colors swapped, and swapping twice gives the code back.
pub proof fn lemma_invert_construct(foreground: Color, background: Color)
    ensures
        ColorCode(pack(foreground.nibble(), background.nibble())).swapped() == ColorCode(
            pack(background.nibble(), foreground.nibble()),
        ),
        ColorCode(pack(foreground.nibble(), background.nibble())).swapped().swapped()
            == ColorCode(pack(foreground.nibble(), background.nibble())),
{
    lemma_swapped_twice(ColorCode(pack(foreground.nibble(), background.nibble())));
}

/// One cell of the display grid: a character byte and its color code.
#[derive(Debug, Clone, Copy, PartialEq, Eq, Structural)]
pub struct Char {
    pub ascii_character: u8,
    pub color_code: ColorCode,
}

/// The 16-bit memory word of a cell: character byte low, color byte high.
pub open spec fn word_of(c: Char) -> u16 {
    (c.color_code.0 as int * 256 + c.ascii_character as int) as u16
}

/// The cell held by a 16-bit memory word.
pub open spec fn char_of_word(w: u16) -> Char {
    Char { ascii_character: (w % 256) as u8, color_code: ColorCode((w / 256) as u8) }
}

impl Char {
    /// The same cell with the halves of its color code swapped.
    pub open spec fn inverted(self) -> Char {
        Char { color_code: self.color_code.swapped(), ..self }
    }

    pub fn new(ascii_character: u8, color_code: ColorCode) -> (r: Char)
        ensures
            r == (Char { ascii_character, color_code }),
    {
        Char { ascii_character, color_code }
    }

    pub fn invert_colors(&mut self)
        ensures
            *final(self) == old(self).inverted(),
    {
        self.color_code.invert();
    }

    /// The memory word that stores this cell.
    pub fn to_word(&self) -> (r: u16)
        ensures
            r == word_of(*self),
    {
        (self.color_code.0 as u16) * 256 + (self.ascii_character as u16)
    }

    /// The cell stored in a memory word.
    pub fn from_word(w: u16) -> (r: Char)
        ensures
            r == char_of_word(w),
    {
        Char { ascii_character: (w % 256) as u8, color_code: ColorCode((w / 256) as u8) }
    }
}

/// Storing a cell in a word and reading it back gives the cell.
pub proof fn lemma_word_round_trip(c: Char)
    ensures
        char_of_word(word_of(c)) == c,
{
    let w = word_of(c);
    let hi = c.color_code.0 as int;
    let lo = c.ascii_character as int;
    assert(w as int == hi * 256 + lo);
    assert((hi * 256 + lo) % 256 == lo && (hi * 256 + lo) / 256 == hi) by (nonlinear_arith)
        requires
            0 <= lo < 256,
            0 <= hi,
    ;
}

/// Swapping a cell's colors twice gives the cell back.
pub proof fn lemma_inverted_twice(c: Char)
    ensures
        c.inverted().inverted() == c,
{
    lemma_swapped_twice(c.color_code);
}

} // verus!
