//! The board as lines of text, one character per cell, framed by a border.

use crate::grid::{GridType, ItemType};
use std::string::FromUtf8Error;
use string_builder::Builder;
use vstd::prelude::*;
use vstd::utf8::{
    encode_utf8, encode_utf8_decode_utf8, encode_utf8_valid_utf8, is_ascii_chars,
    is_ascii_chars_encode_utf8, valid_utf8,
};

verus! {

/// The text builder `string_builder::Builder`, a growing buffer of bytes.
/// Nothing is known of what is inside but what the functions below say.
#[verifier::external_type_specification]
#[verifier::external_body]
pub struct ExBuilder(string_builder::Builder);

/// The error `std::string::FromUtf8Error` of a conversion from bytes that
/// are no UTF-8 to a `String`. It is passed on and never looked into.
#[verifier::external_type_specification]
#[verifier::external_body]
pub struct ExFromUtf8Error(std::string::FromUtf8Error);

/// The bytes that a builder has collected, in the order in which they were
/// appended. The three functions below say all that is assumed of them.
pub uninterp spec fn builder_bytes(b: Builder) -> Seq<u8>;

/// Calls `string_builder::Builder::new`. Assumed, not proved: the new
/// builder holds no bytes. `size` is the number of bytes for which room is
/// made in advance; the allocation behind the call panics if that number
/// exceeds `isize::MAX`, so such a size is ruled out.
#[verifier::external_body]
fn builder_new(size: usize) -> (b: Builder)
    requires
        size <= isize::MAX,
    ensures
        builder_bytes(b) == Seq::<u8>::empty(),
{
    Builder::new(size)
}

/// Calls `string_builder::Builder::append` with a string slice. Assumed,
/// not proved: the bytes of the slice, which are the UTF-8 encoding of its
/// characters, are put behind the bytes that the builder holds. The buffer
/// of the builder panics when it is to grow beyond `isize::MAX` bytes, so
/// such an append is ruled out.
#[verifier::external_body]
fn builder_append(b: &mut Builder, text: &str)
    requires
        builder_bytes(*old(b)).len() + encode_utf8(text@).len() <= isize::MAX,
    ensures
        builder_bytes(*final(b)) == builder_bytes(*old(b)) + encode_utf8(text@),
{
    b.append(text)
}

/// Calls `string_builder::Builder::string`, which hands the bytes to
/// `String::from_utf8`. Assumed, not proved: the result is a `String` that
/// holds exactly the collected bytes if these are valid UTF-8, and an error
/// if they are not.
#[verifier::external_body]
fn builder_string(b: Builder) -> (r: Result<String, FromUtf8Error>)
    ensures
        r is Ok <==> valid_utf8(builder_bytes(b)),
        r matches Ok(s) ==> encode_utf8(s@) == builder_bytes(b),
{
    b.string()
}

/// The character that stands for a cell in the text.
pub open spec fn glyph(item: ItemType) -> char {
    match item {
        ItemType::Nothing => ' ',
        ItemType::Food => 'O',
        ItemType::SnakeBit => 'S',
        ItemType::SnakeHead => '%',
        ItemType::SnakeTail => '*',
    }
}

/// The line of text for one row of cells: the glyphs of its cells between
/// two bars.
pub open spec fn row_text(row: Seq<ItemType>) -> Seq<char> {
    seq!['|'] + Seq::new(row.len(), |i: int| glyph(row[i])) + seq!['|']
}

/// The line of text above and below a board `width` cells wide: that many
/// dashes between two plus signs.
pub open spec fn border_text(width: int) -> Seq<char> {
    seq!['+'] + Seq::new(width as nat, |i: int| '-') + seq!['+']
}

/// The encoding of a text followed by the encoding of another is the
/// encoding of the two texts joined.
pub proof fn lemma_encode_joined(first: Seq<char>, second: Seq<char>)
    ensures
        encode_utf8(first + second) == encode_utf8(first) + encode_utf8(second),
    decreases first.len(),
{
    if first.len() == 0 {
        assert(first + second =~= second);
        assert(encode_utf8(first) =~= Seq::<u8>::empty());
        assert(encode_utf8(first) + encode_utf8(second) =~= encode_utf8(second));
    } else {
        assert((first + second).drop_first() =~= first.drop_first() + second);
        lemma_encode_joined(first.drop_first(), second);
        assert(encode_utf8(first + second) =~= encode_utf8(first) + encode_utf8(second));
    }
}

/// Text collected piece by piece: a builder together with the characters
/// that its bytes encode.
struct Line {
    builder: Builder,
    text: Ghost<Seq<char>>,
}

impl Line {
    /// The builder holds the encoding of the text, all of it ASCII.
    spec fn wf(&self) -> bool {
        &&& builder_bytes(self.builder) == encode_utf8(self.text@)
        &&& is_ascii_chars(self.text@)
    }

    /// An empty line with room for `size` characters.
    fn new(size: usize) -> (line: Line)
        requires
            size <= isize::MAX,
        ensures
            line.wf(),
            line.text@ == Seq::<char>::empty(),
    {
        let line = Line { builder: builder_new(size), text: Ghost(Seq::empty()) };
        assert(encode_utf8(Seq::<char>::empty()) =~= Seq::<u8>::empty());
        line
    }

    /// Puts the one ASCII character of `piece` at the end of the line.
    fn push(&mut self, piece: &str)
        requires
            old(self).wf(),
            piece@.len() == 1,
            is_ascii_chars(piece@),
            old(self).text@.len() < isize::MAX,
        ensures
            final(self).wf(),
            final(self).text@ == old(self).text@ + piece@,
    {
        proof {
            is_ascii_chars_encode_utf8(self.text@);
            is_ascii_chars_encode_utf8(piece@);
            lemma_encode_joined(self.text@, piece@);
        }
        builder_append(&mut self.builder, piece);
        self.text = Ghost(self.text@ + piece@);
    }

    /// The collected text.
    fn finish(self) -> (s: String)
        requires
            self.wf(),
        ensures
            s@ == self.text@,
    {
        proof {
            encode_utf8_valid_utf8(self.text@);
        }
        let ghost text = self.text@;
        match builder_string(self.builder) {
            Ok(s) => {
                proof {
                    encode_utf8_decode_utf8(s@);
                    encode_utf8_decode_utf8(text);
                }
                s
            },
            Err(_) => String::new(),
        }
    }
}

/// The piece of text that stands for a cell.
pub fn glyph_of(item: &ItemType) -> (r: &'static str)
    ensures
        r@ == seq![glyph(*item)],
{
    proof {
        reveal_strlit(" ");
        reveal_strlit("O");
        reveal_strlit("S");
        reveal_strlit("%");
        reveal_strlit("*");
    }
    match item {
        ItemType::Nothing => " ",
        ItemType::Food => "O",
        ItemType::SnakeBit => "S",
        ItemType::SnakeHead => "%",
        ItemType::SnakeTail => "*",
    }
}

/// The line of text for one row of cells.
pub fn render_row(row: &Vec<ItemType>) -> (s: String)
    requires
        row@.len() + 2 <= isize::MAX,
    ensures
        s@ == row_text(row@),
{
    proof {
        reveal_strlit("|");
    }
    let mut line = Line::new(row.len() + 2);
    line.push("|");
    assert(line.text@ =~= seq!['|'] + Seq::new(0, |i: int| glyph(row@[i])));
    let mut k: usize = 0;
    while k < row.len()
        invariant
            k <= row@.len(),
            row@.len() + 2 <= isize::MAX,
            line.wf(),
            line.text@ == seq!['|'] + Seq::new(k as nat, |i: int| glyph(row@[i])),
        decreases row@.len() - k,
    {
        let piece = glyph_of(&row[k]);
        line.push(piece);
        assert(line.text@ =~= seq!['|'] + Seq::new((k + 1) as nat, |i: int| glyph(row@[i])));
        k = k + 1;
    }
    line.push("|");
    line.finish()
}

/// The line of text above and below a board `width` cells wide.
pub fn render_border(width: usize) -> (s: String)
    requires
        width + 2 <= isize::MAX,
    ensures
        s@ == border_text(width as int),
{
    proof {
        reveal_strlit("+");
        reveal_strlit("-");
    }
    let mut line = Line::new(width + 2);
    line.push("+");
    assert(line.text@ =~= seq!['+'] + Seq::new(0, |i: int| '-'));
    let mut k: usize = 0;
    while k < width
        invariant
            k <= width,
            width + 2 <= isize::MAX,
            line.wf(),
            line.text@ == seq!['+'] + Seq::new(k as nat, |i: int| '-'),
        decreases width - k,
    {
        proof {
            reveal_strlit("-");
        }
        line.push("-");
        assert(line.text@ =~= seq!['+'] + Seq::new((k + 1) as nat, |i: int| '-'));
        k = k + 1;
    }
    line.push("+");
    line.finish()
}

/// The board as lines of text, from the top: a border, one line per row of
/// cells, and a border.
pub fn render(world: &GridType, width: usize) -> (lines: Vec<String>)
    requires
        width + 2 <= isize::MAX,
        world@.len() + 2 <= usize::MAX,
        forall|r: int| 0 <= r < world@.len() ==> (#[trigger] world@[r])@.len() == width,
    ensures
        lines@.len() == world@.len() + 2,
        lines@[0]@ == border_text(width as int),
        lines@[world@.len() as int + 1]@ == border_text(width as int),
        forall|k: int|
            1 <= k <= world@.len() ==> (#[trigger] lines@[k])@ == row_text(world@[k - 1]@),
{
    let mut lines: Vec<String> = Vec::new();
    lines.push(render_border(width));
    let mut r: usize = 0;
    while r < world.len()
        invariant
            r <= world@.len(),
            width + 2 <= isize::MAX,
            forall|i: int| 0 <= i < world@.len() ==> (#[trigger] world@[i])@.len() == width,
            lines@.len() == r + 1,
            lines@[0]@ == border_text(width as int),
            forall|k: int| 1 <= k <= r ==> (#[trigger] lines@[k])@ == row_text(world@[k - 1]@),
        decreases world@.len() - r,
    {
        lines.push(render_row(&world[r]));
        r = r + 1;
    }
    lines.push(render_border(width));
    lines
}

} // verus!
