//! Glyphs: turning brightness into the characters of a ramp, laid out in lines.
//!
//! A ramp is an ordered row of characters that runs from one end of the
//! brightness scale to the other. Brightness 0 takes the first glyph, 255 the
//! last, and the values between are dealt out evenly and in order. The text
//! of a frame has one line per row of the picture, a single line break
//! between two lines and none after the last.

use vstd::prelude::*;
use vstd::string::*;
use crate::arith::{lemma_floor_monotonic, lemma_floor_unique};
use crate::buffer::{lemma_cell_index, GrayBuffer};

verus! {

/// The character that separates two lines of a frame.
pub const LINE_BREAK: char = '\n';

/// What makes a row of characters a ramp: at least two glyphs, none of them
/// the line break.
pub open spec fn is_ramp(glyphs: Seq<char>) -> bool {
    &&& glyphs.len() >= 2
    &&& forall|i: int| 0 <= i < glyphs.len() ==> glyphs[i] != LINE_BREAK
}

/// An ordered row of glyphs, from one end of the brightness scale to the other.
#[derive(Debug, PartialEq, Eq)]
pub struct CharacterRamp {
    glyphs: Vec<char>,
}

impl View for CharacterRamp {
    type V = Seq<char>;

    /// The glyphs in order.
    closed spec fn view(&self) -> Seq<char> {
        self.glyphs@
    }
}

impl CharacterRamp {
    #[verifier::type_invariant]
    spec fn valid(&self) -> bool {
        is_ramp(self.glyphs@)
    }

    /// Makes a ramp of the given glyphs, if they are at least two and none
    /// is the line break.
    pub fn new(glyphs: Vec<char>) -> (made: Option<CharacterRamp>)
        ensures
            made is Some <==> is_ramp(glyphs@),
            made matches Some(ramp) ==> ramp@ == glyphs@,
    {
        if glyphs.len() < 2 {
            return None;
        }
        let mut i: usize = 0;
        while i < glyphs.len()
            invariant
                i <= glyphs@.len(),
                forall|k: int| 0 <= k < i ==> glyphs@[k] != LINE_BREAK,
            decreases glyphs@.len() - i,
        {
            if glyphs[i] == LINE_BREAK {
                return None;
            }
            i += 1;
        }
        Some(CharacterRamp { glyphs })
    }

    /// Makes a ramp of the characters of a text, under the same conditions.
    pub fn from_text(text: &str) -> (made: Option<CharacterRamp>)
        ensures
            made is Some <==> is_ramp(text@),
            made matches Some(ramp) ==> ramp@ == text@,
    {
        let count = text.unicode_len();
        let mut glyphs: Vec<char> = Vec::new();
        let mut i: usize = 0;
        while i < count
            invariant
                i <= count,
                count == text@.len(),
                glyphs@ == text@.take(i as int),
            decreases count - i,
        {
            glyphs.push(text.get_char(i));
            proof {
                assert(text@.take(i + 1) =~= text@.take(i as int).push(text@[i as int]));
            }
            i += 1;
        }
        proof {
            assert(text@.take(count as int) =~= text@);
        }
        CharacterRamp::new(glyphs)
    }

    /// The short ramp of twelve glyphs, `#BRD!*+=-:. `, for plain terminals.
    pub fn compact() -> (ramp: CharacterRamp)
        ensures
            ramp@ == "#BRD!*+=-:. "@,
            ramp@.len() == 12,
    {
        proof {
            reveal_strlit("#BRD!*+=-:. ");
        }
        CharacterRamp::from_text("#BRD!*+=-:. ").unwrap()
    }

    /// The long ramp of fifty-six glyphs, for fine gradations.
    pub fn detailed() -> (ramp: CharacterRamp)
        ensures
            ramp@ == "@#WM&8%B$0QOZCLJUYXzcvunxrjft/\\|()1{}[]?-_+~<>i!lI;:,^. "@,
            ramp@.len() == 56,
    {
        proof {
            reveal_strlit("@#WM&8%B$0QOZCLJUYXzcvunxrjft/\\|()1{}[]?-_+~<>i!lI;:,^. ");
        }
        CharacterRamp::from_text(
            "@#WM&8%B$0QOZCLJUYXzcvunxrjft/\\|()1{}[]?-_+~<>i!lI;:,^. ",
        ).unwrap()
    }

    /// Number of glyphs.
    pub fn len(&self) -> (n: usize)
        ensures
            n == self@.len(),
            is_ramp(self@),
    {
        proof {
            use_type_invariant(self);
        }
        self.glyphs.len()
    }

    /// The glyph at a position of the ramp.
    pub fn glyph(&self, index: usize) -> (c: char)
        requires
            index < self@.len(),
        ensures
            c == self@[index as int],
            c != LINE_BREAK,
    {
        proof {
            use_type_invariant(self);
        }
        self.glyphs[index]
    }

    /// The glyphs in order.
    pub fn as_glyphs(&self) -> (glyphs: &Vec<char>)
        ensures
            glyphs@ == self@,
            is_ramp(self@),
    {
        proof {
            use_type_invariant(self);
        }
        &self.glyphs
    }
}

/// The position in a ramp of `steps` glyphs that a brightness falls on:
/// `intensity * (steps - 1) / 255`, rounded down. It never leaves the ramp,
/// so nothing has to be cut off at its ends.
pub open spec fn spec_glyph_index(intensity: u8, steps: int) -> int {
    (intensity * (steps - 1)) / 255
}

/// The glyph of each brightness sample, in place.
pub open spec fn spec_glyphs(gray: Seq<u8>, ramp: Seq<char>) -> Seq<char> {
    Seq::new(gray.len(), |i: int| ramp[spec_glyph_index(gray[i], ramp.len() as int)])
}

/// Row `row` of a sequence that holds rows of `width` items one after another.
pub open spec fn spec_row(glyphs: Seq<char>, width: int, row: int) -> Seq<char> {
    glyphs.subrange(row * width, row * width + width)
}

/// A sequence cut into `height` rows of `width` items.
pub open spec fn spec_rows(glyphs: Seq<char>, width: int, height: int) -> Seq<Seq<char>> {
    Seq::new(height as nat, |row: int| spec_row(glyphs, width, row))
}

/// Lines joined into one text: a line break between two lines, none at the end.
pub open spec fn spec_join(lines: Seq<Seq<char>>) -> Seq<char>
    decreases lines.len(),
{
    if lines.len() == 0 {
        Seq::empty()
    } else if lines.len() == 1 {
        lines[0]
    } else {
        spec_join(lines.drop_last()) + seq![LINE_BREAK] + lines.last()
    }
}

/// A text cut at its line breaks. A text without a line break is one line,
/// the empty text too; each line break ends a line and starts the next.
pub open spec fn spec_lines(text: Seq<char>) -> Seq<Seq<char>>
    decreases text.len(),
{
    if text.len() == 0 {
        seq![Seq::empty()]
    } else {
        let before = spec_lines(text.drop_last());
        if text.last() == LINE_BREAK {
            before.push(Seq::empty())
        } else {
            before.drop_last().push(before.last().push(text.last()))
        }
    }
}

/// The text of a frame: the glyphs of a brightness map of the given
/// dimensions, one line per row.
pub open spec fn spec_frame_text(gray: Seq<u8>, width: int, height: int, ramp: Seq<char>) -> Seq<
    char,
> {
    spec_join(spec_rows(spec_glyphs(gray, ramp), width, height))
}

/// Finds the position in a ramp of `steps` glyphs that a brightness falls on.
pub fn glyph_index(intensity: u8, steps: usize) -> (index: usize)
    requires
        steps >= 1,
    ensures
        index == spec_glyph_index(intensity, steps as int),
        index < steps,
{
    proof {
        lemma_glyph_index_in_range(intensity, steps as int);
    }
    assert(intensity * (steps - 1) <= 255 * (steps - 1)) by (nonlinear_arith)
        requires
            0 <= intensity <= 255,
            steps >= 1,
    ;
    let scaled: u128 = (intensity as u128) * ((steps - 1) as u128);
    (scaled / 255) as usize
}

/// Maps every brightness sample to its glyph, in the order of the samples and
/// without line breaks.
pub fn pixels_to_ascii(image: &GrayBuffer, ramp: &CharacterRamp) -> (text: String)
    ensures
        text@ == spec_glyphs(image@, ramp@),
        is_ramp(ramp@),
{
    let samples = image.as_raw();
    let total = samples.len();
    let steps = ramp.len();
    let mut text = String::new();
    let mut i: usize = 0;
    while i < total
        invariant
            i <= total,
            total == samples@.len(),
            samples@ == image@,
            steps == ramp@.len(),
            steps >= 2,
            text@ == spec_glyphs(image@, ramp@).take(i as int),
        decreases total - i,
    {
        let index = glyph_index(samples[i], steps);
        text.push(ramp.glyph(index));
        proof {
            let all = spec_glyphs(image@, ramp@);
            assert(all.take(i + 1) =~= all.take(i as int).push(all[i as int]));
        }
        i += 1;
    }
    proof {
        let all = spec_glyphs(image@, ramp@);
        assert(all.take(total as int) =~= all);
    }
    text
}

/// Writes a brightness map as the text of a frame.
///
/// Each sample becomes the glyph of its brightness. The glyphs stand in the
/// order of the samples, row by row, top to bottom and left to right; a
/// single line break parts two rows, and none follows the last.
pub fn to_glyphs(image: &GrayBuffer, ramp: &CharacterRamp) -> (text: String)
    ensures
        text@ == spec_frame_text(
            image@,
            image.spec_width() as int,
            image.spec_height() as int,
            ramp@,
        ),
        is_ramp(ramp@),
{
    let samples = image.as_raw();
    let total = samples.len();
    let width = image.width();
    let height = image.height();
    let steps = ramp.len();
    let ghost glyphs = spec_glyphs(image@, ramp@);
    let ghost rows = spec_rows(glyphs, width as int, height as int);
    let mut text = String::new();
    let mut next: usize = 0;
    let mut row: u32 = 0;
    proof {
        assert(rows.take(0) =~= Seq::<Seq<char>>::empty());
        assert(0 * width == 0) by (nonlinear_arith);
    }
    while row < height
        invariant
            row <= height,
            width == image.spec_width(),
            height == image.spec_height(),
            samples@ == image@,
            samples@.len() == width * height,
            total == samples@.len(),
            steps == ramp@.len(),
            steps >= 2,
            glyphs == spec_glyphs(image@, ramp@),
            rows == spec_rows(glyphs, width as int, height as int),
            next == row * width,
            text@ == spec_join(rows.take(row as int)),
        decreases height - row,
    {
        if row > 0 {
            text.push(LINE_BREAK);
        }
        let ghost head = text@;
        let mut column: u32 = 0;
        proof {
            assert(rows[row as int].take(0) =~= Seq::<char>::empty());
            assert(head + rows[row as int].take(0) =~= head);
        }
        while column < width
            invariant
                column <= width,
                row < height,
                width == image.spec_width(),
                height == image.spec_height(),
                samples@ == image@,
                samples@.len() == width * height,
            total == samples@.len(),
                steps == ramp@.len(),
                steps >= 2,
                glyphs == spec_glyphs(image@, ramp@),
                rows == spec_rows(glyphs, width as int, height as int),
                next == row * width + column,
                text@ == head + rows[row as int].take(column as int),
            decreases width - column,
        {
            proof {
                lemma_cell_index(column as int, row as int, width as int, height as int);
            }
            let index = glyph_index(samples[next], steps);
            text.push(ramp.glyph(index));
            proof {
                let line = rows[row as int];
                lemma_row_bounds(row as int, width as int, height as int);
                assert(line[column as int] == glyphs[row * width + column]);
                assert(line.take(column + 1) =~= line.take(column as int).push(
                    line[column as int],
                ));
                assert(text@ =~= head + line.take(column + 1));
            }
            next += 1;
            column += 1;
        }
        proof {
            let line = rows[row as int];
            let shown = rows.take(row + 1);
            assert(line.len() == width) by {
                lemma_row_bounds(row as int, width as int, height as int);
            }
            assert(line.take(width as int) =~= line);
            assert(shown.last() == line);
            assert(shown.drop_last() =~= rows.take(row as int));
            assert((row + 1) * width == row * width + width) by (nonlinear_arith);
        }
        row += 1;
    }
    proof {
        assert(rows.take(height as int) =~= rows);
    }
    text
}

/// Every brightness falls on a position of the ramp.
pub proof fn lemma_glyph_index_in_range(intensity: u8, steps: int)
    requires
        steps >= 1,
    ensures
        0 <= spec_glyph_index(intensity, steps) <= steps - 1,
{
    assert(0 <= intensity * (steps - 1) <= 255 * (steps - 1)) by (nonlinear_arith)
        requires
            0 <= intensity <= 255,
            steps >= 1,
    ;
    lemma_floor_monotonic(0, intensity * (steps - 1), 255);
    lemma_floor_monotonic(intensity * (steps - 1), 255 * (steps - 1), 255);
    lemma_floor_unique(255 * (steps - 1), 255, steps - 1);
}

/// The ends of the scale take the ends of the ramp: brightness 0 falls on the
/// first position and brightness 255 on the last.
pub proof fn lemma_glyph_index_ends(steps: int)
    requires
        steps >= 1,
    ensures
        spec_glyph_index(0, steps) == 0,
        spec_glyph_index(255, steps) == steps - 1,
{
    assert(0 * (steps - 1) == 0) by (nonlinear_arith);
    lemma_floor_unique(255 * (steps - 1), 255, steps - 1);
}

/// The mapping never runs backwards: a brighter sample falls on the same
/// position of the ramp or on a later one.
pub proof fn lemma_glyph_index_keeps_order(darker: u8, brighter: u8, steps: int)
    requires
        steps >= 1,
        darker <= brighter,
    ensures
        spec_glyph_index(darker, steps) <= spec_glyph_index(brighter, steps),
{
    assert(darker * (steps - 1) <= brighter * (steps - 1)) by (nonlinear_arith)
        requires
            darker <= brighter,
            steps >= 1,
    ;
    lemma_floor_monotonic(darker * (steps - 1), brighter * (steps - 1), 255);
}

/// The brightness values that share a position of the ramp form one unbroken
/// stretch of the scale.
pub proof fn lemma_glyph_buckets_are_unbroken(low: u8, middle: u8, high: u8, steps: int)
    requires
        steps >= 1,
        low <= middle <= high,
        spec_glyph_index(low, steps) == spec_glyph_index(high, steps),
    ensures
        spec_glyph_index(middle, steps) == spec_glyph_index(low, steps),
{
    lemma_glyph_index_keeps_order(low, middle, steps);
    lemma_glyph_index_keeps_order(middle, high, steps);
}

/// Every glyph that is written is a glyph of the ramp; a sample of brightness
/// 0 is written as the first glyph of the ramp and one of brightness 255 as
/// the last.
pub proof fn lemma_glyphs_come_from_ramp(gray: Seq<u8>, ramp: Seq<char>, i: int)
    requires
        ramp.len() >= 1,
        0 <= i < gray.len(),
    ensures
        spec_glyphs(gray, ramp).len() == gray.len(),
        ramp.contains(spec_glyphs(gray, ramp)[i]),
        gray[i] == 0 ==> spec_glyphs(gray, ramp)[i] == ramp[0],
        gray[i] == 255 ==> spec_glyphs(gray, ramp)[i] == ramp[ramp.len() - 1],
{
    lemma_glyph_index_in_range(gray[i], ramp.len() as int);
    lemma_glyph_index_ends(ramp.len() as int);
}

/// Appending characters that are no line breaks to a text lengthens its last
/// line and changes no other.
pub proof fn lemma_lines_extend(text: Seq<char>, tail: Seq<char>)
    requires
        forall|i: int| 0 <= i < tail.len() ==> tail[i] != LINE_BREAK,
    ensures
        spec_lines(text).len() >= 1,
        spec_lines(text + tail) == spec_lines(text).drop_last().push(
            spec_lines(text).last() + tail,
        ),
    decreases tail.len(),
{
    lemma_lines_not_empty(text);
    let lines = spec_lines(text);
    if tail.len() == 0 {
        assert(text + tail =~= text);
        assert(lines.last() + tail =~= lines.last());
        assert(lines.drop_last().push(lines.last()) =~= lines);
    } else {
        let shorter = tail.drop_last();
        lemma_lines_extend(text, shorter);
        let whole = text + tail;
        assert(whole.drop_last() =~= text + shorter);
        assert(whole.last() == tail.last());
        let before = spec_lines(text + shorter);
        assert(before.last() == lines.last() + shorter);
        assert(before.drop_last() =~= lines.drop_last());
        assert((lines.last() + shorter).push(tail.last()) =~= lines.last() + tail);
    }
}

/// Every text has at least one line.
pub proof fn lemma_lines_not_empty(text: Seq<char>)
    ensures
        spec_lines(text).len() >= 1,
    decreases text.len(),
{
    if text.len() > 0 {
        lemma_lines_not_empty(text.drop_last());
    }
}

/// Cutting a joined text at its line breaks gives the lines back, if there is
/// at least one line and no line holds a line break.
pub proof fn lemma_lines_of_join(lines: Seq<Seq<char>>)
    requires
        lines.len() >= 1,
        forall|r: int, i: int|
            0 <= r < lines.len() && 0 <= i < lines[r].len() ==> (#[trigger] lines[r][i])
                != LINE_BREAK,
    ensures
        spec_lines(spec_join(lines)) == lines,
    decreases lines.len(),
{
    let last = lines.last();
    assert forall|i: int| 0 <= i < last.len() implies last[i] != LINE_BREAK by {
        assert(lines[lines.len() - 1][i] != LINE_BREAK);
    }
    if lines.len() == 1 {
        let nothing = Seq::<char>::empty();
        lemma_lines_extend(nothing, last);
        assert(nothing + last =~= last);
        assert(spec_lines(nothing) =~= seq![nothing]);
        assert(spec_lines(last) =~= lines);
    } else {
        let front = lines.drop_last();
        assert forall|r: int, i: int|
            0 <= r < front.len() && 0 <= i < front[r].len() implies (#[trigger] front[r][i])
            != LINE_BREAK by {
            assert(lines[r][i] != LINE_BREAK);
        }
        lemma_lines_of_join(front);
        let broken = spec_join(front) + seq![LINE_BREAK];
        assert(broken.drop_last() =~= spec_join(front));
        assert(spec_lines(broken) == front.push(Seq::<char>::empty()));
        lemma_lines_extend(broken, last);
        assert(Seq::<char>::empty() + last =~= last);
        assert(front.push(Seq::<char>::empty()).drop_last() =~= front);
        assert(front.push(last) =~= lines);
    }
}

/// The text of a frame of `height >= 1` rows, cut at its line breaks, has
/// exactly `height` lines of exactly `width` glyphs each, and line `r` holds
/// the glyphs of row `r` of the brightness map.
pub proof fn lemma_frame_text_lines(gray: Seq<u8>, width: int, height: int, ramp: Seq<char>)
    requires
        is_ramp(ramp),
        width >= 0,
        height >= 1,
        gray.len() == width * height,
    ensures
        spec_lines(spec_frame_text(gray, width, height, ramp)).len() == height,
        forall|r: int|
            0 <= r < height ==> (#[trigger] spec_lines(
                spec_frame_text(gray, width, height, ramp),
            )[r]).len() == width,
        forall|r: int, x: int|
            0 <= r < height && 0 <= x < width ==> (#[trigger] spec_lines(
                spec_frame_text(gray, width, height, ramp),
            )[r][x]) == ramp[spec_glyph_index(gray[r * width + x], ramp.len() as int)],
{
    let glyphs = spec_glyphs(gray, ramp);
    let rows = spec_rows(glyphs, width, height);
    assert forall|r: int| 0 <= r < height implies (#[trigger] rows[r]).len() == width by {
        lemma_row_bounds(r, width, height);
    }
    assert forall|r: int, x: int| 0 <= r < height && 0 <= x < width implies (#[trigger] rows[r][x])
        == ramp[spec_glyph_index(gray[r * width + x], ramp.len() as int)] by {
        lemma_row_bounds(r, width, height);
    }
    assert forall|r: int, i: int| 0 <= r < rows.len() && 0 <= i < rows[r].len() implies (
    #[trigger] rows[r][i]) != LINE_BREAK by {
        lemma_row_bounds(r, width, height);
        lemma_glyph_index_in_range(gray[r * width + i], ramp.len() as int);
    }
    lemma_lines_of_join(rows);
}

/// Joined lines of one width are as long as their glyphs and the line breaks
/// between them.
pub proof fn lemma_join_length(lines: Seq<Seq<char>>, width: int)
    requires
        forall|r: int| 0 <= r < lines.len() ==> (#[trigger] lines[r]).len() == width,
    ensures
        lines.len() == 0 ==> spec_join(lines).len() == 0,
        lines.len() >= 1 ==> spec_join(lines).len() == lines.len() * width + lines.len() - 1,
    decreases lines.len(),
{
    if lines.len() == 1 {
        assert(1 * width == width) by (nonlinear_arith);
    } else if lines.len() >= 2 {
        let front = lines.drop_last();
        lemma_join_length(front, width);
        assert(lines.last().len() == width);
        assert(lines.len() * width == front.len() * width + width) by (nonlinear_arith)
            requires
                lines.len() == front.len() + 1,
        ;
    }
}

/// The text of a frame of `height >= 1` rows holds `width * height` glyphs
/// and `height - 1` line breaks; the text of a frame without rows is empty.
pub proof fn lemma_frame_text_length(gray: Seq<u8>, width: int, height: int, ramp: Seq<char>)
    requires
        width >= 0,
        height >= 0,
        gray.len() == width * height,
    ensures
        height == 0 ==> spec_frame_text(gray, width, height, ramp).len() == 0,
        height >= 1 ==> spec_frame_text(gray, width, height, ramp).len() == width * height
            + height - 1,
{
    let rows = spec_rows(spec_glyphs(gray, ramp), width, height);
    assert forall|r: int| 0 <= r < rows.len() implies (#[trigger] rows[r]).len() == width by {
        lemma_row_bounds(r, width, height);
    }
    lemma_join_length(rows, width);
    assert(rows.len() * width == width * height) by (nonlinear_arith)
        requires
            rows.len() == height,
    ;
}

/// Row `row` of a grid lies inside the grid.
pub proof fn lemma_row_bounds(row: int, width: int, height: int)
    requires
        0 <= row < height,
        0 <= width,
    ensures
        0 <= row * width,
        row * width + width <= width * height,
{
    assert(0 <= row * width && row * width + width <= width * height) by (nonlinear_arith)
        requires
            0 <= row < height,
            0 <= width,
    ;
}

} // verus!
