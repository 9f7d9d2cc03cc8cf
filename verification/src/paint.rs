//! What the window paints: the countdown text split at line breaks, blank
//! lines left out, one line every 25 pixels from the top.

use vstd::prelude::*;
use vstd::string::*;

use crate::decimal::push_char;

verus! {

/// Left edge of the painted text.
pub const TEXT_X: i32 = 30;

/// Top of the first painted line.
pub const FIRST_LINE_Y: i32 = 30;

/// Distance between painted lines.
pub const LINE_SPACING: i32 = 25;

/// Whether `c` has the Unicode White_Space property, the white space of
/// `char::is_whitespace` and `str::trim`: tab, line feed, vertical tab,
/// form feed, carriage return, space, next line, no-break space, ogham
/// space mark, the spaces from en quad to hair space, line and paragraph
/// separator, narrow no-break space, medium mathematical space and
/// ideographic space.
pub open spec fn unicode_white_space(c: char) -> bool {
    let v = c as u32;
    ||| 0x09 <= v <= 0x0D
    ||| v == 0x20
    ||| v == 0x85
    ||| v == 0xA0
    ||| v == 0x1680
    ||| 0x2000 <= v <= 0x200A
    ||| v == 0x2028
    ||| v == 0x2029
    ||| v == 0x202F
    ||| v == 0x205F
    ||| v == 0x3000
}

/// Whether `c` is white space in the sense of `char::is_whitespace`.
pub fn is_white_space(c: char) -> (r: bool)
    ensures
        r == unicode_white_space(c),
{
    let v = c as u32;
    (0x09 <= v && v <= 0x0D) || v == 0x20 || v == 0x85 || v == 0xA0 || v == 0x1680 || (0x2000 <= v
        && v <= 0x200A) || v == 0x2028 || v == 0x2029 || v == 0x202F || v == 0x205F || v == 0x3000
}

/// The pieces of `s` between line feeds, as `str::split('\n')` yields them:
/// always at least one, possibly empty.
pub open spec fn split_lines(s: Seq<char>) -> Seq<Seq<char>>
    decreases s.len(),
{
    if s.len() == 0 {
        seq![Seq::<char>::empty()]
    } else {
        let p = split_lines(s.drop_last());
        if s.last() == '\n' {
            p.push(Seq::<char>::empty())
        } else {
            p.update(p.len() - 1, p.last().push(s.last()))
        }
    }
}

/// A line that `trim` leaves empty: nothing but white space.
pub open spec fn is_blank(line: Seq<char>) -> bool {
    forall|i: int| 0 <= i < line.len() ==> unicode_white_space(#[trigger] line[i])
}

/// The lines that are not blank, in order.
pub open spec fn drawn_lines(lines: Seq<Seq<char>>) -> Seq<Seq<char>>
    decreases lines.len(),
{
    if lines.len() == 0 {
        seq![]
    } else {
        let p = drawn_lines(lines.drop_last());
        if is_blank(lines.last()) {
            p
        } else {
            p.push(lines.last())
        }
    }
}

/// Top of the `k`-th painted line.
pub open spec fn line_y(k: int) -> int {
    FIRST_LINE_Y + LINE_SPACING * k
}

/// One line of text and the height at which it is painted.
#[derive(Debug)]
pub struct PaintLine {
    pub y: i32,
    pub text: String,
}

proof fn lemma_split_nonempty(s: Seq<char>)
    ensures
        split_lines(s).len() >= 1,
        split_lines(s).len() <= s.len() + 1,
    decreases s.len(),
{
    if s.len() > 0 {
        lemma_split_nonempty(s.drop_last());
    }
}

/// Most lines that can be painted before the height of the next one leaves
/// the `i32` range.
pub const MAX_PAINT_LINES: usize = 85_899_344;

/// Drawing the lines of two runs one after the other draws the lines of each.
proof fn lemma_drawn_concat(a: Seq<Seq<char>>, b: Seq<Seq<char>>)
    ensures
        drawn_lines(a + b) == drawn_lines(a) + drawn_lines(b),
    decreases b.len(),
{
    if b.len() == 0 {
        assert(a + b =~= a);
        assert(drawn_lines(a) + drawn_lines(b) =~= drawn_lines(a));
    } else {
        lemma_drawn_concat(a, b.drop_last());
        assert((a + b).drop_last() =~= a + b.drop_last());
        assert((a + b).last() == b.last());
        if !is_blank(b.last()) {
            assert(drawn_lines(a) + drawn_lines(b.drop_last()).push(b.last()) =~= (drawn_lines(a)
                + drawn_lines(b.drop_last())).push(b.last()));
        }
    }
}

/// Reading further only adds to the last piece or starts new ones: the
/// finished pieces of a prefix stay the first pieces of a longer prefix.
proof fn lemma_split_extends(s: Seq<char>, i: int, j: int)
    requires
        0 <= i <= j <= s.len(),
    ensures
        split_lines(s.take(j)).len() >= split_lines(s.take(i)).len(),
        split_lines(s.take(j)).subrange(0, split_lines(s.take(i)).len() - 1) =~= split_lines(
            s.take(i),
        ).drop_last(),
    decreases j - i,
{
    lemma_split_nonempty(s.take(i));
    if j > i {
        lemma_split_extends(s, i, j - 1);
        let t = s.take(j - 1);
        assert(s.take(j).drop_last() =~= t);
        lemma_split_nonempty(t);
    }
}

/// The finished pieces of a prefix draw no more lines than the whole text.
proof fn lemma_drawn_prefix_bound(s: Seq<char>, i: int)
    requires
        0 <= i <= s.len(),
    ensures
        drawn_lines(split_lines(s.take(i)).drop_last()).len() <= drawn_lines(split_lines(s)).len(),
{
    lemma_split_extends(s, i, s.len() as int);
    lemma_split_nonempty(s.take(i));
    assert(s.take(s.len() as int) =~= s);
    let whole = split_lines(s);
    let k: int = split_lines(s.take(i)).len() - 1;
    assert(0 <= k <= whole.len());
    assert(whole =~= whole.subrange(0, k) + whole.subrange(k, whole.len() as int));
    lemma_drawn_concat(whole.subrange(0, k), whole.subrange(k, whole.len() as int));
}

/// A line stays blank when white space is added to it, and only then.
proof fn lemma_blank_push(line: Seq<char>, c: char)
    ensures
        is_blank(line.push(c)) == (is_blank(line) && unicode_white_space(c)),
{
    let l = line.push(c);
    if is_blank(line) && unicode_white_space(c) {
        assert forall|j: int| 0 <= j < l.len() implies unicode_white_space(#[trigger] l[j]) by {
            if j < line.len() {
                assert(l[j] == line[j]);
            }
        }
    } else if !unicode_white_space(c) {
        assert(!unicode_white_space(l[l.len() - 1]));
    } else {
        let j = choose|j: int| 0 <= j < line.len() && !unicode_white_space(#[trigger] line[j]);
        assert(l[j] == line[j]);
    }
}

/// Whether painting `text` stays within `MAX_PAINT_LINES` lines, so that
/// every line's height fits an `i32`.
pub fn fits_paint_area(text: &str) -> (r: bool)
    ensures
        r == (drawn_lines(split_lines(text@)).len() <= MAX_PAINT_LINES),
{
    let ghost chars = text@;
    let n: usize = text.unicode_len();
    let mut count: usize = 0;
    let mut blank = true;
    let mut i: usize = 0;
    proof {
        assert(chars.take(0) =~= Seq::<char>::empty());
        assert(split_lines(chars.take(0)).drop_last() =~= Seq::<Seq<char>>::empty());
    }
    while i < n
        invariant
            n == chars.len(),
            chars == text@,
            i <= n,
            split_lines(chars.take(i as int)).len() >= 1,
            blank == is_blank(split_lines(chars.take(i as int)).last()),
            count == drawn_lines(split_lines(chars.take(i as int)).drop_last()).len(),
            count <= MAX_PAINT_LINES,
        decreases n - i,
    {
        let c = text.get_char(i);
        let ghost prefix = chars.take(i as int);
        let ghost lines = split_lines(prefix);
        proof {
            assert(chars.take(i + 1).drop_last() =~= prefix);
            assert(chars.take(i + 1).last() == c);
            lemma_split_nonempty(prefix);
            assert(lines.drop_last().push(lines.last()) =~= lines);
            lemma_drawn_step(lines.drop_last(), lines.last());
        }
        if c == '\n' {
            proof {
                assert(split_lines(chars.take(i + 1)) == lines.push(Seq::<char>::empty()));
                assert(split_lines(chars.take(i + 1)).drop_last() =~= lines);
                lemma_drawn_prefix_bound(chars, i + 1);
                assert(is_blank(Seq::<char>::empty()));
            }
            if !blank {
                if count == MAX_PAINT_LINES {
                    return false;
                }
                count = count + 1;
            }
            blank = true;
        } else {
            let ws = is_white_space(c);
            proof {
                let next = lines.update(lines.len() - 1, lines.last().push(c));
                assert(split_lines(chars.take(i + 1)) == next);
                assert(next.drop_last() =~= lines.drop_last());
                assert(next.last() == lines.last().push(c));
                lemma_blank_push(lines.last(), c);
            }
            blank = blank && ws;
        }
        i = i + 1;
    }
    proof {
        assert(chars.take(n as int) =~= chars);
        let lines = split_lines(chars);
        lemma_split_nonempty(chars);
        assert(lines.drop_last().push(lines.last()) =~= lines);
        lemma_drawn_step(lines.drop_last(), lines.last());
    }
    blank || count < MAX_PAINT_LINES
}

/// The texts of painted lines.
pub open spec fn texts_of(lines: Seq<PaintLine>) -> Seq<Seq<char>> {
    lines.map_values(|l: PaintLine| l.text@)
}

/// Each painted line sits at its place in the column.
pub open spec fn heights_in_order(lines: Seq<PaintLine>) -> bool {
    forall|k: int| 0 <= k < lines.len() ==> #[trigger] lines[k].y == line_y(k)
}

/// Adding one line to the pieces seen so far adds it to the drawn lines
/// unless it is blank.
proof fn lemma_drawn_step(lines: Seq<Seq<char>>, line: Seq<char>)
    ensures
        drawn_lines(lines.push(line)) == if is_blank(line) {
            drawn_lines(lines)
        } else {
            drawn_lines(lines).push(line)
        },
{
    assert(lines.push(line).drop_last() =~= lines);
}

/// Moves the current line onto the painted lines when it is not blank.
fn finish_line(r: &mut Vec<PaintLine>, y: &mut i32, current: String, blank: bool)
    requires
        heights_in_order(old(r)@),
        *old(y) == line_y(old(r)@.len() as int),
        blank == is_blank(current@),
        blank || old(r)@.len() + 1 <= MAX_PAINT_LINES,
    ensures
        texts_of(final(r)@) == if blank { texts_of(old(r)@) } else { texts_of(old(r)@).push(current@) },
        heights_in_order(final(r)@),
        *final(y) == line_y(final(r)@.len() as int),
        final(r)@.len() <= old(r)@.len() + 1,
{
    if !blank {
        let ghost before = r@;
        r.push(PaintLine { y: *y, text: current });
        *y = *y + LINE_SPACING;
        assert(texts_of(r@) =~= texts_of(before).push(current@));
        assert forall|k: int| 0 <= k < r@.len() implies #[trigger] r@[k].y == line_y(k) by {
            if k < before.len() {
                assert(r@[k] == before[k]);
            }
        }
    }
}

/// The lines that painting `text` draws, each with its height: the pieces
/// between line feeds that are not blank, the first at `FIRST_LINE_Y` and
/// each next one `LINE_SPACING` lower.
pub fn paint_lines(text: &str) -> (r: Vec<PaintLine>)
    requires
        drawn_lines(split_lines(text@)).len() <= MAX_PAINT_LINES,
    ensures
        texts_of(r@) == drawn_lines(split_lines(text@)),
        heights_in_order(r@),
{
    let mut r: Vec<PaintLine> = Vec::new();
    let mut current = String::new();
    let mut blank = true;
    let mut y: i32 = FIRST_LINE_Y;
    let ghost chars = text@;
    let n: usize = text.unicode_len();
    let mut i: usize = 0;
    proof {
        assert(chars.take(0) =~= Seq::<char>::empty());
        assert(split_lines(chars.take(0)).drop_last() =~= Seq::<Seq<char>>::empty());
        assert(texts_of(r@) =~= Seq::<Seq<char>>::empty());
    }
    while i < n
        invariant
            n == chars.len(),
            chars == text@,
            drawn_lines(split_lines(chars)).len() <= MAX_PAINT_LINES,
            i <= n,
            split_lines(chars.take(i as int)).len() >= 1,
            current@ == split_lines(chars.take(i as int)).last(),
            blank == is_blank(current@),
            texts_of(r@) == drawn_lines(split_lines(chars.take(i as int)).drop_last()),
            heights_in_order(r@),
            y == line_y(r@.len() as int),
        decreases n - i,
    {
        let c = text.get_char(i);
        let ghost prefix = chars.take(i as int);
        let ghost lines = split_lines(prefix);
        proof {
            assert(chars.take(i + 1).drop_last() =~= prefix);
            assert(chars.take(i + 1).last() == c);
            lemma_split_nonempty(prefix);
            assert(lines.drop_last().push(lines.last()) =~= lines);
            lemma_drawn_step(lines.drop_last(), lines.last());
        }
        if c == '\n' {
            proof {
                assert(split_lines(chars.take(i + 1)).drop_last() =~= lines);
                lemma_drawn_prefix_bound(chars, i + 1);
            }
            let mut line = String::new();
            std::mem::swap(&mut line, &mut current);
            finish_line(&mut r, &mut y, line, blank);
            blank = true;
            proof {
                assert(split_lines(chars.take(i + 1)) == lines.push(Seq::<char>::empty()));
                assert(split_lines(chars.take(i + 1)).drop_last() =~= lines);
                assert(current@ =~= split_lines(chars.take(i + 1)).last());
                assert(is_blank(current@));
            }
        } else {
            let ws = is_white_space(c);
            let ghost old_current = current@;
            push_char(&mut current, c);
            blank = blank && ws;
            proof {
                let next = lines.update(lines.len() - 1, lines.last().push(c));
                assert(split_lines(chars.take(i + 1)) == next);
                assert(next.drop_last() =~= lines.drop_last());
                assert(current@ =~= next.last());
                assert(blank == is_blank(current@)) by {
                    if blank {
                        assert forall|j: int| 0 <= j < current@.len() implies unicode_white_space(#[trigger] current@[j]) by {
                            if j < current@.len() - 1 {
                                assert(current@[j] == old_current[j]);
                            }
                        }
                    } else if !ws {
                        assert(!unicode_white_space(current@[current@.len() - 1]));
                    } else {
                        let j = choose|j: int| 0 <= j < old_current.len() && !unicode_white_space(#[trigger] old_current[j]);
                        assert(current@[j] == old_current[j]);
                    }
                }
            }
        }
        i = i + 1;
    }
    proof {
        assert(chars.take(n as int) =~= chars);
        let lines = split_lines(chars);
        lemma_split_nonempty(chars);
        assert(lines.drop_last().push(lines.last()) =~= lines);
        lemma_drawn_step(lines.drop_last(), lines.last());
    }
    finish_line(&mut r, &mut y, current, blank);
    r
}

} // verus!
