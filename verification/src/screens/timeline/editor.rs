//! The composer's text editor as plain values: its lines, its caret, and the
//! actions it reports.
//!
//! The editor reports the caret as a line and a column, but everything the
//! spell checker does is expressed in byte offsets into the flat draft, so the
//! two are converted at every boundary.

use vstd::prelude::*;

use crate::text;

verus! {

/// How a line ends. `Bare` is a line without an ending of its own; the flat
/// text puts a line feed there.
#[derive(Debug, Clone, Copy, PartialEq, Eq, Structural)]
pub enum LineEnding {
    Lf,
    CrLf,
    Cr,
    LfCr,
    Bare,
}

/// One line of the editor.
#[derive(Debug)]
pub struct Line {
    pub text: String,
    pub ending: LineEnding,
}

/// A caret position: the line, and the byte column in it.
#[derive(Debug, Clone, Copy, PartialEq, Eq, Structural)]
pub struct Position {
    pub line: usize,
    pub column: usize,
}

/// What the editor holds: its lines and its caret.
#[derive(Debug)]
pub struct Content {
    pub lines: Vec<Line>,
    pub cursor: Position,
}

/// An edit that the editor performed.
#[derive(Debug)]
pub enum Edit {
    Insert(char),
    Paste(String),
    Enter,
    Indent,
    Unindent,
    Backspace,
    Delete,
}

/// Something that the editor performed: an edit, or a caret move, click, drag
/// or scroll.
#[derive(Debug)]
pub enum Action {
    Edit(Edit),
    SelectAll,
    Navigate,
}

// ---------------------------------------------------------------------------
// The model.
// ---------------------------------------------------------------------------
/// The characters of a line ending in the flat text.
pub open spec fn ending_of(e: LineEnding) -> Seq<char> {
    match e {
        LineEnding::Lf => seq!['\n'],
        LineEnding::CrLf => seq!['\r', '\n'],
        LineEnding::Cr => seq!['\r'],
        LineEnding::LfCr => seq!['\n', '\r'],
        LineEnding::Bare => seq!['\n'],
    }
}

/// The flat text of the first `n` lines, each with its ending.
pub open spec fn before(lines: Seq<Line>, n: int) -> Seq<char>
    decreases n,
{
    if n <= 0 {
        Seq::empty()
    } else {
        before(lines, n - 1) + lines[n - 1].text@ + ending_of(lines[n - 1].ending)
    }
}

/// The flat text: the lines with their endings, the last without one.
pub open spec fn flat(lines: Seq<Line>) -> Seq<char> {
    if lines.len() == 0 {
        Seq::empty()
    } else {
        before(lines, lines.len() - 1) + lines.last().text@
    }
}

/// The byte offset of a caret position; a column past the line's end counts
/// as its end.
pub open spec fn offset_of(lines: Seq<Line>, p: Position) -> nat {
    let n = text::byte_len(lines[p.line as int].text@);
    text::byte_len(before(lines, p.line as int)) + if p.column <= n {
        p.column as nat
    } else {
        n
    }
}

/// Where the line with index `i` starts and ends, in bytes.
pub open spec fn line_start(lines: Seq<Line>, i: int) -> nat {
    text::byte_len(before(lines, i))
}

pub open spec fn line_end(lines: Seq<Line>, i: int) -> nat {
    text::byte_len(before(lines, i)) + text::byte_len(lines[i].text@)
}

/// Whether the offset lies strictly inside a line ending.
pub open spec fn inside_ending(lines: Seq<Line>, offset: int) -> bool {
    exists|i: int|
        0 <= i < lines.len() - 1 && line_end(lines, i) < offset && offset < #[trigger] line_start(
            lines,
            i + 1,
        )
}

/// The first position at or after line `i` for an offset; past the end it is
/// the end of the last line.
pub open spec fn position_from(lines: Seq<Line>, offset: int, i: int) -> (int, int)
    decreases lines.len() - i,
{
    if i < 0 || lines.len() == 0 {
        (0, 0)
    } else if i >= lines.len() {
        (lines.len() - 1, text::byte_len(lines.last().text@) as int)
    } else if offset <= line_end(lines, i) {
        (i, offset - line_start(lines, i))
    } else {
        position_from(lines, offset, i + 1)
    }
}

impl Content {
    /// A caret on one of the lines, between two characters or past the line's
    /// end.
    pub open spec fn wf(&self) -> bool {
        &&& self.cursor.line < self.lines@.len()
        &&& {
            let line = self.lines@[self.cursor.line as int].text@;
            text::boundary(line, self.cursor.column as int) || self.cursor.column >= text::byte_len(
                line,
            )
        }
    }
}

/// Earlier lines end before later ones start.
pub proof fn lemma_lines(lines: Seq<Line>, i: int, j: int)
    requires
        0 <= i <= j <= lines.len(),
    ensures
        line_start(lines, i) <= line_start(lines, j),
        i < j ==> line_end(lines, i) < line_start(lines, i + 1) <= line_start(lines, j),
    decreases j - i,
{
    if i < j {
        let l = lines[j - 1];
        text::lemma_byte_len_concat(before(lines, j - 1) + l.text@, ending_of(l.ending));
        text::lemma_byte_len_concat(before(lines, j - 1), l.text@);
        lemma_ending_width(l.ending);
        lemma_lines(lines, i, j - 1);
        let k = lines[i];
        text::lemma_byte_len_concat(before(lines, i) + k.text@, ending_of(k.ending));
        text::lemma_byte_len_concat(before(lines, i), k.text@);
        lemma_ending_width(k.ending);
        if i + 1 < j {
            lemma_lines(lines, i + 1, j);
        }
    }
}

/// An ending takes one or two bytes.
pub proof fn lemma_ending_width(e: LineEnding)
    ensures
        text::byte_len(ending_of(e)) == ending_of(e).len(),
        1 <= ending_of(e).len() <= 2,
{
    vstd::utf8::is_ascii_chars_encode_utf8(ending_of(e));
}

/// The flat text reaches to the end of the last line.
pub proof fn lemma_flat_len(lines: Seq<Line>)
    requires
        lines.len() > 0,
    ensures
        text::byte_len(flat(lines)) == line_end(lines, lines.len() - 1),
{
    text::lemma_byte_len_concat(before(lines, lines.len() - 1), lines.last().text@);
}

// ---------------------------------------------------------------------------
// The functions.
// ---------------------------------------------------------------------------
/// How many bytes the flat text has for a line ending.
pub fn line_ending_len(ending: LineEnding) -> (r: usize)
    ensures
        r == text::byte_len(ending_of(ending)),
        1 <= r <= 2,
{
    proof {
        lemma_ending_width(ending);
    }
    match ending {
        LineEnding::Lf | LineEnding::Cr | LineEnding::Bare => 1,
        LineEnding::CrLf | LineEnding::LfCr => 2,
    }
}

/// Appends a line ending.
fn push_ending(s: &mut String, ending: LineEnding)
    ensures
        final(s)@ == old(s)@ + ending_of(ending),
{
    match ending {
        LineEnding::Lf | LineEnding::Bare => {
            s.push('\n');
        },
        LineEnding::CrLf => {
            s.push('\r');
            s.push('\n');
        },
        LineEnding::Cr => {
            s.push('\r');
        },
        LineEnding::LfCr => {
            s.push('\n');
            s.push('\r');
        },
    }
    assert(s@ =~= old(s)@ + ending_of(ending));
}

impl Content {
    /// The flat text.
    pub fn text(&self) -> (r: String)
        ensures
            r@ == flat(self.lines@),
    {
        let mut r = String::new();
        let n: usize = self.lines.len();
        let mut i: usize = 0;
        while i < n
            invariant
                n == self.lines@.len(),
                i <= n,
                r@ == if i < n {
                    before(self.lines@, i as int)
                } else {
                    flat(self.lines@)
                },
            decreases n - i,
        {
            r.append(self.lines[i].text.as_str());
            if i + 1 < n {
                push_ending(&mut r, self.lines[i].ending);
            }
            i = i + 1;
        }
        r
    }

    /// The caret as a byte offset into the flat text.
    pub fn cursor_offset(&self) -> (r: usize)
        requires
            self.cursor.line < self.lines@.len(),
            text::byte_len(flat(self.lines@)) <= usize::MAX,
        ensures
            r == offset_of(self.lines@, self.cursor),
            r <= text::byte_len(flat(self.lines@)),
    {
        let ghost lines = self.lines@;
        let target: usize = self.cursor.line;
        let mut offset: usize = 0;
        let mut i: usize = 0;
        proof {
            lemma_flat_len(lines);
        }
        while i < target
            invariant
                lines == self.lines@,
                i <= target < lines.len(),
                offset == line_start(lines, i as int),
                text::byte_len(flat(lines)) == line_end(lines, lines.len() - 1),
                text::byte_len(flat(lines)) <= usize::MAX,
            decreases target - i,
        {
            proof {
                lemma_lines(lines, i as int, lines.len() - 1);
                let l = lines[i as int];
                text::lemma_byte_len_concat(
                    before(lines, i as int) + l.text@,
                    ending_of(l.ending),
                );
                text::lemma_byte_len_concat(before(lines, i as int), l.text@);
            }
            let width: usize = text::byte_length(self.lines[i].text.as_str());
            offset = offset + width + line_ending_len(self.lines[i].ending);
            i = i + 1;
        }
        let width: usize = text::byte_length(self.lines[target].text.as_str());
        proof {
            lemma_lines(lines, target as int, lines.len() - 1);
        }
        if self.cursor.column <= width {
            offset + self.cursor.column
        } else {
            offset + width
        }
    }

    /// Whether a byte offset lies strictly inside a line ending.
    pub fn splits_ending(&self, offset: usize) -> (r: bool)
        requires
            text::byte_len(flat(self.lines@)) <= usize::MAX,
        ensures
            r == inside_ending(self.lines@, offset as int),
    {
        let ghost lines = self.lines@;
        let n: usize = self.lines.len();
        let mut start: usize = 0;
        let mut i: usize = 0;
        proof {
            if n > 0 {
                lemma_flat_len(lines);
            }
        }
        while i + 1 < n
            invariant
                lines == self.lines@,
                n == lines.len(),
                n > 0 ==> i < n,
                n == 0 ==> i == 0,
                start == line_start(lines, i as int),
                n > 0 ==> text::byte_len(flat(lines)) == line_end(lines, lines.len() - 1),
                text::byte_len(flat(lines)) <= usize::MAX,
                forall|k: int|
                    0 <= k < i ==> !(line_end(lines, k) < offset && offset < #[trigger] line_start(
                        lines,
                        k + 1,
                    )),
            decreases n - i,
        {
            proof {
                lemma_lines(lines, i as int, lines.len() - 1);
                let l = lines[i as int];
                text::lemma_byte_len_concat(
                    before(lines, i as int) + l.text@,
                    ending_of(l.ending),
                );
                text::lemma_byte_len_concat(before(lines, i as int), l.text@);
            }
            let width: usize = text::byte_length(self.lines[i].text.as_str());
            let end: usize = start + width;
            let next: usize = end + line_ending_len(self.lines[i].ending);
            if end < offset && offset < next {
                assert(line_start(lines, i + 1) == next);
                return true;
            }
            start = next;
            i = i + 1;
        }
        false
    }

    /// The inverse of [`Content::cursor_offset`]: a byte offset as the line
    /// and column the editor can be moved to. Offsets past the end clamp to
    /// it.
    pub fn position_at(&self, offset: usize) -> (r: Position)
        requires
            text::byte_len(flat(self.lines@)) <= usize::MAX,
            !inside_ending(self.lines@, offset as int),
        ensures
            (r.line as int, r.column as int) == position_from(self.lines@, offset as int, 0),
    {
        let ghost lines = self.lines@;
        let n: usize = self.lines.len();
        if n == 0 {
            return Position { line: 0, column: 0 };
        }
        let mut start: usize = 0;
        let mut i: usize = 0;
        proof {
            lemma_flat_len(lines);
        }
        loop
            invariant
                lines == self.lines@,
                n == lines.len(),
                i < n,
                start == line_start(lines, i as int),
                start <= offset || i == 0,
                text::byte_len(flat(lines)) == line_end(lines, lines.len() - 1),
                text::byte_len(flat(lines)) <= usize::MAX,
                !inside_ending(lines, offset as int),
                position_from(lines, offset as int, 0) == position_from(
                    lines,
                    offset as int,
                    i as int,
                ),
            decreases n - i,
        {
            proof {
                lemma_lines(lines, i as int, lines.len() - 1);
            }
            let width: usize = text::byte_length(self.lines[i].text.as_str());
            let end: usize = start + width;
            if offset <= end {
                return Position { line: i, column: offset - start };
            }
            if i + 1 == n {
                assert(lines.last() == lines[i as int]);
                assert(position_from(lines, offset as int, i + 1) == (
                    lines.len() - 1,
                    text::byte_len(lines.last().text@) as int,
                ));
                return Position { line: i, column: width };
            }
            proof {
                let l = lines[i as int];
                text::lemma_byte_len_concat(
                    before(lines, i as int) + l.text@,
                    ending_of(l.ending),
                );
                text::lemma_byte_len_concat(before(lines, i as int), l.text@);
            }
            start = end + line_ending_len(self.lines[i].ending);
            assert(line_start(lines, i + 1) == start);
            i = i + 1;
        }
    }
}

/// Whether an action finishes a word: the moment autocorrect gets to act. A
/// paste is not one of them: silently rewriting part of what someone pasted is
/// not a fix anyone asked for.
pub open spec fn finishes_word(a: Action) -> bool {
    match a {
        Action::Edit(Edit::Insert(c)) => text::white_space(c),
        Action::Edit(Edit::Enter) => true,
        _ => false,
    }
}

/// Whether an action finishes a word.
pub fn ends_word(action: &Action) -> (r: bool)
    ensures
        r == finishes_word(*action),
{
    match action {
        Action::Edit(Edit::Insert(c)) => text::is_white_space(*c),
        Action::Edit(Edit::Enter) => true,
        _ => false,
    }
}

// ---------------------------------------------------------------------------
// Laws.
// ---------------------------------------------------------------------------
/// Moving the caret to a byte offset and reading it back gives the offset,
/// clamped to the end of the draft.
pub proof fn law_caret_round_trip(lines: Seq<Line>, offset: int)
    requires
        lines.len() > 0,
        0 <= offset,
        !inside_ending(lines, offset),
        lines.len() <= usize::MAX,
        text::byte_len(flat(lines)) <= usize::MAX,
    ensures
        ({
            let p = position_from(lines, offset, 0);
            offset_of(lines, Position { line: p.0 as usize, column: p.1 as usize }) == if offset
                <= text::byte_len(flat(lines)) {
                offset
            } else {
                text::byte_len(flat(lines)) as int
            }
        }),
{
    lemma_flat_len(lines);
    lemma_round_trip_from(lines, offset, 0);
}

proof fn lemma_round_trip_from(lines: Seq<Line>, offset: int, i: int)
    requires
        0 <= i < lines.len(),
        i == 0 || line_start(lines, i) <= offset,
        0 <= offset,
        !inside_ending(lines, offset),
        lines.len() <= usize::MAX,
        text::byte_len(flat(lines)) <= usize::MAX,
        text::byte_len(flat(lines)) == line_end(lines, lines.len() - 1),
    ensures
        ({
            let p = position_from(lines, offset, i);
            offset_of(lines, Position { line: p.0 as usize, column: p.1 as usize }) == if offset
                <= text::byte_len(flat(lines)) {
                offset
            } else {
                text::byte_len(flat(lines)) as int
            }
        }),
    decreases lines.len() - i,
{
    lemma_lines(lines, i, lines.len() - 1);
    if offset > line_end(lines, i) {
        if i + 1 < lines.len() {
            assert(!(line_end(lines, i) < offset && offset < line_start(lines, i + 1)));
            lemma_round_trip_from(lines, offset, i + 1);
        } else {
            assert(position_from(lines, offset, i + 1) == (
                lines.len() - 1,
                text::byte_len(lines.last().text@) as int,
            ));
        }
    }
}

/// A caret position, turned into an offset and back, is the same position.
pub proof fn law_position_round_trip(lines: Seq<Line>, p: Position)
    requires
        p.line < lines.len(),
        p.column <= text::byte_len(lines[p.line as int].text@),
    ensures
        position_from(lines, offset_of(lines, p) as int, 0) == (p.line as int, p.column as int),
{
    lemma_position_from(lines, p, 0);
}

proof fn lemma_position_from(lines: Seq<Line>, p: Position, i: int)
    requires
        0 <= i <= p.line < lines.len(),
        p.column <= text::byte_len(lines[p.line as int].text@),
    ensures
        position_from(lines, offset_of(lines, p) as int, i) == (p.line as int, p.column as int),
    decreases p.line - i,
{
    lemma_lines(lines, i, p.line as int);
    if i < p.line {
        lemma_position_from(lines, p, i + 1);
    }
}

/// A caret between two characters of its line stands between two characters
/// of the flat text.
pub proof fn lemma_caret_boundary(c: Content)
    requires
        c.wf(),
    ensures
        text::boundary(flat(c.lines@), offset_of(c.lines@, c.cursor) as int),
{
    let lines = c.lines@;
    let i = c.cursor.line as int;
    let line = lines[i].text@;
    let k = if c.cursor.column >= text::byte_len(line) {
        line.len() as int
    } else {
        text::index_at(line, c.cursor.column as int)
    };
    text::lemma_ends_are_boundaries(line);
    if c.cursor.column < text::byte_len(line) {
        assert(text::is_index(line, c.cursor.column as int, k));
    }
    let s = flat(lines);
    let front = before(lines, i);
    lemma_flat_begins(lines, i);
    text::lemma_byte_len_concat(front, line.take(k));
    assert(s.take(front.len() + k) =~= front + line.take(k));
    assert(text::is_index(s, offset_of(lines, c.cursor) as int, front.len() + k));
}

/// The flat text begins with any line and all before it.
proof fn lemma_flat_begins(lines: Seq<Line>, i: int)
    requires
        0 <= i < lines.len(),
    ensures
        before(lines, i).len() + lines[i].text@.len() <= flat(lines).len(),
        flat(lines).take((before(lines, i) + lines[i].text@).len() as int) == before(lines, i)
            + lines[i].text@,
    decreases lines.len() - i,
{
    let front = before(lines, i) + lines[i].text@;
    if i == lines.len() - 1 {
        assert(flat(lines) =~= front);
        assert(flat(lines).take(front.len() as int) =~= front);
    } else {
        lemma_flat_begins(lines, i + 1);
        let next = before(lines, i + 1) + lines[i + 1].text@;
        assert(next.take(front.len() as int) =~= front);
        assert(flat(lines).take(front.len() as int) =~= flat(lines).take(next.len() as int).take(
            front.len() as int,
        ));
    }
}

/// The draft is its lines one behind the other, each but the last with its
/// line break.
pub proof fn law_the_draft_is_its_lines(lines: Seq<Line>, last: Line)
    requires
        lines.len() > 0,
    ensures
        flat(seq![last]) == last.text@,
        lines[lines.len() - 1].ending is Lf || lines[lines.len() - 1].ending is Bare ==> flat(
            lines.push(last),
        ) == flat(lines) + seq!['\n'] + last.text@,
        lines[lines.len() - 1].ending is CrLf ==> flat(lines.push(last)) == flat(lines) + seq![
            '\r',
            '\n',
        ] + last.text@,
{
    let all = lines.push(last);
    let n = lines.len() as int;
    lemma_before_prefix(lines, last, n);
    lemma_before_prefix(lines, last, n - 1);
    assert(before(lines, n) == before(lines, n - 1) + lines[n - 1].text@ + ending_of(
        lines[n - 1].ending,
    ));
    reveal_with_fuel(before, 2);
    assert(flat(seq![last]) =~= last.text@);
}

proof fn lemma_before_prefix(lines: Seq<Line>, last: Line, n: int)
    requires
        0 <= n <= lines.len(),
    ensures
        before(lines.push(last), n) == before(lines, n),
    decreases n,
{
    if n > 0 {
        lemma_before_prefix(lines, last, n - 1);
        assert(lines.push(last)[n - 1] == lines[n - 1]);
    }
}

/// The caret's offset counts what stands before it: the lines above with their
/// breaks, and the columns of its own.
pub proof fn law_where_the_caret_stands(lines: Seq<Line>, p: Position)
    requires
        p.line < lines.len(),
        p.column <= text::byte_len(lines[p.line as int].text@),
    ensures
        p.line == 0 ==> offset_of(lines, p) == p.column,
        offset_of(lines, p) == text::byte_len(before(lines, p.line as int)) + p.column,
        p.line as int == lines.len() - 1 && p.column == text::byte_len(
            lines[p.line as int].text@,
        ) ==> offset_of(lines, p) == text::byte_len(flat(lines)),
{
    if p.line == 0 {
        assert(text::byte_len(before(lines, 0)) == 0) by {
            text::lemma_byte_len_concat(before(lines, 0), before(lines, 0));
            assert(before(lines, 0) + before(lines, 0) =~= before(lines, 0));
        }
    }
    text::lemma_byte_len_concat(before(lines, lines.len() - 1), lines.last().text@);
}

} // verus!
