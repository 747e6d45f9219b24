use crate::parse::chars::{run_len, scan_run, CharClass};
use crate::parse::stream::{walk, ParseStream};
use crate::text::{joined, lines_of, split_lines};
use vstd::prelude::*;
use vstd::string::*;

verus! {

/// A place in a source text. Lines and columns are counted from 1, one column
/// per character; the pair `0:0` is reserved for the end of the input.
#[derive(Copy, Clone, Debug, PartialEq, Eq, Structural)]
pub struct CursorPosition {
    pub line: usize,
    pub column: usize,
}

impl CursorPosition {
    /// Stands for "the input ran out"; no character of a text has this position.
    pub open spec fn eof_spec() -> CursorPosition {
        CursorPosition { line: 0, column: 0 }
    }

    /// Stands for "the input ran out"; no character of a text has this position.
    #[verifier::when_used_as_spec(eof_spec)]
    pub fn eof() -> (r: Self)
        ensures
            r == Self::eof_spec(),
    {
        Self { line: 0, column: 0 }
    }

    /// The position of the first character of a text.
    pub fn default() -> (r: Self)
        ensures
            r == (CursorPosition { line: 1, column: 1 }),
    {
        Self { line: 1, column: 1 }
    }

    /// The same line, `len` columns further to the right.
    pub fn extend_column_by(self, len: usize) -> (r: Self)
        requires
            self.column + len <= usize::MAX,
        ensures
            r == (CursorPosition { line: self.line, column: (self.column + len) as usize }),
    {
        Self { line: self.line, column: self.column + len }
    }
}

impl DeepView for CursorPosition {
    type V = CursorPosition;

    open spec fn deep_view(&self) -> CursorPosition {
        *self
    }
}

/// A half-open range of a source text: `start` is the first character of the
/// item, `end` the one after its last.
#[derive(Copy, Clone, Debug, PartialEq, Eq, Structural)]
pub struct Span {
    pub start: CursorPosition,
    pub end: CursorPosition,
}

impl Span {
    /// The range that stands for the end of the input.
    pub open spec fn eof_spec() -> Span {
        Span { start: CursorPosition::eof(), end: CursorPosition::eof() }
    }

    /// The range that stands for the end of the input.
    #[verifier::when_used_as_spec(eof_spec)]
    pub fn eof() -> (r: Self)
        ensures
            r == Self::eof_spec(),
    {
        Self { start: CursorPosition::eof(), end: CursorPosition::eof() }
    }

    /// The range of `extra_column` columns that starts at `cursor`.
    pub fn with_extra_column(cursor: CursorPosition, extra_column: usize) -> (r: Self)
        requires
            cursor.column + extra_column <= usize::MAX,
        ensures
            r == Span::spanning(cursor, extra_column as nat),
    {
        Self { start: cursor, end: cursor.extend_column_by(extra_column) }
    }

    /// The range of `shrink` columns that ends at `cursor`.
    pub fn with_shrunk_column(cursor: CursorPosition, shrink: usize) -> (r: Self)
        requires
            shrink <= cursor.column,
        ensures
            r == Span::ending(cursor, shrink as nat),
    {
        Self { start: CursorPosition { line: cursor.line, column: cursor.column - shrink }, end: cursor }
    }

    /// The range of `width` columns that ends at `cursor`.
    pub open spec fn ending(cursor: CursorPosition, width: nat) -> Span {
        Span {
            start: CursorPosition { line: cursor.line, column: (cursor.column - width) as usize },
            end: cursor,
        }
    }

    /// The range of `width` columns that starts at `cursor`.
    pub open spec fn spanning(cursor: CursorPosition, width: nat) -> Span {
        Span {
            start: cursor,
            end: CursorPosition { line: cursor.line, column: (cursor.column + width) as usize },
        }
    }

    /// The range itself; but for the range that stands for the end of the
    /// input, the empty range at the position where `code` ends.
    pub open spec fn eof_or_spec(self, code: Seq<char>) -> Span {
        if self.start == CursorPosition::eof() {
            let end = walk(CursorPosition { line: 1, column: 1 }, code);
            Span { start: end, end }
        } else {
            self
        }
    }

    /// Gives the range that stands for the end of the input a place in
    /// `code`; see [`Span::eof_or_spec`].
    pub fn eof_or(self, code: &str) -> (r: Span)
        requires
            code@.len() + 2 <= usize::MAX,
        ensures
            r == self.eof_or_spec(code@),
    {
        if self.start == CursorPosition::eof() {
            let mut stream = ParseStream::new(code);
            let len = code.unicode_len();
            stream.offset_by(len);
            assert(code@.take(len as int) =~= code@);
            Span { start: stream.cursor, end: stream.cursor }
        } else {
            self
        }
    }

    /// Whether both ends lie on lines of a text of `count` lines, the start
    /// not after the end.
    pub open spec fn covers(self, count: nat) -> bool {
        1 <= self.start.line <= self.end.line <= count
    }

    /// The part of line number `n` of `lines` that the range covers: on the
    /// first line from the start's column, on the last up to the end's
    /// column and no further than the first blank. Columns outside the line
    /// are taken as its ends.
    pub open spec fn excerpt_line(self, lines: Seq<Seq<char>>, n: int) -> Seq<char> {
        let line = lines[n - 1];
        let from = if n == self.start.line {
            clip(self.start.column - 1, 0, line.len() as int)
        } else {
            0
        };
        if n == self.end.line {
            let piece = line.subrange(from, clip(self.end.column - 1, from, line.len() as int));
            piece.take(run_len(piece, CharClass::NonBlank) as int)
        } else {
            line.subrange(from, line.len() as int)
        }
    }

    /// The parts of `lines` that the range covers, line by line; nothing
    /// where the range does not lie on `lines`.
    pub open spec fn excerpt_lines(self, lines: Seq<Seq<char>>) -> Seq<Seq<char>> {
        if self.covers(lines.len()) {
            Seq::new(
                (self.end.line - self.start.line + 1) as nat,
                |i: int| self.excerpt_line(lines, self.start.line + i),
            )
        } else {
            Seq::empty()
        }
    }

    /// The text of `code` that the range covers, for display; `<EOF>` for
    /// the range that stands for the end of the input.
    pub open spec fn excerpt(self, code: Seq<char>) -> Seq<char> {
        if self.start == CursorPosition::eof() {
            "<EOF>"@
        } else {
            joined(self.excerpt_lines(lines_of(code)))
        }
    }

    /// Cuts the text that the range covers out of `code`; see
    /// [`Span::excerpt`].
    pub fn apply(self, code: &str) -> (r: String)
        ensures
            r@ == self.excerpt(code@),
    {
        if self.start == CursorPosition::eof() {
            return String::from_str("<EOF>");
        }
        let lines = split_lines(code);
        let mut out = String::new();
        if !(1 <= self.start.line && self.start.line <= self.end.line && self.end.line
            <= lines.len()) {
            return out;
        }
        let count = self.end.line - self.start.line + 1;
        let ghost all = lines.deep_view();
        let ghost pieces = self.excerpt_lines(all);
        let mut i: usize = 0;
        while i < count
            invariant
                i <= count,
                count == self.end.line - self.start.line + 1,
                1 <= self.start.line <= self.end.line <= lines@.len(),
                all == lines.deep_view(),
                pieces == self.excerpt_lines(all),
                pieces.len() == count,
                out@ == joined(pieces.take(i as int)),
            decreases count - i,
        {
            let n = self.start.line + i;
            let line = lines[n - 1];
            let len = line.unicode_len();
            let from = if i == 0 {
                if self.start.column >= 1 && self.start.column - 1 <= len {
                    self.start.column - 1
                } else if self.start.column >= 1 {
                    len
                } else {
                    0
                }
            } else {
                0
            };
            let piece = if n == self.end.line {
                let to = if self.end.column >= 1 && self.end.column - 1 <= len {
                    if self.end.column - 1 >= from {
                        self.end.column - 1
                    } else {
                        from
                    }
                } else if self.end.column >= 1 {
                    len
                } else {
                    from
                };
                let cut = line.substring_char(from, to);
                let shown = scan_run(cut, CharClass::NonBlank);
                cut.substring_char(0, shown)
            } else {
                line.substring_char(from, len)
            };
            if i > 0 {
                out.push('\n');
            }
            out.append(piece);
            i = i + 1;
            proof {
                let now = pieces.take(i as int);
                assert(now.drop_last() =~= pieces.take(i - 1));
            }
        }
        assert(pieces.take(count as int) =~= pieces);
        out
    }
}

impl DeepView for Span {
    type V = Span;

    open spec fn deep_view(&self) -> Span {
        *self
    }
}

/// `x`, or the nearer end of the range from `lo` to `hi` where it lies
/// outside.
pub open spec fn clip(x: int, lo: int, hi: int) -> int {
    if x < lo {
        lo
    } else if x > hi {
        hi
    } else {
        x
    }
}

} // verus!
