//! The cursor stream that every parser advances, and what a parser owes its
//! caller.

use crate::parse::chars::{lemma_run_len, run_len, scan_run, CharClass};
use crate::span::CursorPosition;
use vstd::prelude::*;
use vstd::string::*;

verus! {

/// The character that ends a line.
pub const LINE_SEPARATOR: char = '\n';

/// The character that takes the closing role away from a delimiter that
/// follows it.
pub const ESCAPING_SIGN: char = '\\';

/// How many characters a stream has consumed since it was made.
#[derive(Copy, Clone, Debug, PartialEq, Eq, Structural)]
pub struct ParsingDepth(pub usize);

/// What a stream is, as a mathematical value: the text still to be read, the
/// position of its first character, and the number of characters read so far.
pub ghost struct StreamState {
    pub code: Seq<char>,
    pub cursor: CursorPosition,
    pub depth: usize,
}

/// The position that follows `pos` once the character `c` has been read.
pub open spec fn step(pos: CursorPosition, c: char) -> CursorPosition {
    if c == LINE_SEPARATOR {
        CursorPosition { line: (pos.line + 1) as usize, column: 1 }
    } else {
        CursorPosition { line: pos.line, column: (pos.column + 1) as usize }
    }
}

/// The position reached from `pos` by reading all of `text`.
pub open spec fn walk(pos: CursorPosition, text: Seq<char>) -> CursorPosition
    decreases text.len(),
{
    if text.len() == 0 {
        pos
    } else {
        step(walk(pos, text.drop_last()), text.last())
    }
}

/// Reading two texts one after the other is reading their concatenation.
pub proof fn lemma_walk_concat(pos: CursorPosition, a: Seq<char>, b: Seq<char>)
    ensures
        walk(pos, a + b) == walk(walk(pos, a), b),
    decreases b.len(),
{
    if b.len() > 0 {
        assert((a + b).drop_last() =~= a + b.drop_last());
        lemma_walk_concat(pos, a, b.drop_last());
    }
}

/// Whether `later` is `earlier` or a position behind it in the text: on a
/// later line, or on the same line and not to the left.
pub open spec fn not_before(earlier: CursorPosition, later: CursorPosition) -> bool {
    later.line > earlier.line || (later.line == earlier.line && later.column >= earlier.column)
}

/// Reading a text moves the position forward, by at most one line and at
/// most one column for each character; on the line on which it began, by
/// exactly one column for each.
pub proof fn lemma_walk_bounds(pos: CursorPosition, text: Seq<char>)
    requires
        pos.line >= 1,
        pos.column >= 1,
        pos.line + text.len() <= usize::MAX,
        pos.column + text.len() <= usize::MAX,
    ensures
        pos.line <= walk(pos, text).line <= pos.line + text.len(),
        1 <= walk(pos, text).column <= pos.column + text.len(),
        walk(pos, text).line == pos.line ==> walk(pos, text).column == pos.column + text.len(),
        not_before(pos, walk(pos, text)),
    decreases text.len(),
{
    if text.len() > 0 {
        lemma_walk_bounds(pos, text.drop_last());
    }
}

/// A state comes after itself.
pub broadcast proof fn lemma_precedes_self(state: StreamState)
    ensures
        #[trigger] state.precedes(state),
{
    assert(state.code.skip(0) =~= state.code);
}

/// What comes after what comes after a state comes after that state.
pub broadcast proof fn lemma_precedes_chain(
    first: StreamState,
    between: StreamState,
    later: StreamState,
)
    requires
        #[trigger] first.precedes(between),
        #[trigger] between.precedes(later),
    ensures
        first.precedes(later),
{
    let a = first.code.len() - between.code.len();
    let b = between.code.len() - later.code.len();
    assert(first.code.skip(a).skip(b) =~= first.code.skip(a + b));
}

impl StreamState {
    /// The state of a stream that has read nothing of `code` yet.
    pub open spec fn start(code: Seq<char>) -> StreamState {
        StreamState { code, cursor: CursorPosition { line: 1, column: 1 }, depth: 0 }
    }

    /// The position is a real one, and position and depth leave room for
    /// every character still to be read, and for one column more.
    pub open spec fn wf(self) -> bool {
        &&& self.cursor.line >= 1
        &&& self.cursor.column >= 1
        &&& self.cursor.line + self.code.len() <= usize::MAX
        &&& self.cursor.column + self.code.len() < usize::MAX
        &&& self.depth + self.code.len() <= usize::MAX
    }

    /// The state after the first `n` characters have been read.
    pub open spec fn advance(self, n: nat) -> StreamState {
        StreamState {
            code: self.code.skip(n as int),
            cursor: walk(self.cursor, self.code.take(n as int)),
            depth: (self.depth + n) as usize,
        }
    }

    /// The state after the blank characters at the head have been read.
    pub open spec fn trimmed(self) -> StreamState {
        self.advance(run_len(self.code, CharClass::Whitespace))
    }

    /// `later` comes after `self` on one stream: what is left is the end of
    /// what was there, so that only a prefix was read; the depth grew by
    /// exactly the number of characters read; and the position did not
    /// move backward.
    pub open spec fn precedes(self, later: StreamState) -> bool {
        &&& later.code.len() <= self.code.len()
        &&& later.depth - self.depth == self.code.len() - later.code.len()
        &&& not_before(self.cursor, later.cursor)
        &&& later.code == self.code.skip(self.code.len() - later.code.len())
    }

    /// Neither depth nor position goes back: a state that comes after
    /// another is at least as deep, and stands at the same place or behind.
    pub proof fn lemma_precedes_depth(self, later: StreamState)
        requires
            self.precedes(later),
        ensures
            later.depth >= self.depth,
            not_before(self.cursor, later.cursor),
    {
    }

    /// Reading characters keeps a state well formed, and the new state comes
    /// after the old one.
    pub proof fn lemma_advance(self, n: nat)
        requires
            self.wf(),
            n <= self.code.len(),
        ensures
            self.advance(n).wf(),
            self.precedes(self.advance(n)),
            self.advance(n).code.len() == self.code.len() - n,
            self.advance(n).depth == self.depth + n,
            self.advance(n).cursor.column <= self.cursor.column + n,
    {
        lemma_walk_bounds(self.cursor, self.code.take(n as int));
    }

    /// Reading nothing changes nothing.
    pub proof fn lemma_advance_zero(self)
        ensures
            self.advance(0) == self,
    {
        assert(self.code.skip(0) =~= self.code);
    }

    /// Reading `a` characters and then `b` more is reading `a + b` at once.
    pub proof fn lemma_advance_twice(self, a: nat, b: nat)
        requires
            self.wf(),
            a + b <= self.code.len(),
        ensures
            self.advance(a).advance(b) == self.advance(a + b),
    {
        let first = self.code.take(a as int);
        let second = self.code.skip(a as int).take(b as int);
        assert(self.code.take((a + b) as int) =~= first + second);
        assert(self.code.skip(a as int).skip(b as int) =~= self.code.skip((a + b) as int));
        lemma_walk_concat(self.cursor, first, second);
    }

    /// Skipping blanks keeps a state well formed; what is left does not
    /// start with a blank.
    pub proof fn lemma_trimmed(self)
        requires
            self.wf(),
        ensures
            self.trimmed().wf(),
            self.precedes(self.trimmed()),
            self.trimmed().code.len() > 0 ==> !crate::parse::chars::white_space(
                self.trimmed().code[0],
            ),
    {
        lemma_run_len(self.code, CharClass::Whitespace);
        self.lemma_advance(run_len(self.code, CharClass::Whitespace));
    }
}

/// The text not yet read, the position of its first character, and the
/// number of characters read so far. A copy is a snapshot: parsing on the
/// copy leaves the stream that it was taken from where it was.
#[derive(Copy, Clone, Debug)]
pub struct ParseStream<'a> {
    pub code: &'a str,
    pub cursor: CursorPosition,
    pub depth: ParsingDepth,
}

impl<'a> View for ParseStream<'a> {
    type V = StreamState;

    open spec fn view(&self) -> StreamState {
        StreamState { code: self.code@, cursor: self.cursor, depth: self.depth.0 }
    }
}

impl<'a> ParseStream<'a> {
    /// See [`StreamState::wf`].
    pub open spec fn wf(&self) -> bool {
        self@.wf()
    }

    /// A stream at the first character of `code`.
    pub fn new(code: &'a str) -> (r: Self)
        ensures
            r@ == StreamState::start(code@),
            r.code == code,
    {
        Self { code, cursor: CursorPosition::default(), depth: ParsingDepth(0) }
    }

    /// Tests at run time what the parsers require of a stream.
    pub fn is_well_formed(&self) -> (b: bool)
        ensures
            b == self.wf(),
    {
        let len = self.code.unicode_len();
        self.cursor.line >= 1 && self.cursor.column >= 1 && len <= usize::MAX - self.cursor.line
            && len < usize::MAX - self.cursor.column && len <= usize::MAX - self.depth.0
    }

    /// Whether everything has been read.
    pub fn is_empty(&self) -> (b: bool)
        ensures
            b == (self@.code.len() == 0),
    {
        self.code.is_empty()
    }

    /// Reads the blank characters at the head of the text.
    pub fn trim(&mut self)
        requires
            old(self).wf(),
        ensures
            final(self)@ == old(self)@.trimmed(),
            final(self).wf(),
            old(self)@.precedes(final(self)@),
    {
        let blanks = scan_run(self.code, CharClass::Whitespace);
        proof {
            self@.lemma_trimmed();
        }
        self.offset_by(blanks);
    }

    /// Reads `offset` characters: the position moves past each of them, and
    /// the depth grows by `offset`.
    pub fn offset_by(&mut self, offset: usize)
        requires
            old(self).wf(),
            offset <= old(self)@.code.len(),
        ensures
            final(self)@ == old(self)@.advance(offset as nat),
            final(self).wf(),
            old(self)@.precedes(final(self)@),
    {
        let len = self.code.unicode_len();
        let mut cursor = self.cursor;
        let mut i: usize = 0;
        while i < offset
            invariant
                i <= offset <= len,
                len == self.code@.len(),
                self.wf(),
                cursor == walk(self.cursor, self.code@.take(i as int)),
                self.cursor.line <= cursor.line <= self.cursor.line + i,
                1 <= cursor.column <= self.cursor.column + i,
            decreases offset - i,
        {
            let c = self.code.get_char(i);
            proof {
                let next = self.code@.take(i + 1);
                assert(next.drop_last() =~= self.code@.take(i as int));
            }
            if c == LINE_SEPARATOR {
                cursor.line = cursor.line + 1;
                cursor.column = 1;
            } else {
                cursor.column = cursor.column + 1;
            }
            i = i + 1;
        }
        proof {
            self@.lemma_advance(offset as nat);
        }
        self.cursor = cursor;
        self.code = self.code.substring_char(offset, len);
        self.depth = ParsingDepth(self.depth.0 + offset);
    }
}

} // verus!
