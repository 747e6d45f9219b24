//! The diagnostic that a failed parse ends in, and its report as text.

use crate::parse::chars::{run_len, scan_run, CharClass};
use crate::parse::outcome::{Failure, ParseStreamError};
use crate::span::Span;
use crate::text::{
    decimal, lemma_decimal_len, lemma_decimal_short, line_or_empty, lines_of, push_decimal, push_repeated, repeated, split_lines,
};
use crate::text::join3;
use owo_colors::OwoColorize;
use vstd::prelude::*;
use vstd::string::*;

verus! {

/// What the user is shown when a text cannot be parsed.
#[derive(Clone, Debug)]
pub struct Error {
    /// Where the text did not fit.
    pub span: Span,
    /// The headline.
    pub message: String,
    /// The text found at that place.
    pub lines: String,
    /// What was expected there.
    pub clarifying: String,
    /// Hints, in order.
    pub help: Vec<String>,
    /// The name of the file that the text came from.
    pub filename: String,
    /// The whole text.
    pub code: String,
}

/// An [`Error`] as a mathematical value.
pub ghost struct Diagnostic {
    pub span: Span,
    pub message: Seq<char>,
    pub lines: Seq<char>,
    pub clarifying: Seq<char>,
    pub help: Seq<Seq<char>>,
    pub filename: Seq<char>,
    pub code: Seq<char>,
}

impl View for Error {
    type V = Diagnostic;

    open spec fn view(&self) -> Diagnostic {
        Diagnostic {
            span: self.span,
            message: self.message@,
            lines: self.lines@,
            clarifying: self.clarifying@,
            help: self.help.deep_view(),
            filename: self.filename@,
            code: self.code@,
        }
    }
}

/// The diagnostic for the failure `failure` of parsing `code`, which came
/// from the file `filename`: the text found where the failure points is
/// the unexpected token, and what the failure expected is the
/// clarification.
pub open spec fn diagnose(failure: Failure, code: Seq<char>, filename: Seq<char>) -> Diagnostic {
    Diagnostic {
        span: failure.span.eof_or_spec(code),
        message: "unexpected token `"@ + failure.span.excerpt(code) + "`"@,
        lines: failure.span.excerpt(code),
        clarifying: "expected "@ + failure.expected,
        help: failure.help,
        filename,
        code,
    }
}

impl ParseStreamError {
    /// Makes the diagnostic for this failure; see [`diagnose`].
    pub fn to_error(self, code: &str, filename: String) -> (r: Error)
        requires
            code@.len() + 2 <= usize::MAX,
        ensures
            r@ == diagnose(self@, code@, filename@),
    {
        let spanned = self.span.apply(code);
        let message = join3("unexpected token `", spanned.as_str(), "`");
        let clarifying = String::from_str("expected ").concat(self.expected.as_str());
        Error {
            span: self.span.eof_or(code),
            message,
            lines: spanned,
            clarifying,
            help: self.help,
            filename,
            code: String::from_str(code),
        }
    }
}

/// The ways in which a piece of a report is set off.
#[derive(Copy, Clone, Debug, PartialEq, Eq, Structural)]
pub enum Tone {
    /// Bold.
    Strong,
    /// Bright red and bold: the word `error`, the carets, the clarification.
    Alarm,
    /// Blue and bold: the frame around the source lines.
    Frame,
    /// Red: the source lines.
    Source,
    /// Green and bold: what stands between two backticks.
    Accent,
}

/// `text` between the control sequences that switch bold on and all
/// attributes off.
pub open spec fn bold_spec(text: Seq<char>) -> Seq<char> {
    "\u{1b}[1m"@ + text + "\u{1b}[0m"@
}

/// `text` between the control sequence with the number `code` of a
/// foreground colour and the one that switches to the default foreground.
pub open spec fn colour_spec(code: Seq<char>, text: Seq<char>) -> Seq<char> {
    "\u{1b}["@ + code + "m"@ + text + "\u{1b}[39m"@
}

/// `OwoColorize::bold` of owo-colors wraps a text so that it is written
/// between the control sequence `ESC [ 1 m` and the reset `ESC [ 0 m`.
#[verifier::external_body]
fn bold(text: &str) -> (r: String)
    ensures
        r@ == bold_spec(text@),
{
    format!("{}", text.bold())
}

/// `OwoColorize::bright_red` of owo-colors wraps a text so that it is
/// written between `ESC [ 91 m` and the default foreground `ESC [ 39 m`.
#[verifier::external_body]
fn bright_red(text: &str) -> (r: String)
    ensures
        r@ == colour_spec("91"@, text@),
{
    format!("{}", text.bright_red())
}

/// `OwoColorize::blue` of owo-colors wraps a text so that it is written
/// between `ESC [ 34 m` and the default foreground `ESC [ 39 m`.
#[verifier::external_body]
fn blue(text: &str) -> (r: String)
    ensures
        r@ == colour_spec("34"@, text@),
{
    format!("{}", text.blue())
}

/// `OwoColorize::red` of owo-colors wraps a text so that it is written
/// between `ESC [ 31 m` and the default foreground `ESC [ 39 m`.
#[verifier::external_body]
fn red(text: &str) -> (r: String)
    ensures
        r@ == colour_spec("31"@, text@),
{
    format!("{}", text.red())
}

/// `OwoColorize::green` of owo-colors wraps a text so that it is written
/// between `ESC [ 32 m` and the default foreground `ESC [ 39 m`.
#[verifier::external_body]
fn green(text: &str) -> (r: String)
    ensures
        r@ == colour_spec("32"@, text@),
{
    format!("{}", text.green())
}

/// `text` set off in `tone`; where colours are off, `text` itself.
pub open spec fn painted(text: Seq<char>, tone: Tone, colored: bool) -> Seq<char> {
    if !colored {
        text
    } else {
        match tone {
            Tone::Strong => bold_spec(text),
            Tone::Alarm => bold_spec(colour_spec("91"@, text)),
            Tone::Frame => bold_spec(colour_spec("34"@, text)),
            Tone::Source => colour_spec("31"@, text),
            Tone::Accent => bold_spec(colour_spec("32"@, text)),
        }
    }
}

/// Sets `text` off in `tone`, or hands it back where colours are off.
pub fn paint(text: &str, tone: Tone, colored: bool) -> (r: String)
    ensures
        r@ == painted(text@, tone, colored),
{
    if !colored {
        String::from_str(text)
    } else {
        match tone {
            Tone::Strong => bold(text),
            Tone::Alarm => bold(bright_red(text).as_str()),
            Tone::Frame => bold(blue(text).as_str()),
            Tone::Source => red(text),
            Tone::Accent => bold(green(text).as_str()),
        }
    }
}

/// The places of the first backtick of `text` and of the next one after
/// it, if `text` has two.
pub open spec fn accent_bounds(text: Seq<char>) -> Option<(nat, nat)> {
    let open = run_len(text, CharClass::Except('`'));
    let inner = run_len(text.skip(open as int + 1), CharClass::Except('`'));
    if open < text.len() && open + 1 + inner < text.len() {
        Some((open, open + 1 + inner))
    } else {
        None
    }
}

/// `text` in `tone`, but what stands between its first two backticks in
/// the accent.
pub open spec fn accented(text: Seq<char>, tone: Tone, colored: bool) -> Seq<char> {
    match accent_bounds(text) {
        Some((open, close)) => painted(text.take(open as int + 1), tone, colored) + painted(
            text.subrange(open as int + 1, close as int),
            Tone::Accent,
            colored,
        ) + painted(text.skip(close as int), tone, colored),
        None => painted(text, tone, colored),
    }
}

/// Sets `text` off in `tone`, and what stands between its first two
/// backticks in the accent.
pub fn accent(text: &str, tone: Tone, colored: bool) -> (r: String)
    ensures
        r@ == accented(text@, tone, colored),
{
    let len = text.unicode_len();
    let open = scan_run(text, CharClass::Except('`'));
    if open >= len {
        return paint(text, tone, colored);
    }
    let tail = text.substring_char(open + 1, len);
    let inner = scan_run(tail, CharClass::Except('`'));
    if inner >= len - open - 1 {
        return paint(text, tone, colored);
    }
    let close = open + 1 + inner;
    let before = text.substring_char(0, open + 1);
    let between = text.substring_char(open + 1, close);
    let after = text.substring_char(close, len);
    let mut out = paint(before, tone, colored);
    out.append(paint(between, Tone::Accent, colored).as_str());
    out.append(paint(after, tone, colored).as_str());
    out
}

impl Diagnostic {
    /// The greater of the two line numbers of the range.
    pub open spec fn last_line(self) -> nat {
        if self.span.start.line >= self.span.end.line {
            self.span.start.line as nat
        } else {
            self.span.end.line as nat
        }
    }

    /// The width of the margin to the left of the frame: one column more
    /// than the greatest line number takes.
    pub open spec fn gutter(self) -> nat {
        decimal(self.last_line()).len() + 1
    }

    /// `error: ` and the message, with a colon behind it.
    pub open spec fn headline(self, colored: bool) -> Seq<char> {
        painted("error"@, Tone::Alarm, colored) + painted(":"@, Tone::Strong, colored) + " "@
            + accented(self.message, Tone::Strong, colored) + painted(":"@, Tone::Strong, colored)
            + "\n"@
    }

    /// The arrow, and file, line and column of the start of the range.
    pub open spec fn location(self, colored: bool) -> Seq<char> {
        repeated(' ', (self.gutter() - 1) as nat) + painted("-->"@, Tone::Frame, colored) + " "@
            + self.filename + ":"@ + decimal(self.span.start.line as nat) + ":"@ + decimal(
            self.span.start.column as nat,
        ) + "\n"@
    }

    /// The margin and the frame, with `rest` behind them.
    pub open spec fn framed(self, rest: Seq<char>, colored: bool) -> Seq<char> {
        repeated(' ', self.gutter()) + painted("|"@, Tone::Frame, colored) + rest + "\n"@
    }

    /// The number of row `i`: rows are numbered from the line on which the
    /// range starts.
    pub open spec fn row_number(self, i: nat) -> nat {
        (self.span.start.line + i) as nat
    }

    /// Row `i` of the excerpt: its number, flush right in the margin, the
    /// frame, and the full source line of that number.
    pub open spec fn source_row(self, i: nat, colored: bool) -> Seq<char> {
        let number = decimal(self.row_number(i));
        let pad = if self.gutter() > number.len() + 1 {
            (self.gutter() - number.len() - 1) as nat
        } else {
            0
        };
        repeated(' ', pad) + painted(number, Tone::Frame, colored) + " "@ + painted(
            "|"@,
            Tone::Frame,
            colored,
        ) + " "@ + painted(
            line_or_empty(lines_of(self.code), self.row_number(i) - 1),
            Tone::Source,
            colored,
        ) + "\n"@
    }

    /// What stands behind the frame under the first row: carets under the
    /// text found, as many as its first line has characters, and the
    /// clarification.
    pub open spec fn pointer(self, colored: bool) -> Seq<char> {
        repeated(' ', self.span.start.column as nat) + painted(
            repeated('^', line_or_empty(lines_of(self.lines), 0).len()),
            Tone::Alarm,
            colored,
        ) + " "@ + accented(self.clarifying, Tone::Alarm, colored)
    }

    /// The first `upto` rows of the excerpt, with the pointer under the
    /// first of them.
    pub open spec fn rows(self, upto: nat, colored: bool) -> Seq<char>
        decreases upto,
    {
        if upto == 0 {
            Seq::empty()
        } else if upto == 1 {
            self.source_row(0, colored) + self.framed(self.pointer(colored), colored)
        } else {
            self.rows((upto - 1) as nat, colored) + self.source_row((upto - 1) as nat, colored)
        }
    }

    /// The first `upto` hints, one on a line.
    pub open spec fn help_rows(self, upto: nat, colored: bool) -> Seq<char>
        decreases upto,
    {
        if upto == 0 {
            Seq::empty()
        } else {
            self.help_rows((upto - 1) as nat, colored) + repeated(' ', self.gutter()) + painted(
                "="@,
                Tone::Frame,
                colored,
            ) + " help: "@ + self.help[upto - 1] + "\n"@
        }
    }

    /// The whole report: headline, location, an empty framed line, the rows
    /// of the excerpt with the pointer under the first, and the hints.
    /// Where the excerpt is empty the pointer stands alone.
    pub open spec fn report(self, colored: bool) -> Seq<char> {
        let shown = lines_of(self.lines).len();
        self.headline(colored) + self.location(colored) + self.framed(Seq::empty(), colored) + (
        if shown == 0 {
            self.framed(self.pointer(colored), colored)
        } else {
            self.rows(shown, colored)
        }) + self.help_rows(self.help.len(), colored)
    }
}

impl Error {
    /// The width of the margin; see [`Diagnostic::gutter`].
    fn gutter(&self) -> (r: usize)
        ensures
            r == self@.gutter(),
            r >= 2,
    {
        let last = if self.span.start.line >= self.span.end.line {
            self.span.start.line
        } else {
            self.span.end.line
        };
        let mut number = String::new();
        push_decimal(&mut number, last as u128);
        proof {
            lemma_decimal_short(last as nat);
            lemma_decimal_len(last as nat);
        }
        number.as_str().unicode_len() + 1
    }

    /// See [`Diagnostic::headline`].
    fn headline(&self, colored: bool) -> (r: String)
        ensures
            r@ == self@.headline(colored),
    {
        let mut out = paint("error", Tone::Alarm, colored);
        out.append(paint(":", Tone::Strong, colored).as_str());
        out.append(" ");
        out.append(accent(self.message.as_str(), Tone::Strong, colored).as_str());
        out.append(paint(":", Tone::Strong, colored).as_str());
        out.append("\n");
        out
    }

    /// See [`Diagnostic::location`].
    fn location(&self, colored: bool) -> (r: String)
        ensures
            r@ == self@.location(colored),
    {
        let gutter = self.gutter();
        let mut out = String::new();
        push_repeated(&mut out, ' ', gutter - 1);
        out.append(paint("-->", Tone::Frame, colored).as_str());
        out.append(" ");
        out.append(self.filename.as_str());
        out.append(":");
        push_decimal(&mut out, self.span.start.line as u128);
        out.append(":");
        push_decimal(&mut out, self.span.start.column as u128);
        out.append("\n");
        out
    }

    /// See [`Diagnostic::framed`].
    fn framed(&self, rest: &str, colored: bool) -> (r: String)
        ensures
            r@ == self@.framed(rest@, colored),
    {
        let mut out = String::new();
        push_repeated(&mut out, ' ', self.gutter());
        out.append(paint("|", Tone::Frame, colored).as_str());
        out.append(rest);
        out.append("\n");
        out
    }

    /// See [`Diagnostic::source_row`].
    fn source_row(&self, i: usize, lines: &Vec<&str>, colored: bool) -> (r: String)
        requires
            lines.deep_view() == lines_of(self@.code),
        ensures
            r@ == self@.source_row(i as nat, colored),
    {
        let gutter = self.gutter();
        let row: u128 = self.span.start.line as u128 + i as u128;
        let mut number = String::new();
        push_decimal(&mut number, row);
        let width = number.as_str().unicode_len();
        let pad = if width < gutter - 1 {
            gutter - width - 1
        } else {
            0
        };
        let full: &str = if row >= 1 && row - 1 < lines.len() as u128 {
            lines[(row - 1) as usize]
        } else {
            let none: &str = "";
            proof {
                reveal_strlit("");
            }
            none
        };
        let mut out = String::new();
        push_repeated(&mut out, ' ', pad);
        out.append(paint(number.as_str(), Tone::Frame, colored).as_str());
        out.append(" ");
        out.append(paint("|", Tone::Frame, colored).as_str());
        out.append(" ");
        out.append(paint(full, Tone::Source, colored).as_str());
        out.append("\n");
        out
    }

    /// See [`Diagnostic::pointer`].
    fn pointer(&self, shown: &Vec<&str>, colored: bool) -> (r: String)
        requires
            shown.deep_view() == lines_of(self@.lines),
        ensures
            r@ == self@.pointer(colored),
    {
        let width = if shown.len() > 0 {
            shown[0].unicode_len()
        } else {
            0
        };
        let mut carets = String::new();
        push_repeated(&mut carets, '^', width);
        let mut out = String::new();
        push_repeated(&mut out, ' ', self.span.start.column);
        out.append(paint(carets.as_str(), Tone::Alarm, colored).as_str());
        out.append(" ");
        out.append(accent(self.clarifying.as_str(), Tone::Alarm, colored).as_str());
        out
    }

    /// See [`Diagnostic::help_rows`].
    fn help_rows(&self, colored: bool) -> (r: String)
        ensures
            r@ == self@.help_rows(self@.help.len(), colored),
    {
        let gutter = self.gutter();
        let mut out = String::new();
        let mut i: usize = 0;
        while i < self.help.len()
            invariant
                i <= self.help@.len(),
                gutter == self@.gutter(),
                self@.help.len() == self.help@.len(),
                out@ == self@.help_rows(i as nat, colored),
            decreases self.help@.len() - i,
        {
            push_repeated(&mut out, ' ', gutter);
            out.append(paint("=", Tone::Frame, colored).as_str());
            out.append(" help: ");
            out.append(self.help[i].as_str());
            out.append("\n");
            i = i + 1;
        }
        out
    }

    /// The report of this diagnostic as text, set off with colours if
    /// `colored` and plain if not; see [`Diagnostic::report`].
    pub fn render(&self, colored: bool) -> (r: String)
        ensures
            r@ == self@.report(colored),
    {
        let shown = split_lines(self.lines.as_str());
        let lines = split_lines(self.code.as_str());
        let pointer = self.pointer(&shown, colored);
        let mut out = self.headline(colored);
        out.append(self.location(colored).as_str());
        out.append(self.framed("", colored).as_str());
        proof {
            reveal_strlit("");
        }
        let ghost head = out@;
        if shown.len() == 0 {
            out.append(self.framed(pointer.as_str(), colored).as_str());
        } else {
            let mut i: usize = 0;
            while i < shown.len()
                invariant
                    i <= shown@.len(),
                    lines.deep_view() == lines_of(self@.code),
                    pointer@ == self@.pointer(colored),
                    out@ == head + self@.rows(i as nat, colored),
                decreases shown@.len() - i,
            {
                out.append(self.source_row(i, &lines, colored).as_str());
                if i == 0 {
                    out.append(self.framed(pointer.as_str(), colored).as_str());
                }
                i = i + 1;
            }
        }
        out.append(self.help_rows(colored).as_str());
        out
    }
}

} // verus!
