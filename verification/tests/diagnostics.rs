use entity_lang::error::{accent, paint, Error, Tone};
use entity_lang::parse::alternation::deepest_failure;
use entity_lang::parse::comments::{remove_non_documenting_comments, try_remove_non_documenting_comments};
use entity_lang::parse::outcome::ParseStreamError;
use entity_lang::parse::parse;
use entity_lang::parse::stream::ParsingDepth;
use entity_lang::span::{CursorPosition, Span};
use entity_lang::text::{decimal_text, split_lines};

fn at(line: usize, column: usize) -> CursorPosition {
    CursorPosition { line, column }
}

fn failure(depth: usize, expected: &str) -> ParseStreamError {
    ParseStreamError::new(Span::with_extra_column(at(1, 1), 1), ParsingDepth(depth), expected.to_string())
}

#[test]
fn deepest_of_three_failures_is_reported() {
    let best = deepest_failure(vec![failure(2, "a"), failure(5, "b"), failure(3, "c")]);
    assert_eq!(best.parsing_depth.0, 5);
    assert_eq!(best.expected, "b");
}

#[test]
fn of_equally_deep_failures_the_last_is_reported() {
    let best = deepest_failure(vec![failure(4, "a"), failure(7, "b"), failure(7, "c"), failure(1, "d")]);
    assert_eq!(best.expected, "c");
    let only = deepest_failure(vec![failure(0, "x")]);
    assert_eq!(only.expected, "x");
}

#[test]
fn span_cuts_the_text_it_covers() {
    let code = "entity Player = ;\nfn add(x: int) { }";
    let semicolon = Span::with_extra_column(at(1, 17), 1);
    assert_eq!(semicolon.apply(code), ";");
    let word = Span { start: at(1, 8), end: at(1, 14) };
    assert_eq!(word.apply(code), "Player");
    let to_blank = Span { start: at(1, 1), end: at(1, 14) };
    assert_eq!(to_blank.apply(code), "entity");
    let two_lines = Span { start: at(1, 8), end: at(2, 7) };
    assert_eq!(two_lines.apply(code), "Player = ;\nfn");
    assert_eq!(Span::eof().apply(code), "<EOF>");
    let beyond = Span::with_extra_column(at(3, 1), 1);
    assert_eq!(beyond.apply(code), "");
    let past_the_line = Span::with_extra_column(at(1, 40), 1);
    assert_eq!(past_the_line.apply(code), "");
}

#[test]
fn end_of_input_gets_a_place() {
    assert_eq!(Span::eof().eof_or("ab\ncd"), Span { start: at(2, 3), end: at(2, 3) });
    assert_eq!(Span::eof().eof_or("ab\n"), Span { start: at(2, 1), end: at(2, 1) });
    let real = Span::with_extra_column(at(1, 2), 1);
    assert_eq!(real.eof_or("ab\ncd"), real);
}

#[test]
fn lines_are_split_at_line_separators() {
    assert_eq!(split_lines("a\nbc\n\nd"), vec!["a", "bc", "", "d"]);
    assert_eq!(split_lines("a\n"), vec!["a"]);
    assert_eq!(split_lines("\n"), vec![""]);
    assert!(split_lines("").is_empty());
    assert_eq!(split_lines("a\r\nb\r\n\r\nc\r"), vec!["a", "b", "", "c\r"]);
    assert_eq!(split_lines("a\rb\n\r\r\n"), vec!["a\rb", "\r"]);
    let text = "a\r\nb\n\nc\r";
    assert_eq!(split_lines(text), text.lines().collect::<Vec<_>>());
}

#[test]
fn report_of_a_text_with_carriage_returns() {
    let code = "entity A = B;\r\nentity C = ;\r\n";
    let error = parse(code, "f").unwrap_err();
    assert_eq!(error.lines, ";");
    assert_eq!(
        error.render(false),
        "error: unexpected token `;`:\n --> f:2:12\n  |\n2 | entity C = ;\n  |            ^ expected at least one ident\n"
    );
}

#[test]
fn numbers_are_written_in_decimal() {
    assert_eq!(decimal_text(0), "0");
    assert_eq!(decimal_text(7), "7");
    assert_eq!(decimal_text(10), "10");
    assert_eq!(decimal_text(1203), "1203");
    assert_eq!(decimal_text(18446744073709551615), "18446744073709551615");
}

#[test]
fn tones_are_ansi_sequences() {
    assert_eq!(paint("x", Tone::Strong, true), "\u{1b}[1mx\u{1b}[0m");
    assert_eq!(paint("error", Tone::Alarm, true), "\u{1b}[1m\u{1b}[91merror\u{1b}[39m\u{1b}[0m");
    assert_eq!(paint("|", Tone::Frame, true), "\u{1b}[1m\u{1b}[34m|\u{1b}[39m\u{1b}[0m");
    assert_eq!(paint("line", Tone::Source, true), "\u{1b}[31mline\u{1b}[39m");
    assert_eq!(paint("tok", Tone::Accent, true), "\u{1b}[1m\u{1b}[32mtok\u{1b}[39m\u{1b}[0m");
    assert_eq!(paint("plain", Tone::Alarm, false), "plain");
}

#[test]
fn text_between_backticks_is_accented() {
    assert_eq!(accent("unexpected token `;`", Tone::Strong, false), "unexpected token `;`");
    assert_eq!(
        accent("a `b` c", Tone::Strong, true),
        "\u{1b}[1ma `\u{1b}[0m\u{1b}[1m\u{1b}[32mb\u{1b}[39m\u{1b}[0m\u{1b}[1m` c\u{1b}[0m"
    );
    assert_eq!(accent("one ` only", Tone::Source, true), "\u{1b}[31mone ` only\u{1b}[39m");
    assert_eq!(accent("none", Tone::Source, true), "\u{1b}[31mnone\u{1b}[39m");
}

#[test]
fn failure_becomes_a_diagnostic() {
    let code = "entity Player = ;";
    let error: Error = parse(code, "main.ecs").unwrap_err();
    assert_eq!(error.span, Span::with_extra_column(at(1, 17), 1));
    assert_eq!(error.message, "unexpected token `;`");
    assert_eq!(error.lines, ";");
    assert_eq!(error.clarifying, "expected at least one ident");
    assert!(error.help.is_empty());
    assert_eq!(error.filename, "main.ecs");
    assert_eq!(error.code, code);
    assert_eq!(
        error.render(false),
        "error: unexpected token `;`:\n --> main.ecs:1:17\n  |\n1 | entity Player = ;\n  |                 ^ expected at least one ident\n"
    );
}

#[test]
fn report_of_the_end_of_input() {
    let code = "entity A = B;\nmacro prefix \"abc";
    let error = parse(code, "f").unwrap_err();
    assert_eq!(error.message, "unexpected token `<EOF>`");
    assert_eq!(error.span, Span { start: at(2, 18), end: at(2, 18) });
    assert_eq!(
        error.render(false),
        "error: unexpected token `<EOF>`:\n --> f:2:18\n  |\n2 | macro prefix \"abc\n  |                  ^^^^^ expected the second closing delimiter - `\"`\n"
    );
}

#[test]
fn report_with_colours_and_hints() {
    let error = Error {
        span: Span { start: at(9, 3), end: at(10, 2) },
        message: "unexpected token `b`".to_string(),
        lines: "b\nc".to_string(),
        clarifying: "expected `x`".to_string(),
        help: vec!["try x".to_string(), "or y".to_string()],
        filename: "f".to_string(),
        code: "1\n2\n3\n4\n5\n6\n7\n8\na b\nc d".to_string(),
    };
    assert_eq!(
        error.render(false),
        "error: unexpected token `b`:\n  --> f:9:3\n   |\n 9 | a b\n   |   ^ expected `x`\n10 | c d\n   = help: try x\n   = help: or y\n"
    );
    let colored = error.render(true);
    assert!(colored.starts_with("\u{1b}[1m\u{1b}[91merror\u{1b}[39m\u{1b}[0m\u{1b}[1m:\u{1b}[0m "));
    assert!(colored.contains("\u{1b}[31ma b\u{1b}[39m"));
    assert!(colored.contains("\u{1b}[1m\u{1b}[32mx\u{1b}[39m\u{1b}[0m"));
}

#[test]
fn comments_are_taken_out() {
    let clean = remove_non_documenting_comments("a #( b #( c )# d )# e #( f )# g".to_string());
    assert_eq!(clean, "a  e  g");
    assert_eq!(remove_non_documenting_comments("no comment".to_string()), "no comment");
    assert_eq!(remove_non_documenting_comments("#()#".to_string()), "");
    assert_eq!(remove_non_documenting_comments("x )# y".to_string()), "x )# y");
}

#[test]
fn comment_that_is_not_closed_is_found_out() {
    assert_eq!(try_remove_non_documenting_comments("a #( b".to_string()), None);
    assert_eq!(try_remove_non_documenting_comments("#( #( )#".to_string()), None);
    assert_eq!(try_remove_non_documenting_comments("#( é )# ü".to_string()), Some(" ü".to_string()));
}
