use entity_lang::parse::outcome::Parse;
use entity_lang::parse::punctuated::Punctuated;
use entity_lang::parse::render::Render;
use entity_lang::parse::signature::{Arg, Signature};
use entity_lang::parse::span::{DoubleQuotedString, Ident};
use entity_lang::parse::stmt::macros::LiteralMacroStmtBody;
use entity_lang::parse::stmt::ty::TyStmtBody;
use entity_lang::parse::stream::{ParseStream, ParsingDepth};
use entity_lang::parse::ty::{Muts, Type};
use entity_lang::parse::typed_variable::TypedVariables;
use entity_lang::parse::x_times::XTimes;
use entity_lang::parse::expr::Expr;
use entity_lang::span::{CursorPosition, Span};

fn at(line: usize, column: usize) -> CursorPosition {
    CursorPosition { line, column }
}

fn same_place(a: &ParseStream, b: &ParseStream) -> bool {
    a.code == b.code && a.cursor == b.cursor && a.depth == b.depth
}

#[test]
fn new_stream_stands_at_the_first_character() {
    let stream = ParseStream::new("abc");
    assert_eq!(stream.cursor, CursorPosition::default());
    assert_eq!(stream.cursor, at(1, 1));
    assert_eq!(stream.depth, ParsingDepth(0));
    assert!(!stream.is_empty());
    assert!(stream.is_well_formed());
    assert!(ParseStream::new("").is_empty());
    assert_ne!(CursorPosition::eof(), CursorPosition::default());
    assert_eq!(CursorPosition::eof(), at(0, 0));
}

#[test]
fn offset_by_moves_line_and_column_with_the_characters() {
    let mut stream = ParseStream::new("ab\ncdé\n\nx");
    stream.offset_by(2);
    assert_eq!((stream.cursor, stream.depth.0, stream.code), (at(1, 3), 2, "\ncdé\n\nx"));
    stream.offset_by(1);
    assert_eq!((stream.cursor, stream.depth.0), (at(2, 1), 3));
    stream.offset_by(3);
    assert_eq!((stream.cursor, stream.depth.0, stream.code), (at(2, 4), 6, "\n\nx"));
    stream.offset_by(2);
    assert_eq!((stream.cursor, stream.depth.0, stream.code), (at(4, 1), 8, "x"));
    stream.offset_by(0);
    assert_eq!((stream.cursor, stream.depth.0), (at(4, 1), 8));
    stream.offset_by(1);
    assert!(stream.is_empty());
    assert_eq!(stream.cursor, at(4, 2));
}

#[test]
fn trim_reads_blanks_only() {
    let mut stream = ParseStream::new(" \t\n  x y");
    stream.trim();
    assert_eq!((stream.cursor, stream.depth.0, stream.code), (at(2, 3), 5, "x y"));
    stream.trim();
    assert_eq!((stream.cursor, stream.depth.0, stream.code), (at(2, 3), 5, "x y"));
}

#[test]
fn extend_column_by_keeps_the_line() {
    assert_eq!(at(3, 4).extend_column_by(5), at(3, 9));
    assert_eq!(Span::with_extra_column(at(3, 4), 2), Span { start: at(3, 4), end: at(3, 6) });
    assert_eq!(Span::with_shrunk_column(at(3, 4), 1), Span { start: at(3, 3), end: at(3, 4) });
}

#[test]
fn ident_fails_on_what_is_no_letter_and_at_the_end() {
    let mut stream = ParseStream::new("  1abc");
    let before = stream;
    let error = Ident::parse(&mut stream).unwrap_err();
    assert_eq!(error.expected, "ident");
    assert_eq!(error.span, Span::with_extra_column(at(1, 3), 1));
    assert_eq!(error.parsing_depth.0, 2);
    assert!(same_place(&stream, &before));

    let mut empty = ParseStream::new("   ");
    let error = Ident::parse(&mut empty).unwrap_err();
    assert_eq!(error.span, Span::eof());
    assert_eq!(error.parsing_depth.0, 3);
    assert_eq!(empty.depth.0, 0);
}

#[test]
fn ident_takes_letters_and_numerals() {
    let mut stream = ParseStream::new("éa1_b");
    let ident = Ident::parse(&mut stream).unwrap();
    assert_eq!(ident.name, "éa1");
    assert_eq!(stream.code, "_b");
    assert_eq!(stream.depth.0, 3);
    assert_eq!(ident.span(), Span { start: at(1, 1), end: at(1, 4) });
    let made = Ident::new("name".to_string(), at(2, 5));
    assert_eq!(made.span(), Span { start: at(2, 5), end: at(2, 9) });
    let quoted = DoubleQuotedString::new("ab".to_string(), at(1, 1));
    assert_eq!(quoted.span(), Span { start: at(1, 1), end: at(1, 5) });
}

#[test]
fn keyword_is_a_whole_name() {
    let mut stream = ParseStream::new(" humans must die");
    let before = stream;
    let error = stream.keyword("human").unwrap_err();
    assert_eq!(error.expected, "keyword `human`");
    assert_eq!(error.span, Span { start: at(1, 2), end: at(1, 8) });
    assert_eq!(error.parsing_depth.0, 0);
    assert!(same_place(&stream, &before));
    assert!(stream.keyword("humans").is_ok());
    assert_eq!(stream.code, " must die");
    let error = ParseStream::new("+").keyword("fn").unwrap_err();
    assert_eq!(error.expected, "keyword `fn`");
    assert_eq!(error.span, Span::with_extra_column(at(1, 1), 1));
}

#[test]
fn next_punct_takes_the_first_token_of_the_table() {
    let mut stream = ParseStream::new(" ->-==&x");
    assert_eq!(stream.next_punct().unwrap(), ("->", Span { start: at(1, 2), end: at(1, 4) }));
    assert_eq!(stream.next_punct().unwrap().0, "-");
    assert_eq!(stream.next_punct().unwrap().0, "==");
    assert_eq!(stream.next_punct().unwrap().0, "&");
    let before = stream;
    let error = stream.next_punct().unwrap_err();
    assert_eq!(error.expected, "a punctuation token");
    assert_eq!(error.span, Span::with_extra_column(at(1, 8), 1));
    assert!(same_place(&stream, &before));
}

#[test]
fn punct_reports_the_token_found_instead() {
    let mut stream = ParseStream::new("  ; x");
    let error = stream.punct("=").unwrap_err();
    assert_eq!(error.expected, "`=`");
    assert_eq!(error.span, Span { start: at(1, 3), end: at(1, 4) });
    assert_eq!(error.parsing_depth.0, 0);
    assert_eq!(stream.depth.0, 0);
    let error = ParseStream::new("x").punct(";").unwrap_err();
    assert_eq!(error.expected, "`;`");
}

#[test]
fn enclosed_text_keeps_its_escapes() {
    let mut stream = ParseStream::new("  \"a\\\"b\" rest");
    let (text, start) = stream.enclosed('"').unwrap();
    assert_eq!(text, "a\\\"b");
    assert_eq!(start, at(1, 4));
    assert_eq!(stream.code, " rest");
    assert_eq!(stream.depth.0, 8);

    let mut doubled = ParseStream::new("\"a\\\\\" b\"");
    let (text, _) = doubled.enclosed('"').unwrap();
    assert_eq!(text, "a\\\\\" b");

    let mut quoted = ParseStream::new(" 'x' y");
    assert_eq!(quoted.enclosed('\'').unwrap(), ("x".to_string(), at(1, 3)));
    let mut string = ParseStream::new(" \"km\" ");
    let literal = string.double_quoted_string().unwrap();
    assert_eq!(literal.value, "km");
    assert_eq!(literal.span(), Span { start: at(1, 2), end: at(1, 6) });
}

#[test]
fn enclosed_text_wants_both_delimiters() {
    let mut stream = ParseStream::new("abc\"");
    let error = stream.enclosed('"').unwrap_err();
    assert_eq!(error.expected, "`\"`-enclosed string");
    assert_eq!(error.span, Span::with_extra_column(at(1, 1), 1));
    let mut escaped = ParseStream::new("\"abc\\\"");
    let before = escaped;
    let error = escaped.enclosed('"').unwrap_err();
    assert_eq!(error.expected, "the second closing delimiter - `\"`");
    assert_eq!(error.span, Span::eof());
    assert_eq!(error.parsing_depth.0, 6);
    assert!(same_place(&escaped, &before));
}

#[test]
fn number_must_fit_in_eight_bits() {
    assert_eq!(ParseStream::new(" 255,").number_u8().unwrap(), 255);
    assert_eq!(ParseStream::new("0").number_u8().unwrap(), 0);
    let mut zeros = ParseStream::new("007 x");
    assert_eq!(zeros.number_u8().unwrap(), 7);
    assert_eq!(zeros.code, " x");
    let mut mixed = ParseStream::new("12ab");
    assert_eq!(mixed.number_u8().unwrap(), 12);
    assert_eq!(mixed.code, "ab");
    for text in ["256", "1000", "99999999999999999999999999", "", "x", "-1"] {
        let mut stream = ParseStream::new(text);
        let error = stream.number_u8().unwrap_err();
        assert_eq!(error.expected, "an `u8` number");
        assert_eq!(error.span, Span::with_extra_column(at(1, 1), 1));
        assert_eq!(stream.code, text);
    }
}

#[test]
fn newline_wants_a_blank_rest_of_the_line() {
    let mut stream = ParseStream::new("  \t\nnext");
    stream.newline().unwrap();
    assert_eq!(stream.code, "\nnext");
    assert_eq!(stream.cursor, at(1, 4));
    let error = ParseStream::new("  x \n").newline().unwrap_err();
    assert_eq!(error.expected, "newline");
    assert_eq!(error.span, Span::with_extra_column(at(1, 3), 1));
    let error = ParseStream::new("abc").newline().unwrap_err();
    assert_eq!(error.span, Span { start: at(1, 1), end: at(1, 4) });
}

#[test]
fn one_or_more_and_as_many_as_there_are() {
    let mut stream = ParseStream::new(" a b c: d");
    let names: Vec<Ident> = stream.one_or_more().unwrap();
    assert_eq!(names.iter().map(|n| n.name.as_str()).collect::<Vec<_>>(), vec!["a", "b", "c"]);
    assert_eq!(stream.code, ": d");
    let before = stream;
    let error = stream.one_or_more::<Ident>().unwrap_err();
    assert_eq!(error.expected, "ident");
    assert!(same_place(&stream, &before));
    let none: Vec<Ident> = stream.parse_until_error().unwrap();
    assert!(none.is_empty());
    let mut more = ParseStream::new("x y ;");
    assert_eq!(more.parse_until_error::<Ident>().unwrap().len(), 2);
    assert_eq!(more.code, " ;");
}

#[test]
fn punctuated_on_empty_input() {
    let mut stream = ParseStream::new("");
    let error = Punctuated::<Ident>::parse(&mut stream, ',', false).unwrap_err();
    assert_eq!(error.expected, "at least one ident");
    assert_eq!(error.span, Span::eof());
    let empty = Punctuated::<Ident>::parse(&mut stream, ',', true).unwrap();
    assert!(empty.0.is_empty());
    assert_eq!(stream.depth.0, 0);
}

#[test]
fn punctuated_reads_a_trailing_separator() {
    let mut stream = ParseStream::new("a, b, )");
    let names = Punctuated::<Ident>::parse(&mut stream, ',', false).unwrap();
    assert_eq!(names.0.len(), 2);
    assert_eq!(stream.code, " )");
    let mut other = ParseStream::new("a b");
    assert_eq!(Punctuated::<Ident>::parse(&mut other, ',', false).unwrap().0.len(), 1);
    assert_eq!(other.code, " b");
}

#[test]
fn punctuated_names_come_back_from_their_text() {
    for (text, separator) in [("Health + Position+Speed", '+'), ("a,b", ','), ("one", '|')] {
        let mut stream = ParseStream::new(text);
        let first = Punctuated::<Ident>::parse(&mut stream, separator, false).unwrap();
        let written = first.debug(separator);
        let mut again = ParseStream::new(&written);
        let second = Punctuated::<Ident>::parse(&mut again, separator, false).unwrap();
        assert!(again.is_empty());
        let names = |p: &Punctuated<Ident>| p.0.iter().map(|i| i.name.clone()).collect::<Vec<_>>();
        assert_eq!(names(&first), names(&second));
    }
    let mut stream = ParseStream::new("Health + Position+Speed");
    let names = Punctuated::<Ident>::parse(&mut stream, '+', false).unwrap();
    assert_eq!(names.debug('+'), "Health+ Position+ Speed");
}

#[test]
fn embraced_block_and_its_failures() {
    let mut stream = ParseStream::new(" [ a; b ] x");
    let names = stream.embraced::<Ident>('[', ']', ';', false).unwrap();
    assert_eq!(names.0.len(), 2);
    assert_eq!(stream.code, " x");

    let mut empty = ParseStream::new("()");
    assert!(empty.embraced::<Ident>('(', ')', ',', true).unwrap().0.is_empty());
    let error = ParseStream::new("()").embraced::<Ident>('(', ')', ',', false).unwrap_err();
    assert_eq!(error.expected, "at least one ident");

    let mut unopened = ParseStream::new(" a)");
    let before = unopened;
    let error = unopened.embraced::<Ident>('(', ')', ',', true).unwrap_err();
    assert_eq!(error.expected, "`( ... )` block");
    assert_eq!(error.span, Span::with_extra_column(at(1, 2), 1));
    assert!(same_place(&unopened, &before));

    let error = ParseStream::new(" (a, b").embraced::<Ident>('(', ')', ',', true).unwrap_err();
    assert_eq!(error.expected, "the second closing delimiter - `)`");
    assert_eq!(error.span, Span::eof());
    assert_eq!(error.parsing_depth.0, 1);
    let error = ParseStream::new("(a b)").embraced::<Ident>('(', ')', ',', true).unwrap_err();
    assert_eq!(error.expected, "the second closing delimiter - `)`");
    assert_eq!(error.span, Span::with_extra_column(at(1, 4), 1));

    let mut braces = ParseStream::new("{ a, b }");
    assert_eq!(braces.embraced_in_figures::<Ident>(',', false).unwrap().0.len(), 2);
    let mut single = ParseStream::new("= a, b");
    assert_eq!(single.embraced_in_figures_or_single::<Ident>(',', false).unwrap().0.len(), 1);
    assert_eq!(single.code, ", b");
}

#[test]
fn multiplicity_suffix() {
    let mut counted = ParseStream::new("int x 3,");
    let value = XTimes::<Type, false>::parse(&mut counted).unwrap();
    assert_eq!((value.it.name.name.as_str(), value.times), ("int", 3));
    assert_eq!(counted.code, ",");

    let mut plain = ParseStream::new("int, y");
    let value = XTimes::<Type, true>::parse(&mut plain).unwrap();
    assert_eq!(value.times, 1);
    assert_eq!(plain.code, ", y");

    let mut owed = ParseStream::new("int, y");
    let before = owed;
    let error = XTimes::<Type, false>::parse(&mut owed).unwrap_err();
    assert_eq!(error.expected, "keyword `x`");
    assert!(same_place(&owed, &before));

    let mut zero = ParseStream::new("int x 0");
    let before = zero;
    let error = XTimes::<Type, true>::parse(&mut zero).unwrap_err();
    assert_eq!(error.expected, "non-zero amount");
    assert_eq!(error.span, Span { start: at(1, 6), end: at(1, 8) });
    assert_eq!(error.parsing_depth.0, 7);
    assert!(same_place(&zero, &before));

    let error = XTimes::<Type, true>::parse(&mut ParseStream::new("int x y")).unwrap_err();
    assert_eq!(error.expected, "an `u8` number");
}

#[test]
fn signs_before_a_type() {
    let mut stream = ParseStream::new("&mut & *mut int");
    let ty = Type::parse(&mut stream).unwrap();
    assert_eq!(ty.refs, Muts { len: 2, muts: 0b01 });
    assert_eq!(ty.ptrs, Muts { len: 1, muts: 0b1 });
    assert_eq!(ty.name.name, "int");
    assert_eq!(ty.span, Span { start: at(1, 1), end: at(1, 16) });
    assert!(!ty.is_pure());
    assert_eq!(ty.render(), "&mut &*mut int");
    assert!(Type::parse(&mut ParseStream::new(" int")).unwrap().is_pure());
    assert_eq!(Muts::zero(), Muts { len: 0, muts: 0 });
    assert_eq!(Muts::single(), Muts { len: 1, muts: 0 });

    let mut eight = ParseStream::new("* * * * * * * *mut x");
    let run = Muts::parse(&mut eight, '*').unwrap();
    assert_eq!(run, Muts { len: 8, muts: 0b1000_0000 });
    let mut nine = ParseStream::new("*********x");
    let before = nine;
    let error = Muts::parse(&mut nine, '*').unwrap_err();
    assert_eq!(error.expected, "not an extra `*` token");
    assert_eq!(error.span, Span { start: at(1, 9), end: at(1, 10) });
    assert!(same_place(&nine, &before));
}

#[test]
fn parameters_named_and_unnamed() {
    let mut stream = ParseStream::new("(x y: int, &mut str x 2) -> *T rest");
    let sig = Signature::parse(&mut stream).unwrap();
    assert_eq!(sig.args.0.len(), 2);
    assert!(matches!(sig.args.0[0], Arg::Named(_)));
    assert!(matches!(sig.args.0[1], Arg::Unnamed(_)));
    assert_eq!(sig.render(), "(x y: int, &mut str x 2) -> *T");
    assert_eq!(stream.code, " rest");

    let mut named_first = ParseStream::new("x: int");
    match Arg::parse(&mut named_first).unwrap() {
        Arg::Named(named) => assert_eq!(named.span(), Span { start: at(1, 1), end: at(1, 7) }),
        Arg::Unnamed(_) => panic!("the second form was taken"),
    }
    assert!(named_first.is_empty());

    let mut neither = ParseStream::new("  123");
    let before = neither;
    let error = Arg::parse(&mut neither).unwrap_err();
    assert_eq!(error.expected, "either named(x: T or x y <...>: T) or unnamed(T or T x N) parameters");
    assert_eq!(error.span, Span::with_extra_column(at(1, 3), 1));
    assert!(same_place(&neither, &before));

    let variables = TypedVariables::parse(&mut ParseStream::new("a b: &T")).unwrap();
    assert_eq!(variables.render(), "a b: &T");
    let unit = Signature::parse(&mut ParseStream::new("()")).unwrap();
    assert!(unit.return_ty.is_none());
    assert_eq!(unit.render(), "()");
}

#[test]
fn expressions_nest() {
    let mut stream = ParseStream::new("f({ g({ }) }, h({ })) tail");
    let expr = Expr::parse(&mut stream).unwrap();
    assert_eq!(expr.render(), "f({ g({ }) }, h({ }))");
    assert_eq!(stream.code, " tail");
    let mut body = ParseStream::new(" = f({ })");
    assert!(matches!(Expr::single_or_block(&mut body).unwrap(), Expr::Call(_)));
    let mut block = ParseStream::new(" { f({ }) }");
    assert!(matches!(Expr::single_or_block(&mut block).unwrap(), Expr::Block(_)));

    let mut bad = ParseStream::new("f(x)");
    let before = bad;
    let error = Expr::parse(&mut bad).unwrap_err();
    assert_eq!(error.expected, "at least one `(`");
    assert!(same_place(&bad, &before));
    let error = Expr::parse(&mut ParseStream::new("{ f({ }) ")).unwrap_err();
    assert_eq!(error.expected, "`}`");
}

#[test]
fn type_body_is_a_record_or_a_choice() {
    let mut record = ParseStream::new("x: T + y z: U\n");
    assert!(matches!(TyStmtBody::parse(&mut record).unwrap(), TyStmtBody::Struct(_)));
    let mut choice = ParseStream::new("None | Some int  \nnext");
    assert!(matches!(TyStmtBody::parse(&mut choice).unwrap(), TyStmtBody::Enum(_)));
    assert_eq!(choice.code, "\nnext");
    let mut neither = ParseStream::new("A | B c");
    let before = neither;
    let error = TyStmtBody::parse(&mut neither).unwrap_err();
    assert_eq!(error.expected, "newline");
    assert!(same_place(&neither, &before));
}

#[test]
fn macro_body_wants_one_parameter_of_a_literal_type() {
    let parse = |text: &str| LiteralMacroStmtBody::parse(&mut ParseStream::new(text));
    assert!(parse("prefix \"0x\" (&str) -> int { }").is_ok());
    assert!(parse("suffix \"f\" (value: float) { }").is_ok());
    let error = parse("suffix \"f\" () { }").unwrap_err();
    assert_eq!(error.expected, "only one argument for an affix operator");
    assert_eq!(error.span, Span::with_extra_column(at(1, 11), 1));
    assert_eq!(error.parsing_depth.0, 13);
    let error = parse("suffix \"f\" (int, char) { }").unwrap_err();
    assert_eq!(error.expected, "only one argument for an affix operator");
    assert_eq!(error.span, Span { start: at(1, 17), end: at(1, 22) });
    let error = parse("suffix \"f\" (a b: int) { }").unwrap_err();
    assert_eq!(error.span, Span { start: at(1, 13), end: at(1, 21) });
    let error = parse("suffix \"f\" (int x 2) { }").unwrap_err();
    assert_eq!(error.expected, "only one argument for an affix operator");
    let error = parse("suffix \"f\" (str) { }").unwrap_err();
    assert_eq!(error.expected, "one of &str, char, float, int");
    assert_eq!(error.span, Span { start: at(1, 13), end: at(1, 16) });
    let error = parse("infix \"f\" (int) { }").unwrap_err();
    assert_eq!(error.expected, "keyword `suffix`");
}

#[test]
fn depth_never_goes_down() {
    let mut stream = ParseStream::new("entity A = B + C; fn f() { } 12 \"s\" ->");
    let mut last = stream.depth.0;
    let mut check = |stream: &ParseStream| {
        assert!(stream.depth.0 >= last);
        last = stream.depth.0;
    };
    let _ = stream.keyword("fn");
    check(&stream);
    let _ = stream.keyword("entity");
    check(&stream);
    let _ = Ident::parse(&mut stream);
    check(&stream);
    let _ = stream.number_u8();
    check(&stream);
    let _ = stream.punct("=");
    check(&stream);
    let _ = Punctuated::<Ident>::parse(&mut stream, '+', false);
    check(&stream);
    let _ = stream.punct(";");
    check(&stream);
    stream.trim();
    check(&stream);
    let _ = stream.double_quoted_string();
    check(&stream);
    let _ = stream.next_punct();
    check(&stream);
    assert_eq!(stream.depth.0, 18);
}

#[test]
fn positions_are_written_as_line_and_column() {
    assert_eq!(at(12, 3).debug(), "12:3");
    assert_eq!(Span { start: at(1, 2), end: at(1, 9) }.debug(), "Span(1:2..1:9)");
    assert_eq!(Muts { len: 3, muts: 0b101 }.debug('&'), "&mut &&mut ");
}

#[test]
fn names_and_texts_are_written_for_inspection() {
    let ident = Ident::parse(&mut ParseStream::new("  name")).unwrap();
    assert_eq!(ident.debug(), "Ident { name: \"name\", span: Span(1:3..1:7) }");
    let text = ParseStream::new("\"a\\\"b\"").double_quoted_string().unwrap();
    assert_eq!(text.debug(), "DoubleQuotedString { value: \"a\\\\\\\"b\", span: Span(1:1..1:7) }");
    assert_eq!(ident.render(), "name");
}

#[test]
fn the_first_form_that_can_be_read_wins() {
    // Both forms of a parameter can be read from `x: int`: the named one
    // takes all of it, the unnamed one would take `x` as a type.
    let mut both = ParseStream::new("x: int");
    assert!(XTimes::<Type, true>::parse(&mut ParseStream::new("x: int")).is_ok());
    assert!(matches!(Arg::parse(&mut both).unwrap(), Arg::Named(_)));
    // After `=` a body may be of either form of an expression; a call
    // stands first, and is taken where the text begins like one.
    let mut body = ParseStream::new("= f({ })");
    assert!(matches!(Expr::single_or_block(&mut body).unwrap(), Expr::Call(_)));
    // `prefix` stands before `suffix`.
    use_affix();
}

fn use_affix() {
    let mut stream = ParseStream::new("prefix suffix");
    let first = entity_lang::parse::stmt::macros::Affix::parse(&mut stream).unwrap();
    assert_eq!(first, entity_lang::parse::stmt::macros::Affix::Prefix);
    let second = entity_lang::parse::stmt::macros::Affix::parse(&mut stream).unwrap();
    assert_eq!(second, entity_lang::parse::stmt::macros::Affix::Suffix);
}

#[test]
fn unterminated_string_fails_at_the_end_of_input() {
    let mut stream = ParseStream::new("fn name = \"abc");
    stream.keyword("fn").unwrap();
    let name = Ident::parse(&mut stream).unwrap();
    assert_eq!(name.name, "name");
    stream.punct("=").unwrap();
    let before = stream;
    let error = stream.double_quoted_string().unwrap_err();
    assert_eq!(error.span, Span::eof());
    assert_eq!(error.expected, "the second closing delimiter - `\"`");
    assert_eq!(error.parsing_depth.0, 14);
    assert!(same_place(&stream, &before));
}

#[test]
fn character_classes_of_ascii() {
    use_classes();
}

fn use_classes() {
    // Blanks of every kind are read by `trim`; nothing else is.
    let mut blanks = ParseStream::new(" \t\n\u{b}\u{c}\r\u{85}\u{a0}\u{1680}\u{2000}\u{200a}\u{2028}\u{2029}\u{202f}\u{205f}\u{3000}\u{200b}x");
    blanks.trim();
    assert_eq!(blanks.code, "\u{200b}x");
    // A name begins with a letter and goes on with letters and digits.
    for (text, name, left) in [("a1_", "a1", "_"), ("Zz9+", "Zz9", "+"), ("q[0", "q", "[0"), ("x`", "x", "`"), ("b@", "b", "@")] {
        let mut stream = ParseStream::new(text);
        assert_eq!(Ident::parse(&mut stream).unwrap().name, name);
        assert_eq!(stream.code, left);
    }
    for text in ["1a", "_a", "+", "@", "[", "`", "{", "\u{7f}"] {
        assert!(Ident::parse(&mut ParseStream::new(text)).is_err());
    }
}

#[test]
fn classes_agree_with_the_standard_library_on_every_character() {
    let blank = |c: char| {
        c == ' '
            || ('\u{9}'..='\u{d}').contains(&c)
            || c == '\u{85}'
            || c == '\u{a0}'
            || c == '\u{1680}'
            || ('\u{2000}'..='\u{200a}').contains(&c)
            || c == '\u{2028}'
            || c == '\u{2029}'
            || c == '\u{202f}'
            || c == '\u{205f}'
            || c == '\u{3000}'
    };
    for code in 0..=0x10ffffu32 {
        let c = match char::from_u32(code) {
            Some(c) => c,
            None => continue,
        };
        assert_eq!(c.is_whitespace(), blank(c), "{:?}", c);
        assert_eq!(c.is_alphanumeric(), c.is_alphabetic() || c.is_numeric(), "{:?}", c);
        if code <= 0x7f {
            assert_eq!(c.is_alphabetic(), c.is_ascii_lowercase() || c.is_ascii_uppercase(), "{:?}", c);
            assert_eq!(c.is_numeric(), ('0'..='9').contains(&c), "{:?}", c);
        }
        // One character alone is a name exactly if it is a letter.
        let mut text = String::new();
        text.push(c);
        let mut stream = ParseStream::new(&text);
        assert_eq!(Ident::parse(&mut stream).is_ok(), c.is_alphabetic() && !c.is_whitespace(), "{:?}", c);
    }
}
