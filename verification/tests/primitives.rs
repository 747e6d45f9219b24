use entity_lang::parse::outcome::Parse;
use entity_lang::parse::punctuated::Punctuated;
use entity_lang::parse::span::Ident;
use entity_lang::parse::stream::ParseStream;
use entity_lang::span::{CursorPosition, Span};

#[test]
fn ident_is_read_with_its_position() {
    let mut stream = ParseStream::new("   human is an animal");
    let ident = Ident::parse(&mut stream).unwrap();
    assert_eq!(ident.name, "human");
    assert_eq!(ident.span(), Span { start: CursorPosition { line: 1, column: 4 }, end: CursorPosition { line: 1, column: 9 } });
    assert_eq!(stream.code, " is an animal");
    assert_eq!(stream.depth.0, 8);
}

#[test]
fn punct_wants_the_whole_token() {
    let mut stream = ParseStream::new("== 1");
    let error = stream.punct("=").unwrap_err();
    assert_eq!(error.expected, "`=`");
    assert_eq!(stream.code, "== 1");
    assert!(stream.punct("==").is_ok());
    assert_eq!(stream.code, " 1");
}

#[test]
fn punctuated_reads_names() {
    let mut stream = ParseStream::new("Health + Position;");
    let names = Punctuated::<Ident>::parse(&mut stream, '+', false).unwrap();
    assert_eq!(names.0.len(), 2);
    assert_eq!(names.0[0].name, "Health");
    assert_eq!(names.0[1].name, "Position");
    assert_eq!(stream.code, ";");
}
