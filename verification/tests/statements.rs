use entity_lang::parse::outcome::Parse;
use entity_lang::parse::render::Render;
use entity_lang::parse::signature::Arg;
use entity_lang::parse::stmt::function::{FnBody, FnStmt};
use entity_lang::parse::stmt::macros::{Affix, LiteralType};
use entity_lang::parse::stmt::macros::MacroStmtBody;
use entity_lang::parse::stmt::ty::TyStmtBody;
use entity_lang::parse::stmt::{parse_program, Stmt};
use entity_lang::parse::stream::ParseStream;
use entity_lang::parse::expr::Expr;
use entity_lang::span::{CursorPosition, Span};

#[test]
fn entity_statement_with_two_components() {
    let mut stream = ParseStream::new("entity Player = Health + Position;");
    let stmt = Stmt::parse(&mut stream).unwrap();
    match stmt {
        Stmt::Entity(entity) => {
            assert_eq!(entity.name.name, "Player");
            let names: Vec<&str> = entity.components.0.iter().map(|c| c.name.as_str()).collect();
            assert_eq!(names, vec!["Health", "Position"]);
        }
        other => panic!("not an entity: {:?}", other),
    }
    assert!(stream.is_empty());
    assert_eq!(stream.depth.0, 34);
}

#[test]
fn function_statement_with_two_named_parameters() {
    let mut stream = ParseStream::new("fn add(x: int, y: int) -> int { }");
    let stmt = Stmt::parse(&mut stream).unwrap();
    match stmt {
        Stmt::Fn(function) => {
            assert_eq!(function.name.name, "add");
            let (sig, body) = match function.body {
                FnBody::Defined { sig, body } => (sig, body),
                FnBody::Literal(_) => panic!("read as a literal"),
            };
            assert_eq!(sig.args.0.len(), 2);
            let mut seen = Vec::new();
            for arg in sig.args.0.iter() {
                match arg {
                    Arg::Named(named) => {
                        assert_eq!(named.names.len(), 1);
                        assert_eq!(named.ty.name.name, "int");
                        assert!(named.ty.is_pure());
                        seen.push(named.names[0].name.clone());
                    }
                    Arg::Unnamed(_) => panic!("parameter without a name"),
                }
            }
            assert_eq!(seen, vec!["x", "y"]);
            let return_ty = sig.return_ty.expect("no return type");
            assert_eq!(return_ty.name.name, "int");
            match body {
                Expr::Block(block) => assert!(block.expressions.is_empty()),
                Expr::Call(_) => panic!("body is a call"),
            }
        }
        other => panic!("not a function: {:?}", other),
    }
    assert!(stream.is_empty());
}

#[test]
fn function_statement_named_by_a_literal() {
    let mut stream = ParseStream::new("fn name = \"abc\" rest");
    let function = FnStmt::parse(&mut stream).unwrap();
    assert_eq!(function.name.name, "name");
    match &function.body {
        FnBody::Literal(literal) => {
            assert_eq!(literal.value, "abc");
            assert_eq!(
                literal.span(),
                Span { start: CursorPosition { line: 1, column: 11 }, end: CursorPosition { line: 1, column: 16 } }
            );
        }
        FnBody::Defined { .. } => panic!("read with a signature"),
    }
    assert_eq!(function.render(), "fn name = \"abc\"");
    assert_eq!(stream.code, " rest");
}

#[test]
fn function_statement_with_an_unterminated_string() {
    let text = "fn name = \"abc";
    let mut stream = ParseStream::new(text);
    let before = stream;
    let error = FnStmt::parse(&mut stream).unwrap_err();
    assert_eq!(error.span, Span::eof());
    assert_eq!(error.span.start, CursorPosition::eof());
    assert_eq!(error.span.end, CursorPosition::eof());
    assert_eq!(error.parsing_depth.0, 14);
    assert_eq!(error.expected, "the second closing delimiter - `\"`");
    assert_eq!(stream.code, before.code);
    assert_eq!(stream.cursor, before.cursor);
    assert_eq!(stream.depth, before.depth);

    let error = Stmt::parse(&mut ParseStream::new(text)).unwrap_err();
    assert_eq!((error.span, error.parsing_depth.0), (Span::eof(), 14));
    let error = parse_program(text).unwrap_err();
    assert_eq!((error.span, error.parsing_depth.0), (Span::eof(), 14));
    assert_eq!(error.expected, "the second closing delimiter - `\"`");
}

#[test]
fn function_statement_reports_the_deeper_of_its_two_failures() {
    // Neither form can be read; the signature got further than `=`.
    let error = FnStmt::parse(&mut ParseStream::new("fn add(x: int) junk")).unwrap_err();
    assert_eq!(error.expected, "`{`");
    assert_eq!(error.parsing_depth.0, 15);
    // Nothing behind the name: both forms fail where the text ends, and
    // the later form is reported.
    let error = FnStmt::parse(&mut ParseStream::new("fn add")).unwrap_err();
    assert_eq!(error.expected, "`=`");
    // What stands behind the name is neither `(` nor `=`.
    let error = FnStmt::parse(&mut ParseStream::new("fn add ;")).unwrap_err();
    assert_eq!(error.expected, "`( ... )` block");
    assert_eq!(error.span, Span { start: CursorPosition { line: 1, column: 8 }, end: CursorPosition { line: 1, column: 9 } });
    assert_eq!(error.parsing_depth.0, 7);
}

#[test]
fn entity_without_components_wants_at_least_one() {
    let mut stream = ParseStream::new("entity Player = ;");
    let before = stream;
    let error = Stmt::parse(&mut stream).unwrap_err();
    assert_eq!(error.expected, "at least one ident");
    assert_eq!(
        error.span,
        Span { start: CursorPosition { line: 1, column: 17 }, end: CursorPosition { line: 1, column: 18 } }
    );
    assert_eq!(error.parsing_depth.0, 16);
    assert_eq!(stream.code, before.code);
    assert_eq!(stream.cursor, before.cursor);
    assert_eq!(stream.depth, before.depth);
}

#[test]
fn unterminated_string_in_a_macro_wins_over_the_other_forms() {
    let mut stream = ParseStream::new("macro prefix \"abc");
    let error = Stmt::parse(&mut stream).unwrap_err();
    assert_eq!(error.span, Span::eof());
    assert_eq!(error.expected, "the second closing delimiter - `\"`");
    assert_eq!(error.parsing_depth.0, 17);
}

#[test]
fn program_of_several_statements() {
    let code = "entity Player = Health + Position;\n\nfn add(x: int, y: int) -> int { }\nstruct Vec2 { x y: float }\nty Option = None | Some int\nextern clang (int x 2, &mut str) -> int\nmacro suffix \"km\" (int) -> Distance = km({ })\noperator prefix \"neg\" (n: int) -> int { neg({ }, { }) }\n";
    let stmts = parse_program(code).unwrap();
    assert_eq!(stmts.len(), 7);
    assert!(matches!(stmts[0], Stmt::Entity(_)));
    assert!(matches!(stmts[1], Stmt::Fn(_)));
    match &stmts[2] {
        Stmt::Struct(s) => {
            assert_eq!(s.name.name, "Vec2");
            assert_eq!(s.fields.0.len(), 1);
            assert_eq!(s.fields.0[0].names.len(), 2);
            assert_eq!(s.fields.0[0].ty.name.name, "float");
        }
        other => panic!("not a struct: {:?}", other),
    }
    match &stmts[3] {
        Stmt::Ty(t) => {
            assert_eq!(t.name.name, "Option");
            match &t.body {
                TyStmtBody::Enum(body) => {
                    assert_eq!(body.fields.0.len(), 2);
                    assert_eq!(body.fields.0[0].name.name, "None");
                    assert!(body.fields.0[0].attached_type.is_none());
                    assert_eq!(body.fields.0[1].name.name, "Some");
                    assert_eq!(body.fields.0[1].attached_type.as_ref().unwrap().name.name, "int");
                }
                TyStmtBody::Struct(_) => panic!("read as a record"),
            }
        }
        other => panic!("not a type: {:?}", other),
    }
    match &stmts[4] {
        Stmt::ExternFn(e) => {
            assert_eq!(e.lang.name(), "clang");
            assert_eq!(e.sig.args.0.len(), 2);
            match &e.sig.args.0[0] {
                Arg::Unnamed(counted) => {
                    assert_eq!(counted.times, 2);
                    assert_eq!(counted.it.name.name, "int");
                }
                Arg::Named(_) => panic!("read as named"),
            }
            match &e.sig.args.0[1] {
                Arg::Unnamed(counted) => {
                    assert_eq!(counted.times, 1);
                    assert_eq!(counted.it.refs.len, 1);
                    assert_eq!(counted.it.refs.muts, 1);
                    assert_eq!(counted.it.name.name, "str");
                }
                Arg::Named(_) => panic!("read as named"),
            }
        }
        other => panic!("not an extern function: {:?}", other),
    }
    match &stmts[5] {
        Stmt::Macro(m) => match &m.body {
            MacroStmtBody::Literal(body) => {
                assert_eq!(body.affix, Affix::Suffix);
                assert_eq!(body.lit.value, "km");
                assert_eq!(body.ty, LiteralType::Int);
                assert_eq!(body.return_ty.as_ref().unwrap().name.name, "Distance");
                match &body.body {
                    Expr::Call(call) => {
                        assert_eq!(call.fun.name, "km");
                        assert_eq!(call.args.0.len(), 1);
                    }
                    Expr::Block(_) => panic!("read as a block"),
                }
            }
        },
        other => panic!("not a macro: {:?}", other),
    }
    assert!(matches!(stmts[6], Stmt::Operator(_)));
}

#[test]
fn program_stops_at_the_first_statement_that_fails() {
    let error = parse_program("entity A = B;\nentity C = ;").unwrap_err();
    assert_eq!(error.expected, "at least one ident");
    assert_eq!(error.span.start, CursorPosition { line: 2, column: 12 });
}

#[test]
fn statements_are_written_back_as_text() {
    let mut stream = ParseStream::new("fn  add ( x:int,y : int )->int{f({})}");
    match Stmt::parse(&mut stream).unwrap() {
        Stmt::Fn(function) => {
            assert_eq!(function.render(), "fn add(x: int, y: int) -> int { f({ }) }");
        }
        other => panic!("not a function: {:?}", other),
    }
    let mut stream = ParseStream::new("extern clang (int x 2, *mut T)");
    match Stmt::parse(&mut stream).unwrap() {
        Stmt::ExternFn(function) => {
            assert_eq!(function.render(), "extern clang (int x 2, *mut T)");
        }
        other => panic!("not an extern function: {:?}", other),
    }
}
