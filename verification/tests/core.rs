use rlox::token::{Token, TokenType, TokenLiteral};
use rlox::parser::Parser;
use rlox::printer::AstPrinter;
use rlox::ast::{Expr, Stmt, Decl};
use rlox::environment::Environment;
use rlox::value::{LoxValue, LoxType};
use rlox::error::{LexError, ParseError, RuntimeError};
use rlox::interpreter::{visit_equality_expression, visit_comparison_expression, visit_factor_expression, visit_term_expression};
use rlox::error_reporter::ErrorReporter;
use rlox::scanner::Scanner;

fn lex(source: &str) -> Vec<Token> {
    Token::tokenize(source.to_string())
        .into_iter()
        .map(|r| r.expect("lexical error"))
        .filter(|t| {
            t.token_type != TokenType::Whitespace && t.token_type != TokenType::SingleLineComment
        })
        .collect()
}

fn parse_all(source: &str) -> Vec<Result<Decl, ParseError>> {
    let mut parser = Parser::new(lex(source));
    parser.parse()
}

#[test]
fn lexes_operators_and_numbers() {
    let toks = lex("1 + 2 * 3");
    let kinds: Vec<TokenType> = toks.iter().map(|t| t.token_type).collect();
    assert_eq!(
        kinds,
        vec![
            TokenType::Integer,
            TokenType::Plus,
            TokenType::Integer,
            TokenType::Star,
            TokenType::Integer,
            TokenType::Eof,
        ]
    );
    assert_eq!(toks[0].literal, Some(TokenLiteral::Integer(1)));
    assert_eq!(toks[4].literal, Some(TokenLiteral::Integer(3)));
}

#[test]
fn lexes_keywords_strings_and_floats() {
    let toks = lex("var x = \"ab\"; if true { print 1.25; }");
    let kinds: Vec<TokenType> = toks.iter().map(|t| t.token_type).collect();
    assert_eq!(kinds[0], TokenType::Var);
    assert_eq!(kinds[1], TokenType::Identifier);
    assert_eq!(toks[3].literal, Some(TokenLiteral::String("ab".to_string())));
    assert!(kinds.contains(&TokenType::If));
    assert!(kinds.contains(&TokenType::True));
    assert!(kinds.contains(&TokenType::Print));
    let f = toks.iter().find(|t| t.token_type == TokenType::Float).unwrap();
    assert_eq!(f.literal, Some(TokenLiteral::Float(1, 25, 2)));
}

#[test]
fn unterminated_string_is_an_error_and_scanning_continues() {
    let rs = Token::tokenize("1 \"abc".to_string());
    assert!(rs.iter().any(|r| matches!(r, Err(LexError::UnterminatedString(1)))));
    assert!(matches!(
        rs.last().unwrap(),
        Ok(t) if t.token_type == TokenType::Eof
    ));
}

#[test]
fn second_decimal_point_is_unparsable() {
    let rs = Token::tokenize("1.2.3".to_string());
    assert!(rs.iter().any(|r| matches!(r, Err(LexError::UnparsableNumber(1, _)))));
}

#[test]
fn line_numbers_advance_on_newlines() {
    let toks = lex("1\n2\n@bad".replace('@', "").as_str());
    assert_eq!(toks[0].line, 1);
    assert_eq!(toks[1].line, 2);
}

#[test]
fn scanner_tracks_position() {
    let src = "print 1;".to_string();
    let mut sc = Scanner::new(&src);
    assert!(!sc.is_at_end());
    let rs = sc.scan_tokens();
    assert!(sc.is_at_end());
    assert!(rs.iter().all(|r| r.is_ok()));
}

#[test]
fn precedence_multiplication_binds_tighter() {
    let decls = parse_all("1 + 2 * 3;");
    assert_eq!(decls.len(), 1);
    let decl = decls[0].as_ref().expect("parse error");
    match decl {
        Decl::Statement(Stmt::Expression(Expr::Binary(l, op, r))) => {
            assert_eq!(op.token_type, TokenType::Plus);
            assert!(matches!(**l, Expr::Literal(_)));
            match &**r {
                Expr::Binary(_, inner_op, _) => assert_eq!(inner_op.token_type, TokenType::Star),
                other => panic!("expected nested product, got {:?}", other),
            }
        }
        other => panic!("expected binary expression statement, got {:?}", other),
    }
}

#[test]
fn parse_never_panics_on_malformed_streams() {
    for src in [
        "", ")", "( ( (", "var", "var 1", "= 5;", "if x", "{", "}", "1 + ", "print", "!", "\n",
    ] {
        let _ = parse_all(src);
    }
}

#[test]
fn two_malformed_statements_give_two_errors() {
    let results = parse_all("var 1 = 2; var 2 = 3;");
    let errors: Vec<_> = results.iter().filter(|r| r.is_err()).collect();
    assert_eq!(errors.len(), 2);
}

#[test]
fn invalid_assignment_target_is_reported() {
    let results = parse_all("1 = 5;");
    assert!(matches!(
        results[0],
        Err(ParseError::InvalidAssignmentTarget(1, _))
    ));
}

#[test]
fn print_parse_print_is_idempotent() {
    let printer = AstPrinter;
    for src in [
        "var x = 1 + 2 * 3;",
        "print (1 + 2) * 3;",
        "x = y = 2;",
        "if (a and b) print a; else print b;",
        "{\n  var x = 2;\n  print x;\n}",
        "-1 + !done;",
        "\"a\" + \"b\";",
    ] {
        let once: Vec<String> = parse_all(src)
            .into_iter()
            .map(|d| printer.print_decl(&d.expect("parse error")))
            .collect();
        let again: Vec<String> = parse_all(&once.join("\n"))
            .into_iter()
            .map(|d| printer.print_decl(&d.expect("reparse error")))
            .collect();
        assert_eq!(once, again, "round trip changed for {src}");
    }
}

#[test]
fn environment_defines_and_gets() {
    let mut env = Environment::new();
    env.define("x".to_string(), LoxValue::Number(1));
    assert_eq!(env.get(&"x".to_string()), Some(LoxValue::Number(1)));
    assert_eq!(env.get(&"y".to_string()), None);
}

#[test]
fn assignment_never_creates_a_binding() {
    let mut env = Environment::new();
    assert_eq!(env.update("x".to_string(), LoxValue::Number(5)), None);
    assert_eq!(env.get(&"x".to_string()), None);
    env.define("x".to_string(), LoxValue::Nil);
    assert_eq!(env.update("x".to_string(), LoxValue::Number(5)), Some(LoxValue::Nil));
    assert_eq!(env.get(&"x".to_string()), Some(LoxValue::Number(5)));
}

#[test]
fn inner_shadowing_does_not_leak() {
    let mut env = Environment::new();
    env.define("x".to_string(), LoxValue::Number(1));
    env.create_enclosing();
    env.define("x".to_string(), LoxValue::Number(2));
    assert_eq!(env.get(&"x".to_string()), Some(LoxValue::Number(2)));
    let dropped = env.drop_enclosing();
    assert!(dropped.is_some());
    assert_eq!(env.get(&"x".to_string()), Some(LoxValue::Number(1)));
}

#[test]
fn update_reaches_outer_scopes() {
    let mut env = Environment::new();
    env.define("x".to_string(), LoxValue::Number(1));
    env.create_enclosing();
    assert_eq!(env.update("x".to_string(), LoxValue::Number(9)), Some(LoxValue::Number(1)));
    env.drop_enclosing();
    assert_eq!(env.get(&"x".to_string()), Some(LoxValue::Number(9)));
}

#[test]
fn nil_equals_nil_and_type_names() {
    assert!(LoxValue::Nil.equals(&LoxValue::Nil));
    assert!(!LoxValue::Nil.equals(&LoxValue::Number(0)));
    assert!(LoxValue::Number(3).equals(&LoxValue::Number(3)));
    assert!(!LoxValue::Number(3).equals(&LoxValue::String("3".to_string())));
    assert_eq!(LoxValue::Nil.lox_type(), LoxType::Nil);
    assert!(LoxValue::Number(1).is_same_type_as(&LoxValue::Number(2)));
    assert_eq!(LoxType::Number.name(), "number");
}

#[test]
fn values_render_as_printed() {
    assert_eq!(LoxValue::Number(7).to_text(), "7");
    assert_eq!(LoxValue::Number(-42).to_text(), "-42");
    assert_eq!(LoxValue::Bool(true).to_text(), "true");
    assert_eq!(LoxValue::Nil.to_text(), "nil");
    assert_eq!(LoxValue::String("hi".to_string()).to_text(), "hi");
}

#[test]
fn errors_render_with_line_prefix() {
    let e = LexError::UnexpectedToken(3, "@".to_string());
    assert_eq!(e.render(), "[line 3] Error: Unexpected token @.");
    let p = ParseError::UnexpectedEof(2);
    assert_eq!(p.render(), "[line 2] Error: Unexpected EOF.");
}

#[test]
fn error_reporter_collects_reports() {
    let mut rep = ErrorReporter::default();
    assert!(!rep.errored());
    rep.error(4, "something odd".to_string());
    assert!(rep.errored());
    assert_eq!(rep.reports.len(), 1);
    assert_eq!(rep.reports[0], "[line 4] Error: something odd");
}

#[test]
fn blocks_render_with_two_space_indentation() {
    let printer = AstPrinter;
    let decls = parse_all("{ var x = 1; { print x; } }");
    let text = printer.print_decl(decls[0].as_ref().unwrap());
    assert_eq!(text, "{\n  var x = 1;\n  {\n    print x;\n  }\n}");
}

fn tok(kind: TokenType, lexeme: &str) -> Token {
    Token { token_type: kind, lexeme: lexeme.to_string(), literal: None, line: 1 }
}

fn dummy_expr() -> Expr {
    Expr::Literal(tok(TokenType::Integer, "0"))
}

#[test]
fn arithmetic_follows_precedence_step_by_step() {
    let product = visit_factor_expression(
        &dummy_expr(),
        LoxValue::Number(2),
        tok(TokenType::Star, "*"),
        LoxValue::Number(3),
    )
    .unwrap();
    assert_eq!(product, LoxValue::Number(6));
    let sum = visit_term_expression(
        &dummy_expr(),
        LoxValue::Number(1),
        tok(TokenType::Plus, "+"),
        product,
    )
    .unwrap();
    assert_eq!(sum, LoxValue::Number(7));
}

#[test]
fn adding_number_and_string_is_incompatible() {
    let r = visit_term_expression(
        &dummy_expr(),
        LoxValue::Number(1),
        tok(TokenType::Plus, "+"),
        LoxValue::String("a".to_string()),
    );
    assert!(matches!(
        r,
        Err(RuntimeError::IncompatibleTypes(1, _, LoxType::Number, LoxType::String))
    ));
}

#[test]
fn division_by_zero_is_a_runtime_error_not_a_type_error() {
    let r = visit_factor_expression(
        &dummy_expr(),
        LoxValue::Number(1),
        tok(TokenType::Slash, "/"),
        LoxValue::Number(0),
    );
    match r {
        Err(RuntimeError::RuntimeError(1, _, msg)) => assert_eq!(msg, "Divide by zero"),
        other => panic!("expected a divide-by-zero runtime error, got {:?}", other),
    }
    let ok = visit_factor_expression(
        &dummy_expr(),
        LoxValue::Number(-7),
        tok(TokenType::Slash, "/"),
        LoxValue::Number(2),
    );
    assert_eq!(ok.unwrap(), LoxValue::Number(-3));
}

#[test]
fn equality_handles_nil_and_mismatches() {
    let r = visit_equality_expression(
        &dummy_expr(),
        LoxValue::Nil,
        tok(TokenType::EqualEqual, "=="),
        LoxValue::Nil,
    );
    assert_eq!(r.unwrap(), LoxValue::Bool(true));
    let r = visit_equality_expression(
        &dummy_expr(),
        LoxValue::Number(1),
        tok(TokenType::BangEqual, "!="),
        LoxValue::Number(2),
    );
    assert_eq!(r.unwrap(), LoxValue::Bool(true));
    let r = visit_equality_expression(
        &dummy_expr(),
        LoxValue::Number(1),
        tok(TokenType::EqualEqual, "=="),
        LoxValue::Bool(true),
    );
    assert!(matches!(r, Err(RuntimeError::IncompatibleTypes(..))));
}

#[test]
fn comparison_orders_numbers_and_strings() {
    let r = visit_comparison_expression(
        &dummy_expr(),
        LoxValue::Number(2),
        tok(TokenType::Less, "<"),
        LoxValue::Number(3),
    );
    assert_eq!(r.unwrap(), LoxValue::Bool(true));
    let r = visit_comparison_expression(
        &dummy_expr(),
        LoxValue::String("a".to_string()),
        tok(TokenType::LessEqual, "<="),
        LoxValue::String("b".to_string()),
    );
    assert_eq!(r.unwrap(), LoxValue::Bool(true));
    let r = visit_comparison_expression(
        &dummy_expr(),
        LoxValue::Nil,
        tok(TokenType::Greater, ">"),
        LoxValue::Number(0),
    );
    assert!(matches!(r, Err(RuntimeError::IncompatibleTypes(..))));
}

#[test]
fn string_concatenation_and_overflow() {
    let r = visit_term_expression(
        &dummy_expr(),
        LoxValue::String("foo".to_string()),
        tok(TokenType::Plus, "+"),
        LoxValue::String("bar".to_string()),
    );
    assert_eq!(r.unwrap(), LoxValue::String("foobar".to_string()));
    let r = visit_term_expression(
        &dummy_expr(),
        LoxValue::Number(i64::MAX),
        tok(TokenType::Plus, "+"),
        LoxValue::Number(1),
    );
    assert!(matches!(r, Err(RuntimeError::RuntimeError(..))));
}

fn run_source(source: &str, env: &mut Environment) -> (Vec<Result<LoxValue, RuntimeError>>, Vec<String>) {
    let mut values = Vec::new();
    let mut printed = Vec::new();
    for decl in parse_all(source) {
        let d = decl.expect("parse error");
        let (value, mut out) = rlox::interpreter::evaluate(&d, env);
        values.push(value);
        printed.append(&mut out);
    }
    (values, printed)
}

#[test]
fn evaluating_respects_precedence() {
    let mut env = Environment::new();
    let (values, _) = run_source("1 + 2 * 3;", &mut env);
    assert_eq!(values, vec![Ok(LoxValue::Number(7))]);
}

#[test]
fn shadowing_prints_inner_then_outer() {
    let mut env = Environment::new();
    let (values, printed) = run_source(
        "var x = 1; { var x = 2; print x; } print x;",
        &mut env,
    );
    assert_eq!(printed, vec!["2".to_string(), "1".to_string()]);
    assert!(values.iter().all(|v| v.is_ok()));
}

#[test]
fn assignment_to_undeclared_name_fails_but_declared_works() {
    let mut env = Environment::new();
    let (values, _) = run_source("x = 5;", &mut env);
    assert!(matches!(values[0], Err(RuntimeError::UndefinedVariable(1, _))));
    let mut env = Environment::new();
    let (values, printed) = run_source("var x; x = 5; print x;", &mut env);
    assert!(values.iter().all(|v| v.is_ok()));
    assert_eq!(printed, vec!["5".to_string()]);
}

#[test]
fn type_errors_end_to_end() {
    let mut env = Environment::new();
    let (values, _) = run_source("1 + \"a\";", &mut env);
    assert!(matches!(values[0], Err(RuntimeError::IncompatibleTypes(..))));
    let mut env = Environment::new();
    let (values, _) = run_source("1 / 0;", &mut env);
    match &values[0] {
        Err(RuntimeError::RuntimeError(1, _, msg)) => assert_eq!(msg, "Divide by zero"),
        other => panic!("expected divide-by-zero, got {:?}", other),
    }
    let mut env = Environment::new();
    let (values, _) = run_source("nil == nil;", &mut env);
    assert_eq!(values, vec![Ok(LoxValue::Bool(true))]);
}

#[test]
fn logical_operators_short_circuit() {
    let mut env = Environment::new();
    let (values, _) = run_source("true or 1 / 0 == 0;", &mut env);
    assert_eq!(values, vec![Ok(LoxValue::Bool(true))]);
    let (values, _) = run_source("false and 1 / 0 == 0;", &mut env);
    assert_eq!(values, vec![Ok(LoxValue::Bool(false))]);
    let (values, _) = run_source("1 and true;", &mut env);
    assert!(matches!(values[0], Err(RuntimeError::WrongType(..))));
}

#[test]
fn if_statements_choose_branches() {
    let mut env = Environment::new();
    let (_, printed) = run_source(
        "var x = 3; if (x > 2) print \"big\"; else print \"small\";",
        &mut env,
    );
    assert_eq!(printed, vec!["big".to_string()]);
    let (_, printed) = run_source("if (x < 2) print \"never\";", &mut env);
    assert!(printed.is_empty());
    let (values, _) = run_source("if (1) print 1;", &mut env);
    assert!(matches!(values[0], Err(RuntimeError::WrongType(..))));
}

#[test]
fn a_failing_block_still_pops_its_scope() {
    let mut env = Environment::new();
    let (values, _) = run_source(
        "var x = 1; { var x = 2; y; } print x;",
        &mut env,
    );
    assert!(matches!(values[1], Err(RuntimeError::UndefinedVariable(..))));
    // The block's scope is gone even though it failed: x is the outer one.
    let (values, printed) = run_source("print x;", &mut env);
    assert!(values[0].is_ok());
    assert_eq!(printed, vec!["1".to_string()]);
}

#[test]
fn unary_operators_end_to_end() {
    let mut env = Environment::new();
    let (values, _) = run_source("-(1 + 2);", &mut env);
    assert_eq!(values, vec![Ok(LoxValue::Number(-3))]);
    let (values, _) = run_source("!true;", &mut env);
    assert_eq!(values, vec![Ok(LoxValue::Bool(false))]);
    let (values, _) = run_source("-true;", &mut env);
    assert!(matches!(values[0], Err(RuntimeError::WrongType(..))));
}

#[test]
fn declarations_persist_across_runs() {
    let mut env = Environment::new();
    let (values, _) = run_source("var a = 2;", &mut env);
    assert_eq!(values, vec![Ok(LoxValue::Number(2))]);
    let (values, _) = run_source("a * 21;", &mut env);
    assert_eq!(values, vec![Ok(LoxValue::Number(42))]);
}

#[test]
fn printing_the_reparse_of_printed_output_reproduces_it() {
    let printer = AstPrinter;
    for src in ["var x = 1 + 2 * 3;", "print (1 + 2) * 3;", "{ var y; y = 2; }"] {
        let decls = parse_all(src);
        let d1 = decls[0].as_ref().expect("parse error");
        let s1 = printer.print_decl(d1);
        let reparsed = parse_all(&s1);
        assert_eq!(reparsed.len(), 1);
        let d2 = reparsed[0].as_ref().expect("reparse error");
        assert_eq!(printer.print_decl(d2), s1);
    }
}

#[test]
fn two_broken_statements_two_errors_and_recovery() {
    let results = parse_all("var 1; var 2;");
    let errors: Vec<_> = results.iter().filter(|r| r.is_err()).collect();
    assert_eq!(errors.len(), 2);
    let results = parse_all("var 1; var ok = 3; var 2; print ok;");
    let oks: Vec<_> = results.iter().filter(|r| r.is_ok()).collect();
    let errors: Vec<_> = results.iter().filter(|r| r.is_err()).collect();
    assert_eq!(errors.len(), 2);
    assert_eq!(oks.len(), 2);
}
