use mlogc::compile::{compile_source, is_num, parse_tokens, Val, VarType};
use mlogc::exit::ExitReason;
use mlogc::tokenize::{tokenize, StringType, Token};

fn parse(src: &str) -> Result<Val, (String, ExitReason)> {
    compile_source(src.to_string())
}

fn num(s: &str) -> Val {
    Val::Const(s.to_string(), VarType::Num)
}

fn call(name: &str, args: Vec<Val>) -> Val {
    Val::FuncCall(name.to_string(), args)
}

fn tok(content: &str, strtype: StringType) -> Token {
    Token { content: content.to_string(), line: 1, col: 0, strtype }
}

#[test]
fn bare_identifier_stands_alone() {
    assert_eq!(parse("foo"), Ok(Val::Ident("foo".to_string())));
}

#[test]
fn identifier_then_semicolon_is_a_block() {
    assert_eq!(parse("foo;"), Ok(Val::CodeBlock(vec![Val::Ident("foo".to_string())])));
    assert_eq!(
        parse("a; b;"),
        Ok(Val::CodeBlock(vec![Val::Ident("a".to_string()), Val::Ident("b".to_string())]))
    );
}

#[test]
fn other_token_after_identifier_is_refused() {
    let (msg, reason) = parse("foo bar").unwrap_err();
    assert_eq!(reason, ExitReason::CompileBadTokenAfterIdentifier);
    assert!(msg.starts_with("Unexpected token 'bar' after 'foo', expected one of ['(', ';', '!'"));
    assert!(msg.ends_with(". (line 1, col 7)"));
    let (msg, _) = parse("f\"(\"").unwrap_err();
    assert!(msg.starts_with("Unexpected token string '(' after 'f'"));
}

#[test]
fn terminated_statement_stays_a_block() {
    assert_eq!(parse("f();"), Ok(Val::CodeBlock(vec![call("f", vec![])])));
}

#[test]
fn call_with_two_numbers() {
    assert_eq!(parse("f(1, 2)"), Ok(call("f", vec![num("1"), num("2")])));
}

#[test]
fn decimal_number_argument() {
    assert_eq!(parse("f(1.5)"), Ok(call("f", vec![num("1.5")])));
}

#[test]
fn decimal_from_three_tokens() {
    let tokens = vec![
        tok("1", StringType::Not),
        tok(".", StringType::Not),
        tok("5", StringType::Not),
    ];
    assert_eq!(parse_tokens(&tokens, 0), Ok(num("1.5")));
}

#[test]
fn nested_calls() {
    assert_eq!(parse("f(g(1))"), Ok(call("f", vec![call("g", vec![num("1")])])));
}

#[test]
fn statement_sequence_argument_is_refused() {
    assert_eq!(
        parse("f(g();h())"),
        Err((
            "Function argument should be a value, not executable code. (line 1, col 10)".to_string(),
            ExitReason::CompileFuncArgNotValue
        ))
    );
    assert_eq!(parse("f(;)").unwrap_err().1, ExitReason::CompileFuncArgNotValue);
    assert_eq!(parse("f(,1)").unwrap_err().1, ExitReason::CompileFuncArgNotValue);
}

#[test]
fn identifier_and_semicolon_inside_an_argument() {
    assert_eq!(
        parse("f(a;b)"),
        Err((
            "Function argument should be a value, not executable code. (line 1, col 6)".to_string(),
            ExitReason::CompileFuncArgNotValue
        ))
    );
}

#[test]
fn quoted_punctuation_is_a_constant() {
    assert_eq!(parse("f(\",\")"), Ok(call("f", vec![Val::Const(",".to_string(), VarType::Str)])));
    assert_eq!(parse("\";\""), Ok(Val::Const(";".to_string(), VarType::Str)));
    assert_eq!(parse("1\".\"5").unwrap_err().1, ExitReason::CompileNotImplemented);
}

#[test]
fn finished_call_followed_by_a_value_keeps_both() {
    assert_eq!(parse("f() g()"), Ok(Val::CodeBlock(vec![call("f", vec![]), call("g", vec![])])));
    assert_eq!(parse("f() x"), Ok(Val::CodeBlock(vec![call("f", vec![]), Val::Ident("x".to_string())])));
}

#[test]
fn two_character_char_literal_is_refused() {
    assert_eq!(
        parse("'ab'"),
        Err((
            "Char 'ab' should be 1 character long, but is 2. (line 1, col 3)".to_string(),
            ExitReason::CompileCharTooLong
        ))
    );
    assert_eq!(
        parse("\n\n  'xy'"),
        Err((
            "Char 'xy' should be 1 character long, but is 2. (line 3, col 5)".to_string(),
            ExitReason::CompileCharTooLong
        ))
    );
}

#[test]
fn char_literals_that_pass() {
    assert_eq!(parse("'a'"), Ok(Val::Const("a".to_string(), VarType::Char)));
    assert_eq!(parse("'\\u0041'"), Ok(Val::Const("\\u0041".to_string(), VarType::Char)));
}

#[test]
fn literal_arguments() {
    assert_eq!(
        parse("f(\"hi\", 'c', `b`)"),
        Ok(call(
            "f",
            vec![
                Val::Const("hi".to_string(), VarType::Str),
                Val::Const("c".to_string(), VarType::Char),
                Val::Const("b".to_string(), VarType::Str),
            ]
        ))
    );
}

#[test]
fn token_after_constant_is_not_implemented() {
    assert_eq!(
        parse("1 2"),
        Err((
            "Unexpected token '2' after a constant: operators are not implemented. (line 1, col 3)"
                .to_string(),
            ExitReason::CompileNotImplemented
        ))
    );
    assert_eq!(parse("1.x").unwrap_err().1, ExitReason::CompileNotImplemented);
    assert_eq!(parse("1e5.5").unwrap_err().1, ExitReason::CompileNotImplemented);
}

#[test]
fn exponent_numbers() {
    assert_eq!(parse("1e5"), Ok(num("1e5")));
    assert_eq!(parse("e"), Ok(num("e")));
}

#[test]
fn empty_input_is_an_empty_block() {
    assert_eq!(parse(""), Ok(Val::CodeBlock(vec![])));
    assert_eq!(parse(";"), Ok(Val::CodeBlock(vec![])));
}

#[test]
fn trailing_comma_adds_no_argument() {
    assert_eq!(parse("f(1,)"), Ok(call("f", vec![num("1")])));
}

#[test]
fn unclosed_call_keeps_its_finished_arguments() {
    assert_eq!(parse("f(1, 2"), Ok(call("f", vec![num("1")])));
}

#[test]
fn two_statements() {
    assert_eq!(parse("f(); g()"), Ok(Val::CodeBlock(vec![call("f", vec![]), call("g", vec![])])));
}

#[test]
fn numerals() {
    assert!(is_num(&"123".to_string()));
    assert!(is_num(&"1e9".to_string()));
    assert!(!is_num(&"".to_string()));
    assert!(!is_num(&"1e2e3".to_string()));
    assert!(!is_num(&"12a".to_string()));
    assert!(!is_num(&"١".to_string()));
}

#[test]
fn tree_text_form() {
    let v = parse("f(1, g(\"s\"), x(), 'c')").unwrap();
    assert_eq!(
        v.to_string(),
        "<FuncCall f([<Const \"1\" (Num)>, <FuncCall g([<Const \"s\" (Str)>])>, <FuncCall x([])>, <Const \"c\" (Char)>])>"
    );
    assert_eq!(Val::CodeBlock(vec![Val::Ident("a".to_string())]).to_string(), "<CodeBlock [<Ident \"a\">]>");
    assert_eq!(Val::Nop.to_string(), "<Nop>");
    assert_eq!(Val::MacroCall("m".to_string(), vec![]).to_string(), "<MacroCall m([])>");
}

#[test]
fn parse_tokens_matches_compile_source() {
    let src = "f(g(1), 2.5)";
    let tokens = tokenize(src.to_string());
    assert_eq!(parse_tokens(&tokens, 0), parse(src));
    assert_eq!(parse_tokens(&tokens, 7), parse(src));
}

#[test]
fn exit_codes() {
    assert_eq!(ExitReason::OK.exit_code(), 0);
    assert_eq!(ExitReason::CompileCharTooLong.exit_code(), 6);
    assert_eq!(ExitReason::CompileFuncArgNotValue.exit_code(), 9);
    assert_eq!(ExitReason::CompileNotImplemented.exit_code(), 11);
}

#[test]
fn default_value_is_the_placeholder() {
    assert_eq!(Val::default(), Val::Nop);
}
