use mlogc::tokenize::{tokenize, StringType, Token};

fn texts(tokens: &[Token]) -> Vec<String> {
    tokens.iter().map(|t| t.content.clone()).collect()
}

fn tok(content: &str, line: u64, col: u64, strtype: StringType) -> Token {
    Token { content: content.to_string(), line, col, strtype }
}

#[test]
fn doubled_minus_merges_into_one_operator() {
    let tokens = tokenize("--".to_string());
    assert_eq!(tokens, vec![tok("--", 1, 1, StringType::Not)]);
}

#[test]
fn minus_space_minus_stays_two_tokens() {
    let tokens = tokenize("- -".to_string());
    assert_eq!(tokens, vec![tok("-", 1, 1, StringType::Not), tok("-", 1, 3, StringType::Not)]);
}

#[test]
fn operators_merge_greedily() {
    assert_eq!(texts(&tokenize("a<<=b".to_string())), vec!["a", "<<=", "b"]);
    assert_eq!(texts(&tokenize(">>>= === !== ..".to_string())), vec![">>>=", "===", "!==", ".."]);
    assert_eq!(texts(&tokenize("=>".to_string())), vec!["=", ">"]);
    assert_eq!(texts(&tokenize("((".to_string())), vec!["(", "("]);
}

#[test]
fn operator_does_not_swallow_a_word_before_it() {
    assert_eq!(texts(&tokenize("=a=".to_string())), vec!["=", "a", "="]);
}

#[test]
fn escaped_quote_does_not_close_a_literal() {
    let tokens = tokenize("\"a\\\"b\"".to_string());
    assert_eq!(tokens, vec![tok("a\\\"b", 1, 5, StringType::String)]);
}

#[test]
fn other_quotes_inside_a_literal_are_text() {
    let tokens = tokenize("\"it's\"".to_string());
    assert_eq!(tokens, vec![tok("it's", 1, 5, StringType::String)]);
}

#[test]
fn literal_kinds() {
    let tokens = tokenize("'c' `b` \"s\"".to_string());
    let kinds: Vec<StringType> = tokens.iter().map(|t| t.strtype).collect();
    assert_eq!(kinds, vec![StringType::Char, StringType::Backtick, StringType::String]);
    assert_eq!(texts(&tokens), vec!["c", "b", "s"]);
}

#[test]
fn empty_literals_give_no_token() {
    assert!(tokenize("\"\" '' ``".to_string()).is_empty());
    assert!(tokenize("".to_string()).is_empty());
    assert!(tokenize(" \t\n".to_string()).is_empty());
}

#[test]
fn no_token_is_empty() {
    for src in ["", "a", "\"\"", "\\\\", "f(a, \"\") ;; \\ \\", "- -\n--=", "'\\'' x"] {
        for t in tokenize(src.to_string()) {
            assert!(!t.content.is_empty(), "empty token from {:?}", src);
        }
    }
}

#[test]
fn verbatim_run_is_one_token() {
    let tokens = tokenize("\\a; b(\\ c".to_string());
    assert_eq!(texts(&tokens), vec!["a; b(", "c"]);
    assert_eq!(tokens[0].strtype, StringType::Not);
}

#[test]
fn contents_rebuild_the_source_without_separators() {
    let tokens = tokenize("f(a, \"x y\") \\raw text\\".to_string());
    let joined: String = tokens.iter().map(|t| t.content.as_str()).collect();
    assert_eq!(joined, "f(a,x y)raw text");
}

#[test]
fn unterminated_literal_text_is_lost() {
    assert!(tokenize("\"abc".to_string()).is_empty());
}

#[test]
fn lines_and_columns() {
    let tokens = tokenize("a\nb".to_string());
    assert_eq!(tokens, vec![tok("a", 1, 1, StringType::Not), tok("b", 2, 1, StringType::Not)]);
    let tokens = tokenize("f(x)".to_string());
    assert_eq!(
        tokens,
        vec![
            tok("f", 1, 1, StringType::Not),
            tok("(", 1, 2, StringType::Not),
            tok("x", 1, 3, StringType::Not),
            tok(")", 1, 4, StringType::Not),
        ]
    );
}

#[test]
fn token_text_form() {
    assert_eq!(tok("--", 1, 1, StringType::Not).to_string(), "<Token \"--\" 1:1>");
    assert_eq!(tok("a", 2, 10, StringType::String).to_string(), "<Token s\"a\" 2:10>");
    assert_eq!(tok("c", 3, 0, StringType::Char).to_string(), "<Token c\"c\" 3:0>");
    assert_eq!(tok("b", 1, 7, StringType::Backtick).to_string(), "<Token b\"b\" 1:7>");
}

#[test]
fn default_token_is_empty() {
    assert_eq!(Token::default(), tok("", 0, 0, StringType::Not));
}
