use script_lexer::lexer::{LexError, Lexer, LexerIterator, Token};

fn start(code: &str) -> LexerIterator {
    Lexer::tokenize(code.chars().collect())
}

fn lex_all(code: &str) -> Vec<Result<Token, LexError>> {
    start(code).collect_tokens()
}

fn lex(code: &str) -> Vec<Token> {
    lex_all(code).into_iter().map(|r| r.unwrap()).collect()
}

fn name(spelling: &str) -> Token {
    Token::Name(spelling.to_string())
}

fn text(content: &str) -> Token {
    Token::StringLiteral(content.to_string())
}

const KEYWORDS: [(&str, Token); 9] = [
    ("if", Token::If),
    ("else", Token::Else),
    ("return", Token::Return),
    ("fn", Token::Function),
    ("loop", Token::Loop),
    ("for", Token::For),
    ("in", Token::In),
    ("let", Token::Let),
    ("const", Token::Const),
];

#[test]
fn symbol_token_tests() {
    assert_eq!(lex(""), Vec::<Token>::new());
    assert_eq!(lex(" "), Vec::<Token>::new());
    assert_eq!(lex("let"), vec![Token::Let]);
    assert_eq!(lex("+"), vec![Token::Plus]);
    assert_eq!(lex("-"), vec![Token::Minus]);
    assert_eq!(lex("*"), vec![Token::Star]);
    assert_eq!(lex("/"), vec![Token::Slash]);
    assert_eq!(lex(","), vec![Token::Comma]);
    assert_eq!(lex(":"), vec![Token::Colon]);
    assert_eq!(lex(";"), vec![Token::Semicolon]);
    assert_eq!(lex("="), vec![Token::Assign]);
    assert_eq!(lex(">"), vec![Token::Greater]);
    assert_eq!(lex("<"), vec![Token::Lower]);
    assert_eq!(lex("!"), vec![Token::ExclamationMark]);
    assert_eq!(lex("{"), vec![Token::LeftBrace]);
    assert_eq!(lex("}"), vec![Token::RightBrace]);
    assert_eq!(lex("("), vec![Token::LeftParenthesis]);
    assert_eq!(lex(")"), vec![Token::RightParenthesis]);
    assert_eq!(lex("["), vec![Token::LeftSquareBracket]);
    assert_eq!(lex("]"), vec![Token::RightSquareBracket]);
    assert_eq!(lex("->"), vec![Token::Arrow]);
}

#[test]
fn dot_token() {
    assert_eq!(lex("."), vec![Token::Dot]);
    assert_eq!(lex("a.b"), vec![name("a"), Token::Dot, name("b")]);
}

#[test]
fn lexer_keywords() {
    assert_eq!(lex("if"), vec![Token::If]);
    assert_eq!(lex("else"), vec![Token::Else]);
    assert_eq!(lex("return"), vec![Token::Return]);
    assert_eq!(lex("fn"), vec![Token::Function]);
    assert_eq!(lex("loop"), vec![Token::Loop]);
    assert_eq!(lex("for"), vec![Token::For]);
    assert_eq!(lex("in"), vec![Token::In]);
    assert_eq!(lex("let"), vec![Token::Let]);
    assert_eq!(lex("const"), vec![Token::Const]);
}

#[test]
fn lexer_positive_integers() {
    assert_eq!(lex("0"), vec![Token::Integer(0)]);
    assert_eq!(lex("1"), vec![Token::Integer(1)]);
    assert_eq!(lex("10"), vec![Token::Integer(10)]);
    assert_eq!(lex("2147483647"), vec![Token::Integer(i32::MAX)]);
}

#[test]
fn lexer_negative_integers() {
    assert_eq!(lex("-0"), vec![Token::Integer(0)]);
    assert_eq!(lex("-1"), vec![Token::Integer(-1)]);
    assert_eq!(lex("-10"), vec![Token::Integer(-10)]);
    assert_eq!(lex("-2147483648"), vec![Token::Integer(i32::MIN)]);
}

#[test]
fn lexer_names() {
    assert_eq!(lex("a"), vec![name("a")]);
    assert_eq!(lex("v1"), vec![name("v1")]);
    assert_eq!(
        lex("LongName_withDifferentStyles__"),
        vec![name("LongName_withDifferentStyles__")]
    );
}

#[test]
fn lexer_comments() {
    assert_eq!(
        lex("# Example comment\n"),
        vec![Token::Comment(" Example comment".to_string())]
    );
}

#[test]
fn lexer_string_literal() {
    assert_eq!(lex("\'Test string\'"), vec![text("Test string")]);
    assert_eq!(lex("\"Test string\""), vec![text("Test string")]);
    assert_eq!(lex("\'Test \\\' string\'"), vec![text("Test \' string")]);
    assert_eq!(lex("\"Test \\\" string\""), vec![text("Test \" string")]);
}

#[test]
fn lexer_multi_token_cases() {
    assert_eq!(
        lex("let x = 10;"),
        vec![
            Token::Let,
            name("x"),
            Token::Assign,
            Token::Integer(10),
            Token::Semicolon
        ]
    );
    assert_eq!(
        lex("# Example comment\n fn foo(a: i32, b: string) -> bool\n { return b + a; } "),
        vec![
            Token::Comment(" Example comment".to_string()),
            Token::Function,
            name("foo"),
            Token::LeftParenthesis,
            name("a"),
            Token::Colon,
            name("i32"),
            Token::Comma,
            name("b"),
            Token::Colon,
            name("string"),
            Token::RightParenthesis,
            Token::Arrow,
            name("bool"),
            Token::LeftBrace,
            Token::Return,
            name("b"),
            Token::Plus,
            name("a"),
            Token::Semicolon,
            Token::RightBrace
        ]
    );
}

#[test]
fn keyword_alone_is_one_keyword_token() {
    for (spelling, token) in KEYWORDS.iter() {
        let tokens = lex(spelling);
        assert_eq!(tokens, vec![token.clone()]);
        assert_ne!(tokens, vec![name(spelling)]);
    }
}

#[test]
fn keyword_with_one_more_character_is_one_name() {
    let more: Vec<char> = ('a'..='z').chain('A'..='Z').chain('0'..='9').collect();
    for (spelling, _) in KEYWORDS.iter() {
        for c in more.iter() {
            let longer = format!("{}{}", spelling, c);
            assert_eq!(lex(&longer), vec![name(&longer)]);
        }
    }
    assert_eq!(lex("let_"), vec![name("let_")]);
    assert_eq!(lex("iff"), vec![name("iff")]);
    assert_eq!(lex("format"), vec![name("format")]);
}

#[test]
fn keyword_inside_a_name_is_not_split() {
    assert_eq!(lex("xlet"), vec![name("xlet")]);
    assert_eq!(lex("_if"), vec![name("_if")]);
    assert_eq!(lex("If"), vec![name("If")]);
    assert_eq!(lex("LET"), vec![name("LET")]);
}

#[test]
fn largest_integer_and_overflow() {
    assert_eq!(lex_all("2147483647"), vec![Ok(Token::Integer(2147483647))]);
    assert_eq!(lex_all("2147483648"), vec![Err(LexError::IntegerOverflow)]);
}

#[test]
fn smallest_integer_is_one_token() {
    assert_eq!(
        lex_all("-2147483648"),
        vec![Ok(Token::Integer(-2147483648))]
    );
    assert_eq!(lex_all("-2147483649"), vec![Err(LexError::IntegerOverflow)]);
}

#[test]
fn minus_before_space_is_an_operator() {
    assert_eq!(lex("- 5"), vec![Token::Minus, Token::Integer(5)]);
    assert_eq!(lex("-\n5"), vec![Token::Minus, Token::Integer(5)]);
}

#[test]
fn minus_glues_to_a_digit_only() {
    assert_eq!(lex("-5"), vec![Token::Integer(-5)]);
    assert_eq!(lex("--5"), vec![Token::Minus, Token::Integer(-5)]);
    assert_eq!(lex("5-3"), vec![Token::Integer(5), Token::Integer(-3)]);
    assert_eq!(lex("5 - 3"), vec![Token::Integer(5), Token::Minus, Token::Integer(3)]);
    assert_eq!(lex("-x"), vec![Token::Minus, name("x")]);
    assert_eq!(lex("- >"), vec![Token::Minus, Token::Greater]);
    assert_eq!(lex("a->b"), vec![name("a"), Token::Arrow, name("b")]);
    assert_eq!(lex("->5"), vec![Token::Arrow, Token::Integer(5)]);
    assert_eq!(lex("-->"), vec![Token::Minus, Token::Arrow]);
}

#[test]
fn escaped_quote_and_unterminated_literal() {
    assert_eq!(
        lex_all("\"Test \\\" string\""),
        vec![Ok(text("Test \" string"))]
    );
    assert_eq!(
        lex_all("\"abc"),
        vec![Err(LexError::UnterminatedStringLiteral)]
    );
}

#[test]
fn comment_without_newline_ends_the_stream() {
    let mut tokens = start("# a comment");
    assert_eq!(
        tokens.next(),
        Some(Ok(Token::Comment(" a comment".to_string())))
    );
    assert_eq!(tokens.next(), None);
}

#[test]
fn variable_declaration_end_to_end() {
    assert_eq!(
        lex_all("let x = 10;"),
        vec![
            Ok(Token::Let),
            Ok(name("x")),
            Ok(Token::Assign),
            Ok(Token::Integer(10)),
            Ok(Token::Semicolon)
        ]
    );
}

#[test]
fn function_declaration_end_to_end() {
    assert_eq!(
        lex_all("fn foo(a: i32) -> bool { return a; }"),
        vec![
            Ok(Token::Function),
            Ok(name("foo")),
            Ok(Token::LeftParenthesis),
            Ok(name("a")),
            Ok(Token::Colon),
            Ok(name("i32")),
            Ok(Token::RightParenthesis),
            Ok(Token::Arrow),
            Ok(name("bool")),
            Ok(Token::LeftBrace),
            Ok(Token::Return),
            Ok(name("a")),
            Ok(Token::Semicolon),
            Ok(Token::RightBrace)
        ]
    );
}

#[test]
fn whitespace_between_tokens_does_not_matter() {
    let plain = "fn foo(a: i32) -> bool { return a; }";
    let expected = lex_all(plain);
    let spread = "\n\tfn   foo (\ta :\r\ni32 )\n->\u{2003}bool\u{A0}{\n\n  return   a ;\n}\n\n";
    assert_eq!(lex_all(spread), expected);
    let tight = "fn foo(a:i32)->bool{return a;}";
    assert_eq!(lex_all(tight), expected);
}

#[test]
fn whitespace_at_every_token_boundary() {
    let lexemes = ["let", "x", "=", "-10", ";", "'a b'", "->", "-", "y", "# end"];
    let joined = lexemes.join(" ");
    let expected = lex_all(&joined);
    assert_eq!(expected.len(), lexemes.len());
    for gap in 0..=lexemes.len() {
        for blank in [" ", "\n", "\t \r\n", "\u{3000}"] {
            let mut code = String::new();
            for (i, lexeme) in lexemes.iter().enumerate() {
                code.push_str(if i == gap { blank } else { " " });
                code.push_str(lexeme);
            }
            if gap == lexemes.len() {
                code.push_str("\n");
                code.push_str(blank);
            }
            assert_eq!(lex_all(&code), expected, "{:?}", code);
        }
    }
}

#[test]
fn whitespace_inside_a_lexeme_matters() {
    assert_eq!(lex("letx"), vec![name("letx")]);
    assert_eq!(lex("let x"), vec![Token::Let, name("x")]);
    assert_eq!(lex("'a b'"), vec![text("a b")]);
    assert_eq!(lex("'a  b'"), vec![text("a  b")]);
    assert_eq!(lex("1 0"), vec![Token::Integer(1), Token::Integer(0)]);
}

#[test]
fn space_behind_a_comment_joins_it() {
    assert_eq!(lex("#c"), vec![Token::Comment("c".to_string())]);
    assert_eq!(lex("#c "), vec![Token::Comment("c ".to_string())]);
    assert_eq!(lex("#c\n "), vec![Token::Comment("c".to_string())]);
    assert_eq!(lex("#c\r\n\n"), vec![Token::Comment("c".to_string())]);
}

#[test]
fn unicode_whitespace_is_skipped() {
    assert_eq!(lex("a\u{2003}b"), vec![name("a"), name("b")]);
    assert_eq!(lex("\u{85}\u{1680}\u{2028}\u{2029}\u{202F}\u{205F}1"), vec![Token::Integer(1)]);
    assert_eq!(lex("\u{B}\u{C}"), Vec::<Token>::new());
}

#[test]
fn zero_width_space_is_no_whitespace() {
    assert_eq!(
        lex_all("\u{200B}"),
        vec![Err(LexError::UnrecognizedCharacter)]
    );
}

// A lone opening delimiter at the end of input could also be read as an empty
// literal. Here it is an unterminated one: no delimiter closes it.
#[test]
fn quote_as_last_character_is_unterminated() {
    assert_eq!(lex_all("'"), vec![Err(LexError::UnterminatedStringLiteral)]);
    assert_eq!(lex_all("\""), vec![Err(LexError::UnterminatedStringLiteral)]);
    assert_eq!(
        lex_all("x '"),
        vec![Ok(name("x")), Err(LexError::UnterminatedStringLiteral)]
    );
}

#[test]
fn empty_string_literal() {
    assert_eq!(lex("''"), vec![text("")]);
    assert_eq!(lex("\"\""), vec![text("")]);
}

#[test]
fn escape_table() {
    assert_eq!(lex(r#""a\nb""#), vec![text("a\nb")]);
    assert_eq!(lex(r#""a\tb""#), vec![text("a\tb")]);
    assert_eq!(lex(r#""a\\b""#), vec![text("a\\b")]);
    assert_eq!(lex(r#""a\'b""#), vec![text("a'b")]);
    assert_eq!(lex(r#""a\"b""#), vec![text("a\"b")]);
    assert_eq!(lex(r#"'a\"b'"#), vec![text("a\"b")]);
}

#[test]
fn unknown_escape_is_the_character_itself() {
    assert_eq!(lex(r#""a\qb""#), vec![text("aqb")]);
    assert_eq!(lex(r#""\r\0\ ""#), vec![text("r0 ")]);
    assert_eq!(lex("\"\\\u{e9}\""), vec![text("\u{e9}")]);
}

#[test]
fn backslash_at_the_end_is_unterminated() {
    assert_eq!(
        lex_all("\"abc\\"),
        vec![Err(LexError::UnterminatedStringLiteral)]
    );
    assert_eq!(
        lex_all("\"abc\\\""),
        vec![Err(LexError::UnterminatedStringLiteral)]
    );
}

#[test]
fn closing_delimiter_is_the_opening_one() {
    assert_eq!(lex("'a\"b'"), vec![text("a\"b")]);
    assert_eq!(lex("\"a'b\""), vec![text("a'b")]);
    assert_eq!(
        lex_all("'abc\""),
        vec![Err(LexError::UnterminatedStringLiteral)]
    );
}

#[test]
fn string_content_is_not_validated() {
    assert_eq!(lex("'h\u{e9}llo \u{1F600} # - 12'"), vec![text("h\u{e9}llo \u{1F600} # - 12")]);
    assert_eq!(lex("'line\nbreak'"), vec![text("line\nbreak")]);
}

#[test]
fn adjacent_string_literals() {
    assert_eq!(lex("'a''b'"), vec![text("a"), text("b")]);
    assert_eq!(lex("'a'x"), vec![text("a"), name("x")]);
}

#[test]
fn unterminated_literal_consumes_the_rest() {
    let mut tokens = start("x \"abc def");
    assert_eq!(tokens.next(), Some(Ok(name("x"))));
    assert_eq!(
        tokens.next(),
        Some(Err(LexError::UnterminatedStringLiteral))
    );
    assert_eq!(tokens.next(), None);
    assert_eq!(tokens.next(), None);
}

#[test]
fn unrecognized_character_is_consumed() {
    assert_eq!(lex_all("@"), vec![Err(LexError::UnrecognizedCharacter)]);
    assert_eq!(
        lex_all("@x $ 1"),
        vec![
            Err(LexError::UnrecognizedCharacter),
            Ok(name("x")),
            Err(LexError::UnrecognizedCharacter),
            Ok(Token::Integer(1))
        ]
    );
}

#[test]
fn identifiers_are_ascii_only() {
    assert_eq!(
        lex_all("\u{e9}"),
        vec![Err(LexError::UnrecognizedCharacter)]
    );
    assert_eq!(
        lex_all("caf\u{e9}s"),
        vec![
            Ok(name("caf")),
            Err(LexError::UnrecognizedCharacter),
            Ok(name("s"))
        ]
    );
    assert_eq!(
        lex_all("\u{663}"),
        vec![Err(LexError::UnrecognizedCharacter)]
    );
}

#[test]
fn error_ends_only_its_own_token() {
    assert_eq!(
        lex_all("99999999999 x 2147483648;7"),
        vec![
            Err(LexError::IntegerOverflow),
            Ok(name("x")),
            Err(LexError::IntegerOverflow),
            Ok(Token::Semicolon),
            Ok(Token::Integer(7))
        ]
    );
}

#[test]
fn very_long_literals_do_not_wrap() {
    let long = "9".repeat(40);
    assert_eq!(lex_all(&long), vec![Err(LexError::IntegerOverflow)]);
    let negative = format!("-{}", "1".repeat(25));
    assert_eq!(lex_all(&negative), vec![Err(LexError::IntegerOverflow)]);
    assert_eq!(
        lex_all("18446744073709551617"),
        vec![Err(LexError::IntegerOverflow)]
    );
    assert_eq!(
        lex_all("4294967297"),
        vec![Err(LexError::IntegerOverflow)]
    );
}

#[test]
fn leading_zeros() {
    let padded = format!("{}7", "0".repeat(40));
    assert_eq!(lex(&padded), vec![Token::Integer(7)]);
    assert_eq!(lex("0002147483647"), vec![Token::Integer(i32::MAX)]);
    assert_eq!(lex("-0002147483648"), vec![Token::Integer(i32::MIN)]);
    assert_eq!(lex("007"), vec![Token::Integer(7)]);
}

#[test]
fn digits_then_letters() {
    assert_eq!(lex("12ab"), vec![Token::Integer(12), name("ab")]);
    assert_eq!(lex("ab12"), vec![name("ab12")]);
    assert_eq!(lex("1_000"), vec![Token::Integer(1), name("_000")]);
}

#[test]
fn comment_leaves_the_line_terminator() {
    assert_eq!(
        lex("#c\r\nx"),
        vec![Token::Comment("c".to_string()), name("x")]
    );
    assert_eq!(
        lex("# one\n# two"),
        vec![
            Token::Comment(" one".to_string()),
            Token::Comment(" two".to_string())
        ]
    );
    assert_eq!(lex("#"), vec![Token::Comment(String::new())]);
    assert_eq!(lex("x # 'a' -1"), vec![name("x"), Token::Comment(" 'a' -1".to_string())]);
}

#[test]
fn tokens_are_produced_one_at_a_time() {
    let mut tokens = start("let x \"open");
    assert_eq!(tokens.next(), Some(Ok(Token::Let)));
    assert_eq!(tokens.next(), Some(Ok(name("x"))));
    assert_eq!(
        tokens.collect_tokens(),
        vec![Err(LexError::UnterminatedStringLiteral)]
    );
    assert_eq!(tokens.collect_tokens(), vec![]);
}

#[test]
fn default_lexer() {
    let _lexer = Lexer::default();
    assert_eq!(start("").collect_tokens(), vec![]);
}

#[test]
fn end_of_input_is_stable() {
    let mut tokens = start("  \n ");
    assert_eq!(tokens.next(), None);
    assert_eq!(tokens.next(), None);
    let mut tokens = start("1");
    assert_eq!(tokens.next(), Some(Ok(Token::Integer(1))));
    assert_eq!(tokens.next(), None);
    assert_eq!(tokens.next(), None);
}

#[test]
fn parse_integer_reads_the_digits_at_the_cursor() {
    let mut tokens = start("12ab");
    assert_eq!(tokens.parse_integer(true), Ok(Token::Integer(-12)));
    assert_eq!(tokens.next(), Some(Ok(name("ab"))));
    let mut tokens = start("x");
    assert_eq!(tokens.parse_integer(false), Ok(Token::Integer(0)));
    assert_eq!(tokens.next(), Some(Ok(name("x"))));
    let mut tokens = start("2147483648");
    assert_eq!(tokens.parse_integer(true), Ok(Token::Integer(i32::MIN)));
    let mut tokens = start("2147483648");
    assert_eq!(tokens.parse_integer(false), Err(LexError::IntegerOverflow));
    assert_eq!(tokens.next(), None);
}

#[test]
fn parse_minus_looks_one_character_ahead() {
    let mut tokens = start("-7 -> - x");
    assert_eq!(tokens.parse_minus(), Ok(Token::Integer(-7)));
    assert_eq!(tokens.next(), Some(Ok(Token::Arrow)));
    assert_eq!(tokens.next(), Some(Ok(Token::Minus)));
    assert_eq!(tokens.next(), Some(Ok(name("x"))));
    let mut tokens = start("-");
    assert_eq!(tokens.parse_minus(), Ok(Token::Minus));
    assert_eq!(tokens.parse_minus(), Ok(Token::Minus));
    assert_eq!(tokens.next(), None);
}

#[test]
fn parse_name_reads_the_longest_run() {
    let mut tokens = start("return_value1+2");
    assert_eq!(tokens.parse_name(), Ok(name("return_value1")));
    assert_eq!(tokens.next(), Some(Ok(Token::Plus)));
    let mut tokens = start("return+");
    assert_eq!(tokens.parse_name(), Ok(Token::Return));
    let mut tokens = start("+");
    assert_eq!(tokens.parse_name(), Ok(name("")));
    assert_eq!(tokens.next(), Some(Ok(Token::Plus)));
}

#[test]
fn parse_comment_drops_the_first_character() {
    let mut tokens = start("# note\nx");
    assert_eq!(
        tokens.parse_comment(),
        Ok(Token::Comment(" note".to_string()))
    );
    assert_eq!(tokens.next(), Some(Ok(name("x"))));
    let mut tokens = start("");
    assert_eq!(tokens.parse_comment(), Ok(Token::Comment(String::new())));
}

#[test]
fn parse_string_literal_closes_with_the_given_delimiter() {
    let mut tokens = start("'it\\'s' x");
    assert_eq!(tokens.parse_string_literal('\''), Ok(text("it's")));
    assert_eq!(tokens.next(), Some(Ok(name("x"))));
    let mut tokens = start("|a'b|c");
    assert_eq!(tokens.parse_string_literal('|'), Ok(text("a'b")));
    assert_eq!(tokens.next(), Some(Ok(name("c"))));
    let mut tokens = start("");
    assert_eq!(
        tokens.parse_string_literal('"'),
        Err(LexError::UnterminatedStringLiteral)
    );
}

#[test]
fn error_messages() {
    assert_eq!(
        LexError::UnterminatedStringLiteral.message(),
        "Unclosed string literal"
    );
    assert_eq!(LexError::IntegerOverflow.message(), "Integer overflow");
    assert_eq!(
        LexError::UnrecognizedCharacter.message(),
        "Unrecognized character"
    );
}
