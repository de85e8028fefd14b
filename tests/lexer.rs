use ei::lexer::token_stream;
use ei::token::{Token, TokenKind};
use TokenKind::{
    And, BangEqual, Bang, Equal, EqualEqual, Greater, GreaterEqual, Identifier, LeftBrace, Less,
    LessEqual, Let, Match, Minus, Or, Plus, RightArrow, RightBrace, Unknown,
};

fn kinds(input: &str) -> Vec<TokenKind> {
    let mut ts = token_stream(input);
    let mut out = Vec::new();
    while let Some(t) = ts.next() {
        out.push(t.kind);
    }
    out
}

fn first(input: &str) -> Token {
    match token_stream(input).next() {
        Some(t) => t,
        None => panic!("No token returned for input {:?}", input),
    }
}

#[test]
fn lib_empty_source_returns_no_tokens() {
    let maybe_token = token_stream("").next();
    assert_eq!(maybe_token, None);
}

#[test]
fn lib_whitespace_is_skipped() {
    let input = "{    + \n  }\n   -";
    let tokens = kinds(input);
    let expected = vec![LeftBrace, Plus, RightBrace, Minus];
    assert_eq!(expected, tokens);
}

#[test]
fn correctly_skips_whitespace() {
    let input = "\"b\", \"c\"";
    let tokens: Vec<Token> = token_stream(input).remaining();
    let expected = vec![
        Token {
            kind: TokenKind::String("b".into()),
            lexeme: "\"b\"".into(),
        },
        Token {
            kind: TokenKind::Comma,
            lexeme: ",".into(),
        },
        Token {
            kind: TokenKind::String("c".into()),
            lexeme: "\"c\"".into(),
        },
    ];
    assert_eq!(expected, tokens);
}

#[test]
fn can_lex_static_tokens() {
    let cases = vec![
        ("{", TokenKind::LeftBrace),
        ("}", TokenKind::RightBrace),
        ("(", TokenKind::LeftParen),
        (")", TokenKind::RightParen),
        (".", TokenKind::Dot),
        (",", TokenKind::Comma),
        (":", TokenKind::Colon),
        (";", TokenKind::SemiColon),
        ("!", TokenKind::Bang),
        ("+", TokenKind::Plus),
        ("-", TokenKind::Minus),
        ("*", TokenKind::Star),
        ("/", TokenKind::Slash),
        ("=", TokenKind::Equal),
        (">", TokenKind::Greater),
        ("<", TokenKind::Less),
        ("->", TokenKind::RightArrow),
        ("<=", TokenKind::LessEqual),
        (">=", TokenKind::GreaterEqual),
        ("==", TokenKind::EqualEqual),
        ("!=", TokenKind::BangEqual),
        ("&&", TokenKind::And),
        ("||", TokenKind::Or),
        ("let", TokenKind::Let),
        ("mut", TokenKind::Mut),
        ("fn", TokenKind::Fn),
        ("enum", TokenKind::Enum),
        ("record", TokenKind::Record),
        ("interface", TokenKind::Interface),
        ("impl", TokenKind::Impl),
        ("check", TokenKind::Check),
        ("match", TokenKind::Match),
    ];
    for (input, expected) in cases {
        let expected = Token {
            kind: expected,
            lexeme: input.to_string(),
        };
        assert_eq!(expected, first(input), "input {:?}", input);
    }
}

#[test]
fn captures_identifier_lexemes() {
    for input in ["a", "eggs", "_name", "d1m12", "hello_world"] {
        assert_eq!(Token::identifier(input), first(input));
    }
}

#[test]
fn can_lex_string_literals() {
    for (input, expected) in [("\"\"", ""), ("\"a\"", "a"), ("\"abacus\"", "abacus")] {
        let token = Token {
            kind: TokenKind::String(expected.to_string()),
            lexeme: input.to_string(),
        };
        assert_eq!(token, first(input));
    }
}

#[test]
fn operators_fall_back_to_one_character() {
    assert_eq!(kinds("! - = > < & |"), vec![Bang, Minus, Equal, Greater, Less, Unknown, Unknown]);
    assert_eq!(kinds("!=->==>=<=&&||"), vec![BangEqual, RightArrow, EqualEqual, GreaterEqual, LessEqual, And, Or]);
    assert_eq!(kinds("=>"), vec![Equal, Greater]);
}

#[test]
fn reserved_words_need_the_whole_word() {
    assert_eq!(kinds("let lets _let matching match"), vec![Let, Identifier, Identifier, Identifier, Match]);
    let t = first("letter1 x");
    assert_eq!(t, Token::identifier("letter1"));
}

#[test]
fn unknown_characters_become_tokens() {
    let tokens = token_stream("a ? é").remaining();
    assert_eq!(tokens.len(), 3);
    assert_eq!(tokens[1].kind, TokenKind::Unknown);
    assert_eq!(tokens[1].lexeme, "?");
    assert_eq!(tokens[2].kind, TokenKind::Unknown);
    assert_eq!(tokens[2].lexeme, "é");
}

#[test]
fn unterminated_string_runs_to_the_end() {
    let tokens = token_stream("\"abc def").remaining();
    assert_eq!(
        tokens,
        vec![Token {
            kind: TokenKind::String("abc def".to_string()),
            lexeme: "\"abc def".to_string(),
        }]
    );
}

#[test]
fn lexemes_and_white_space_rebuild_the_source() {
    let src = "  f(\"a b\",\tc)  ;\n!= x1 ";
    let tokens = token_stream(src).remaining();
    let lexemes: Vec<&str> = tokens.iter().map(|t| t.lexeme.as_str()).collect();
    assert_eq!(lexemes, vec!["f", "(", "\"a b\"", ",", "c", ")", ";", "!=", "x1"]);
    let stripped: String = src.chars().filter(|c| !c.is_whitespace()).collect();
    let joined: String = lexemes.concat().chars().filter(|c| !c.is_whitespace()).collect();
    assert_eq!(stripped, joined);
}

#[test]
fn ideographic_space_is_white_space() {
    assert_eq!(token_stream("\u{3000}x").remaining(), vec![Token::identifier("x")]);
    assert_eq!(token_stream("é").remaining(), vec![Token { kind: Unknown, lexeme: "é".to_string() }]);
    let mut ts = token_stream(" \t\n");
    assert_eq!(ts.next(), None);
    assert_eq!(ts.next(), None);
}
