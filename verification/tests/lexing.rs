use lox::primitives::Literal;
use lox::primitives::TokenType;
use lox::scan::lexer::reserved;
use lox::scan::lexer::tokenize;
use lox::scan::failed;
use lox::scan::lexer::Lexer;
use lox::scan::tokens_of;
use lox::scan::Error;
use lox::status::ProgramState;
use lox::token::Token;

fn kinds(source: &str) -> Vec<Result<TokenType, Error>> {
    tokenize(source)
        .into_iter()
        .map(|item| item.map(|token| token.token_type))
        .collect()
}

fn lexemes(source: &str) -> Vec<String> {
    tokenize(source)
        .into_iter()
        .filter_map(Result::ok)
        .map(|token| token.lexeme.to_string())
        .collect()
}

#[test]
fn parentheses_then_end_of_file_then_nothing() {
    let mut lexer = Lexer::new("(()");
    let mut seen = Vec::new();
    while let Some(item) = lexer.next() {
        seen.push(item.unwrap().token_type);
    }
    assert_eq!(
        seen,
        vec![
            TokenType::LeftParenthesis,
            TokenType::LeftParenthesis,
            TokenType::RightParenthesis,
            TokenType::EndOfFile,
        ]
    );
    assert!(lexer.next().is_none());
    assert!(lexer.next().is_none());
}

#[test]
fn unrecognized_characters_do_not_stop_the_scan() {
    assert_eq!(
        kinds(",.$(#"),
        vec![
            Ok(TokenType::Comma),
            Ok(TokenType::Dot),
            Err(Error::UnrecognizedCharacter { line: 1, which: '$' }),
            Ok(TokenType::LeftParenthesis),
            Err(Error::UnrecognizedCharacter { line: 1, which: '#' }),
            Ok(TokenType::EndOfFile),
        ]
    );
}

#[test]
fn empty_source_is_one_end_of_file() {
    let items = tokenize("");
    assert_eq!(items.len(), 1);
    let token = items[0].as_ref().unwrap();
    assert_eq!(token.token_type, TokenType::EndOfFile);
    assert_eq!(token.lexeme, "");
    assert_eq!(token.literal, Literal::Null);
    assert_eq!(token.line, 1);
}

#[test]
fn single_character_tokens() {
    assert_eq!(
        kinds("(){}*.,;+-/"),
        vec![
            Ok(TokenType::LeftParenthesis),
            Ok(TokenType::RightParenthesis),
            Ok(TokenType::LeftBracket),
            Ok(TokenType::RightBracket),
            Ok(TokenType::Asterisk),
            Ok(TokenType::Dot),
            Ok(TokenType::Comma),
            Ok(TokenType::SemiColon),
            Ok(TokenType::Plus),
            Ok(TokenType::Minus),
            Ok(TokenType::Slash),
            Ok(TokenType::EndOfFile),
        ]
    );
}

#[test]
fn operators_look_one_character_ahead() {
    assert_eq!(
        kinds("! != = == > >= < <="),
        vec![
            Ok(TokenType::Bang),
            Ok(TokenType::BangEqual),
            Ok(TokenType::Equal),
            Ok(TokenType::EqualEqual),
            Ok(TokenType::Greater),
            Ok(TokenType::GreaterEqual),
            Ok(TokenType::Less),
            Ok(TokenType::LessEqual),
            Ok(TokenType::EndOfFile),
        ]
    );
    assert_eq!(lexemes("!==="), vec!["!=", "==", ""]);
    assert_eq!(lexemes("<=>"), vec!["<=", ">", ""]);
    assert_eq!(
        kinds("==="),
        vec![Ok(TokenType::EqualEqual), Ok(TokenType::Equal), Ok(TokenType::EndOfFile)]
    );
}

#[test]
fn comments_run_to_the_end_of_the_line() {
    assert_eq!(
        kinds("1 // two three\n/ 4 // five"),
        vec![
            Ok(TokenType::Number),
            Ok(TokenType::Slash),
            Ok(TokenType::Number),
            Ok(TokenType::EndOfFile),
        ]
    );
    let items = tokenize("// only a comment $ #");
    assert_eq!(items.len(), 1);
    let items = tokenize("//\n+");
    assert_eq!(items[0].as_ref().unwrap().line, 2);
}

#[test]
fn whitespace_is_skipped_and_newlines_are_counted() {
    let items = tokenize(" \t(\r\n\n )\u{a0}\u{3000}\n");
    let tokens: Vec<&Token> = items.iter().map(|item| item.as_ref().unwrap()).collect();
    assert_eq!(tokens.len(), 3);
    assert_eq!((tokens[0].token_type, tokens[0].line), (TokenType::LeftParenthesis, 1));
    assert_eq!((tokens[1].token_type, tokens[1].line), (TokenType::RightParenthesis, 3));
    assert_eq!((tokens[2].token_type, tokens[2].line), (TokenType::EndOfFile, 4));
}

#[test]
fn string_literal_excludes_its_quotes() {
    let items = tokenize("\"hello world\"");
    let token = items[0].as_ref().unwrap();
    assert_eq!(token.token_type, TokenType::String);
    assert_eq!(token.lexeme, "\"hello world\"");
    assert_eq!(token.literal, Literal::String("hello world".to_string()));
    assert_eq!(token.line, 1);
    let items = tokenize("\"\"");
    assert_eq!(items[0].as_ref().unwrap().literal, Literal::String(String::new()));
}

#[test]
fn string_literal_may_span_lines() {
    let items = tokenize("\"a\nb\n\" +");
    let token = items[0].as_ref().unwrap();
    assert_eq!(token.literal, Literal::String("a\nb\n".to_string()));
    assert_eq!(token.lexeme, "\"a\nb\n\"");
    assert_eq!(token.line, 3);
    assert_eq!(items[1].as_ref().unwrap().line, 3);
}

#[test]
fn string_literal_with_other_scripts() {
    let items = tokenize("(\"größe ≠ Γ\")");
    let token = items[1].as_ref().unwrap();
    assert_eq!(token.lexeme, "\"größe ≠ Γ\"");
    assert_eq!(token.literal, Literal::String("größe ≠ Γ".to_string()));
    assert_eq!(items[2].as_ref().unwrap().token_type, TokenType::RightParenthesis);
}

#[test]
fn unterminated_string_reports_its_first_line() {
    let items = tokenize("+\n\"abc\ndef\n");
    assert_eq!(items.len(), 3);
    assert_eq!(items[0].as_ref().unwrap().token_type, TokenType::Plus);
    assert_eq!(items[1], Err(Error::UnterminatedString { line: 2 }));
    let last = items[2].as_ref().unwrap();
    assert_eq!(last.token_type, TokenType::EndOfFile);
    assert_eq!(last.line, 4);
}

#[test]
fn unterminated_string_leaves_the_scanner_at_the_end() {
    let mut lexer = Lexer::new("\"abc ( )");
    assert_eq!(lexer.next().unwrap(), Err(Error::UnterminatedString { line: 1 }));
    assert_eq!(lexer.index, 8);
    assert_eq!(lexer.next().unwrap().unwrap().token_type, TokenType::EndOfFile);
    assert!(lexer.next().is_none());
}

#[test]
fn numbers_keep_their_numeral() {
    let items = tokenize("42 3.14 007");
    let first = items[0].as_ref().unwrap();
    assert_eq!(first.token_type, TokenType::Number);
    assert_eq!(first.lexeme, "42");
    assert_eq!(first.literal, Literal::Number("42".to_string()));
    let second = items[1].as_ref().unwrap();
    assert_eq!(second.lexeme, "3.14");
    assert_eq!(second.literal, Literal::Number("3.14".to_string()));
    assert_eq!(items[2].as_ref().unwrap().lexeme, "007");
}

#[test]
fn a_second_dot_ends_a_number() {
    assert_eq!(lexemes("1.2.3"), vec!["1.2", ".", "3", ""]);
    assert_eq!(
        kinds("1.2.3"),
        vec![
            Ok(TokenType::Number),
            Ok(TokenType::Dot),
            Ok(TokenType::Number),
            Ok(TokenType::EndOfFile),
        ]
    );
    assert_eq!(lexemes("12.+"), vec!["12.", "+", ""]);
    assert_eq!(lexemes("1..2"), vec!["1.", ".", "2", ""]);
    assert_eq!(kinds(".5"), vec![Ok(TokenType::Dot), Ok(TokenType::Number), Ok(TokenType::EndOfFile)]);
}

#[test]
fn numerals_are_numbers_to_the_standard_library() {
    for source in ["0", "12", "12.", "12.5", "0.001", "123456789012345678901234567890.5"] {
        let items = tokenize(source);
        assert_eq!(items.len(), 2);
        match &items[0].as_ref().unwrap().literal {
            Literal::Number(text) => {
                assert_eq!(text, source);
                assert!(text.parse::<f64>().is_ok());
            }
            other => panic!("no number: {:?}", other),
        }
    }
}

#[test]
fn identifiers_and_reserved_words() {
    assert_eq!(
        kinds("and class else false for fun if nil or print return super this true var while"),
        vec![
            Ok(TokenType::And),
            Ok(TokenType::Class),
            Ok(TokenType::Else),
            Ok(TokenType::False),
            Ok(TokenType::For),
            Ok(TokenType::Fun),
            Ok(TokenType::If),
            Ok(TokenType::Nil),
            Ok(TokenType::Or),
            Ok(TokenType::Print),
            Ok(TokenType::Return),
            Ok(TokenType::Super),
            Ok(TokenType::This),
            Ok(TokenType::True),
            Ok(TokenType::Var),
            Ok(TokenType::While),
            Ok(TokenType::EndOfFile),
        ]
    );
    assert_eq!(
        kinds("_x andy If nil_ x1 classes"),
        vec![
            Ok(TokenType::Identifier),
            Ok(TokenType::Identifier),
            Ok(TokenType::Identifier),
            Ok(TokenType::Identifier),
            Ok(TokenType::Identifier),
            Ok(TokenType::Identifier),
            Ok(TokenType::EndOfFile),
        ]
    );
    assert_eq!(lexemes("foo_bar1+b2"), vec!["foo_bar1", "+", "b2", ""]);
    assert_eq!(lexemes("1abc"), vec!["1", "abc", ""]);
}

#[test]
fn reserved_word_table() {
    assert_eq!(reserved("while"), Some(TokenType::While));
    assert_eq!(reserved("nil"), Some(TokenType::Nil));
    assert_eq!(reserved("whil"), None);
    assert_eq!(reserved("While"), None);
    assert_eq!(reserved(""), None);
}

#[test]
fn letters_outside_ascii_are_not_recognized() {
    assert_eq!(
        kinds("é"),
        vec![Err(Error::UnrecognizedCharacter { line: 1, which: 'é' }), Ok(TokenType::EndOfFile)]
    );
    assert_eq!(
        kinds("a\n٣"),
        vec![
            Ok(TokenType::Identifier),
            Err(Error::UnrecognizedCharacter { line: 2, which: '٣' }),
            Ok(TokenType::EndOfFile),
        ]
    );
}

#[test]
fn either_reads_the_target_only() {
    let mut lexer = Lexer::new("=x");
    assert_eq!(
        lexer.either('=', TokenType::BangEqual, TokenType::Bang),
        TokenType::BangEqual
    );
    assert_eq!(lexer.index, 1);
    assert_eq!(lexer.either('=', TokenType::BangEqual, TokenType::Bang), TokenType::Bang);
    assert_eq!(lexer.index, 1);
    let mut lexer = Lexer::new("");
    assert_eq!(lexer.either('=', TokenType::LessEqual, TokenType::Less), TokenType::Less);
    assert_eq!(lexer.index, 0);
    let mut lexer = Lexer::new("\n");
    assert_eq!(lexer.either('\n', TokenType::Plus, TokenType::Minus), TokenType::Plus);
    assert_eq!((lexer.index, lexer.line), (1, 2));
}

#[test]
fn a_new_scanner_stands_at_the_start() {
    let lexer = Lexer::new("abc");
    assert_eq!(lexer.input, "abc");
    assert_eq!(lexer.index, 0);
    assert_eq!(lexer.line, 1);
    assert_eq!(lexer.length, 3);
    assert!(!lexer.finished);
}

#[test]
fn every_lexeme_is_the_source_between_its_offsets() {
    let source = "var größe = (1.5 + x_1) >= \"a\nb\" // done\n!= nil;";
    let characters: Vec<char> = source.chars().collect();
    let mut lexer = Lexer::new(source);
    let mut before = lexer.index;
    let mut count = 0;
    while let Some(item) = lexer.next() {
        let after = lexer.index;
        if let Ok(token) = item {
            let length = token.lexeme.chars().count();
            let slice: String = characters[after - length..after].iter().collect();
            assert_eq!(token.lexeme, slice);
            assert!(after - length >= before);
            count += 1;
        }
        before = after;
    }
    assert_eq!(before, characters.len());
    assert_eq!(count, 15);
}

#[test]
fn exactly_one_end_of_file_and_it_is_last() {
    for source in ["", "1 + 2", "\"open", "$ # @", "// c", "a\nb\n", "((((", "1.2.3.4"] {
        let items = tokenize(source);
        let ends = items
            .iter()
            .filter(|item| matches!(item, Ok(token) if token.token_type == TokenType::EndOfFile))
            .count();
        assert_eq!(ends, 1);
        assert_eq!(items.last().unwrap().as_ref().unwrap().token_type, TokenType::EndOfFile);
        assert_eq!(items.last().unwrap().as_ref().unwrap().lexeme, "");
    }
}

#[test]
fn tokenize_yields_what_next_yields() {
    let source = "(1 + 2) * \"three\" $ != four // five\n6";
    let mut lexer = Lexer::new(source);
    let mut stepwise = Vec::new();
    while let Some(item) = lexer.next() {
        stepwise.push(item.map(|token| (token.token_type, token.lexeme, token.literal, token.line)));
    }
    let whole: Vec<_> = tokenize(source)
        .into_iter()
        .map(|item| item.map(|token| (token.token_type, token.lexeme, token.literal, token.line)))
        .collect();
    assert_eq!(stepwise, whole);
    assert_eq!(whole.len(), 12);
}

#[test]
fn lexical_error_messages() {
    assert_eq!(
        Error::UnrecognizedCharacter { line: 1, which: '$' }.message(),
        "[line 1] Error: Unexpected character: $"
    );
    assert_eq!(
        Error::UnrecognizedCharacter { line: 120, which: '#' }.message(),
        "[line 120] Error: Unexpected character: #"
    );
    assert_eq!(
        Error::UnterminatedString { line: 7 }.message(),
        "[line 7] Error: Unterminated string."
    );
    assert_eq!(
        Error::UnterminatedString { line: 0 }.message(),
        "[line 0] Error: Unterminated string."
    );
}

#[test]
fn token_listing() {
    let items = tokenize("(\"hi\" 4.50 nil");
    let lines: Vec<String> = items.iter().map(|item| item.as_ref().unwrap().render()).collect();
    assert_eq!(
        lines,
        vec!["LEFT_PAREN ( null", "STRING \"hi\" hi", "NUMBER 4.50 4.50", "NIL nil null", "EOF  null"]
    );
    let token = Token::new(TokenType::Identifier, "x", Literal::Null, 3);
    assert_eq!(token.render(), "IDENTIFIER x null");
    let twin = token.copy();
    assert_eq!((twin.token_type, twin.lexeme, twin.literal, twin.line), (TokenType::Identifier, "x", Literal::Null, 3));
}

#[test]
fn tokens_without_the_errors() {
    let items = tokenize("1 $ + # \"open");
    assert!(failed(&items));
    let tokens = tokens_of(&items);
    let seen: Vec<(TokenType, &str)> =
        tokens.iter().map(|token| (token.token_type, token.lexeme)).collect();
    assert_eq!(
        seen,
        vec![(TokenType::Number, "1"), (TokenType::Plus, "+"), (TokenType::EndOfFile, "")]
    );
    assert_eq!(tokens[0].literal, Literal::Number("1".to_string()));
    let items = tokenize("1 + 2");
    assert!(!failed(&items));
    assert_eq!(tokens_of(&items).len(), 4);
    assert_eq!(tokens_of(&items), items.into_iter().map(Result::unwrap).collect::<Vec<_>>());
    assert!(!failed(&Vec::new()));
    assert!(tokens_of(&Vec::new()).is_empty());
}

#[test]
fn exit_statuses() {
    assert_eq!(ProgramState::Success.code(), 0);
    assert_eq!(ProgramState::LexerError.code(), 65);
    assert_eq!(ProgramState::ParserError.code(), 65);
    assert_eq!(ProgramState::RuntimeException.code(), 70);
}
