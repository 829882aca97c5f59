use lox::expr::binary::BinaryOperator;
use lox::expr::expression::Expr;
use lox::expr::unary::UnaryOperator;
use lox::front::parse_source;
use lox::parser::parser::Parser;
use lox::parser::Error;
use lox::primitives::Literal;
use lox::primitives::TokenType;
use lox::scan::lexer::tokenize;
use lox::scan::tokens_of;
use lox::token::Token;

fn tokens(source: &str) -> Vec<Token<'_>> {
    tokens_of(&tokenize(source))
}

fn parse(source: &str) -> Result<Expr, Error> {
    Parser::new(tokens(source)).parse()
}

fn printed(source: &str) -> String {
    parse(source).unwrap().render()
}

fn number(text: &str) -> Box<Expr> {
    Box::new(Expr::Literal(Literal::Number(text.to_string())))
}

#[test]
fn multiplication_binds_tighter_than_addition() {
    assert_eq!(printed("2 + 3 * 4"), "(+ 2 (* 3 4))");
    assert_eq!(
        parse("2 + 3 * 4").unwrap(),
        Expr::Binary {
            operator: BinaryOperator::Plus,
            left: number("2"),
            right: Box::new(Expr::Binary {
                operator: BinaryOperator::Multiplication,
                left: number("3"),
                right: number("4"),
            }),
        }
    );
    assert_eq!(printed("2 * 3 + 4"), "(+ (* 2 3) 4)");
}

#[test]
fn literals() {
    assert_eq!(parse("true").unwrap(), Expr::Literal(Literal::True));
    assert_eq!(parse("false").unwrap(), Expr::Literal(Literal::False));
    assert_eq!(parse("nil").unwrap(), Expr::Literal(Literal::Null));
    assert_eq!(parse("12.50").unwrap(), Expr::Literal(Literal::Number("12.50".to_string())));
    assert_eq!(parse("\"a b\"").unwrap(), Expr::Literal(Literal::String("a b".to_string())));
    assert_eq!(printed("true"), "true");
    assert_eq!(printed("false"), "false");
    assert_eq!(printed("nil"), "nil");
    assert_eq!(printed("12.50"), "12.50");
    assert_eq!(printed("\"a b\""), "a b");
}

#[test]
fn binary_levels_fold_to_the_left() {
    assert_eq!(printed("1 - 2 - 3"), "(- (- 1 2) 3)");
    assert_eq!(printed("8 / 4 / 2 * 3"), "(* (/ (/ 8 4) 2) 3)");
    assert_eq!(printed("1 < 2 <= 3 > 4 >= 5"), "(>= (> (<= (< 1 2) 3) 4) 5)");
    assert_eq!(printed("1 == 2 != 3 == 4"), "(== (!= (== 1 2) 3) 4)");
}

#[test]
fn precedence_of_all_levels() {
    assert_eq!(
        printed("1 == 2 < 3 + 4 * -5"),
        "(== 1 (< 2 (+ 3 (* 4 (- 5)))))"
    );
    assert_eq!(
        printed("-1 * 2 + 3 > 4 != true"),
        "(!= (> (+ (* (- 1) 2) 3) 4) true)"
    );
    assert_eq!(printed("1 + 2 == 3"), "(== (+ 1 2) 3)");
}

#[test]
fn unary_operators_nest_to_the_right() {
    assert_eq!(printed("!!true"), "(! (! true))");
    assert_eq!(printed("-!-1"), "(- (! (- 1)))");
    assert_eq!(printed("1 - -2"), "(- 1 (- 2))");
    assert_eq!(
        parse("-1").unwrap(),
        Expr::Unary { operator: UnaryOperator::Minus, right: number("1") }
    );
}

#[test]
fn groupings() {
    assert_eq!(printed("(1 + 2) * 3"), "(* (group (+ 1 2)) 3)");
    assert_eq!(printed("((nil))"), "(group (group nil))");
    assert_eq!(printed("-(1)"), "(- (group 1))");
    assert_eq!(printed("(\"a\" + \"b\") == \"ab\""), "(== (group (+ a b)) ab)");
    assert_eq!(parse("(1)").unwrap(), Expr::Grouping(number("1")));
}

#[test]
fn missing_token() {
    assert_eq!(parse(""), Err(Error::MissingToken));
    assert_eq!(parse("1 +"), Err(Error::MissingToken));
    assert_eq!(parse("-"), Err(Error::MissingToken));
    assert_eq!(parse("("), Err(Error::MissingToken));
    assert_eq!(parse("(1 + 2"), Err(Error::MissingToken));
    assert_eq!(parse("1 == (2 *"), Err(Error::MissingToken));
}

#[test]
fn unexpected_token_where_an_operand_must_stand() {
    assert_eq!(
        parse(")"),
        Err(Error::UnexpectedToken { line: 1, lexeme: ")".to_string() })
    );
    assert_eq!(
        parse("1 +\n* 2"),
        Err(Error::UnexpectedToken { line: 2, lexeme: "*".to_string() })
    );
    assert_eq!(
        parse("\n\nfoo"),
        Err(Error::UnexpectedToken { line: 3, lexeme: "foo".to_string() })
    );
    assert_eq!(
        parse("(;"),
        Err(Error::UnexpectedToken { line: 1, lexeme: ";".to_string() })
    );
}

#[test]
fn grouping_reports_the_token_found_in_place_of_the_parenthesis() {
    assert_eq!(
        parse("(1 2)"),
        Err(Error::UnexpectedToken { line: 1, lexeme: "2".to_string() })
    );
    assert_eq!(
        parse("(1 +\n2\n;"),
        Err(Error::UnexpectedToken { line: 3, lexeme: ";".to_string() })
    );
}

#[test]
fn tokens_left_over_are_reported() {
    assert_eq!(
        parse("1 2"),
        Err(Error::UnexpectedToken { line: 1, lexeme: "2".to_string() })
    );
    assert_eq!(
        parse("(1))"),
        Err(Error::UnexpectedToken { line: 1, lexeme: ")".to_string() })
    );
    assert_eq!(
        parse("1 + 2\n= 3"),
        Err(Error::UnexpectedToken { line: 2, lexeme: "=".to_string() })
    );
}

#[test]
fn the_first_error_ends_the_parse() {
    assert_eq!(
        parse("1 + ) + ;"),
        Err(Error::UnexpectedToken { line: 1, lexeme: ")".to_string() })
    );
}

#[test]
fn end_of_file_is_removed_only_at_the_end() {
    let all = tokens("1 + 2");
    assert_eq!(all.last().unwrap().token_type, TokenType::EndOfFile);
    assert_eq!(Parser::new(all).parse().unwrap().render(), "(+ 1 2)");
    let mut bare = tokens("1 + 2");
    bare.pop();
    assert_eq!(Parser::new(bare).parse().unwrap().render(), "(+ 1 2)");
    let mut doubled = tokens("1");
    doubled.push(Token::new(TokenType::EndOfFile, "", Literal::Null, 9));
    assert_eq!(
        Parser::new(doubled).parse(),
        Err(Error::UnexpectedToken { line: 1, lexeme: "".to_string() })
    );
    assert_eq!(Parser::new(Vec::new()).parse(), Err(Error::MissingToken));
}

#[test]
fn syntax_error_messages() {
    assert_eq!(
        Error::UnexpectedToken { line: 12, lexeme: ")".to_string() }.message(),
        "[line 12] error at ')': Expect expression."
    );
    assert_eq!(
        Error::UnexpectedToken { line: 1, lexeme: String::new() }.message(),
        "[line 1] error at '': Expect expression."
    );
    assert_eq!(Error::MissingToken.message(), "A token was expected, but none were found.");
}

#[test]
fn printing_by_hand_built_trees() {
    let tree = Expr::Binary {
        operator: BinaryOperator::LessEqual,
        left: Box::new(Expr::Unary {
            operator: UnaryOperator::Bang,
            right: Box::new(Expr::Literal(Literal::Null)),
        }),
        right: Box::new(Expr::Grouping(Box::new(Expr::Literal(Literal::String(
            "s".to_string(),
        ))))),
    };
    assert_eq!(tree.render(), "(<= (! nil) (group s))");
    let mut out = String::from("> ");
    tree.write(&mut out);
    assert_eq!(out, "> (<= (! nil) (group s))");
}

fn spelled(tree: &Expr, out: &mut Vec<TokenType>) {
    match tree {
        Expr::Literal(Literal::Null) => out.push(TokenType::Nil),
        Expr::Literal(Literal::True) => out.push(TokenType::True),
        Expr::Literal(Literal::False) => out.push(TokenType::False),
        Expr::Literal(Literal::Number(_)) => out.push(TokenType::Number),
        Expr::Literal(Literal::String(_)) => out.push(TokenType::String),
        Expr::Grouping(inner) => {
            out.push(TokenType::LeftParenthesis);
            spelled(inner, out);
            out.push(TokenType::RightParenthesis);
        }
        Expr::Unary { operator, right } => {
            out.push(match operator {
                UnaryOperator::Bang => TokenType::Bang,
                UnaryOperator::Minus => TokenType::Minus,
            });
            spelled(right, out);
        }
        Expr::Binary { operator, left, right } => {
            spelled(left, out);
            out.push(match operator {
                BinaryOperator::BangEqual => TokenType::BangEqual,
                BinaryOperator::EqualEqual => TokenType::EqualEqual,
                BinaryOperator::Greater => TokenType::Greater,
                BinaryOperator::GreaterEqual => TokenType::GreaterEqual,
                BinaryOperator::Less => TokenType::Less,
                BinaryOperator::LessEqual => TokenType::LessEqual,
                BinaryOperator::Minus => TokenType::Minus,
                BinaryOperator::Plus => TokenType::Plus,
                BinaryOperator::Division => TokenType::Slash,
                BinaryOperator::Multiplication => TokenType::Asterisk,
            });
            spelled(right, out);
        }
    }
}

fn rank(operator: &BinaryOperator) -> u32 {
    match operator {
        BinaryOperator::BangEqual | BinaryOperator::EqualEqual => 4,
        BinaryOperator::Greater
        | BinaryOperator::GreaterEqual
        | BinaryOperator::Less
        | BinaryOperator::LessEqual => 3,
        BinaryOperator::Minus | BinaryOperator::Plus => 2,
        BinaryOperator::Division | BinaryOperator::Multiplication => 1,
    }
}

fn stands(tree: &Expr, at: u32) -> bool {
    match tree {
        Expr::Literal(_) => true,
        Expr::Grouping(inner) => stands(inner, 4),
        Expr::Unary { right, .. } => stands(right, 0),
        Expr::Binary { operator, left, right } => {
            let own = rank(operator);
            own <= at && stands(left, own) && stands(right, own - 1)
        }
    }
}

#[test]
fn every_tree_is_written_by_its_tokens_and_nests_by_precedence() {
    let words = [
        "1", "2.5", "\"s\"", "true", "false", "nil", "(", ")", "!", "-", "+", "*", "/", "<", "<=",
        ">", ">=", "==", "!=",
    ];
    let mut state: u64 = 0x2545_f491_4f6c_dd1d;
    let mut parsed = 0;
    for _ in 0..20000 {
        let mut source = String::new();
        state = state.wrapping_mul(6364136223846793005).wrapping_add(1442695040888963407);
        let length = 1 + (state >> 60) as usize % 9;
        for _ in 0..length {
            state = state.wrapping_mul(6364136223846793005).wrapping_add(1442695040888963407);
            source.push_str(words[(state >> 33) as usize % words.len()]);
            source.push(' ');
        }
        let all = tokens(&source);
        let mut kinds: Vec<TokenType> = all.iter().map(|token| token.token_type).collect();
        assert_eq!(kinds.pop(), Some(TokenType::EndOfFile));
        if let Ok(tree) = Parser::new(all).parse() {
            let mut written = Vec::new();
            spelled(&tree, &mut written);
            assert_eq!(written, kinds, "{}", source);
            assert!(stands(&tree, 4), "{}", source);
            parsed += 1;
        }
    }
    assert!(parsed > 500);
}

#[test]
fn the_tokens_of_a_printed_tree_spell_one_tree_only() {
    for source in [
        "1 + 2 * 3 - 4 / 5",
        "(1 + 2) * (3 - 4)",
        "!(1 < 2) == (3 >= 4) != true",
        "--1 - -2",
        "((1))",
        "\"a\" + \"b\" == \"ab\"",
    ] {
        let first = parse(source).unwrap();
        let mut written = Vec::new();
        spelled(&first, &mut written);
        let again = parse(source).unwrap();
        assert_eq!(first, again);
        assert!(stands(&first, 4));
        let kinds: Vec<TokenType> = tokens(source).iter().map(|token| token.token_type).collect();
        assert_eq!(written[..], kinds[..kinds.len() - 1]);
    }
}

#[test]
fn a_source_text_is_scanned_and_parsed() {
    assert_eq!(parse_source("2 + 3 * 4").unwrap().render(), "(+ 2 (* 3 4))");
    assert_eq!(parse_source("(\"a\"\n+ \"b\") // sum").unwrap().render(), "(group (+ a b))");
    assert_eq!(parse_source(""), Err(Error::MissingToken));
    assert_eq!(parse_source("// nothing"), Err(Error::MissingToken));
    assert_eq!(
        parse_source("1 +\n\n;"),
        Err(Error::UnexpectedToken { line: 3, lexeme: ";".to_string() })
    );
    for source in ["1", "1 + $ 2", "# (1) @", "!true == \"a", "1 2", "((1)", "-"] {
        assert_eq!(parse_source(source), parse(source), "{}", source);
    }
    assert_eq!(parse_source("1 + $ 2").unwrap().render(), "(+ 1 2)");
}
