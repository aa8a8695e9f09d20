use tusk_parser::BinaryOp;
use tusk_parser::Class;
use tusk_parser::ClosureType;
use tusk_parser::Else;
use tusk_parser::Expression;
use tusk_parser::Flag;
use tusk_parser::Function;
use tusk_parser::FunctionParameter;
use tusk_parser::If;
use tusk_parser::Parser;
use tusk_parser::ParserError;
use tusk_parser::Property;
use tusk_parser::Statement;
use tusk_parser::Token;
use tusk_parser::TokenKind;

fn keyword(word: &str) -> Option<TokenKind> {
    Some(match word {
        "abstract" => TokenKind::Abstract,
        "as" => TokenKind::As,
        "break" => TokenKind::Break,
        "class" => TokenKind::Class,
        "continue" => TokenKind::Continue,
        "do" => TokenKind::Do,
        "echo" => TokenKind::Echo,
        "else" => TokenKind::Else,
        "elseif" => TokenKind::ElseIf,
        "extends" => TokenKind::Extends,
        "false" => TokenKind::False,
        "final" => TokenKind::Final,
        "fn" => TokenKind::ShortFunction,
        "foreach" => TokenKind::Foreach,
        "function" => TokenKind::Function,
        "if" => TokenKind::If,
        "implements" => TokenKind::Implements,
        "new" => TokenKind::New,
        "null" => TokenKind::Null,
        "private" => TokenKind::Private,
        "protected" => TokenKind::Protected,
        "public" => TokenKind::Public,
        "return" => TokenKind::Return,
        "static" => TokenKind::Static,
        "true" => TokenKind::True,
        "use" => TokenKind::Use,
        "while" => TokenKind::While,
        _ => return None,
    })
}

fn punctuation(text: &str) -> Option<(TokenKind, usize)> {
    let two = [
        ("->", TokenKind::Arrow),
        ("=>", TokenKind::DoubleArrow),
        ("<=", TokenKind::LessThanEquals),
        (">=", TokenKind::GreaterThanEquals),
        ("<<", TokenKind::BitwiseLeftShift),
        (">>", TokenKind::BitwiseRightShift),
        ("&&", TokenKind::And),
        ("||", TokenKind::Or),
    ];
    for (symbol, kind) in two {
        if text.starts_with(symbol) {
            return Some((kind, 2));
        }
    }
    let kind = match text.chars().next()? {
        '(' => TokenKind::LeftParen,
        ')' => TokenKind::RightParen,
        '{' => TokenKind::LeftBrace,
        '}' => TokenKind::RightBrace,
        '[' => TokenKind::LeftBracket,
        ']' => TokenKind::RightBracket,
        ',' => TokenKind::Comma,
        ';' => TokenKind::SemiColon,
        ':' => TokenKind::Colon,
        '=' => TokenKind::Equals,
        '+' => TokenKind::Plus,
        '-' => TokenKind::Minus,
        '*' => TokenKind::Asterisk,
        '/' => TokenKind::Slash,
        '%' => TokenKind::Percent,
        '.' => TokenKind::Period,
        '!' => TokenKind::Not,
        '&' => TokenKind::BitwiseAnd,
        '|' => TokenKind::BitwiseOr,
        '^' => TokenKind::BitwiseXor,
        '~' => TokenKind::BitwiseNot,
        '<' => TokenKind::LessThan,
        '>' => TokenKind::GreaterThan,
        _ => TokenKind::Other,
    };
    Some((kind, 1))
}

/// Cuts a source text into tokens, for the tests only.
fn lex(source: &str) -> Vec<Token> {
    let bytes = source.as_bytes();
    let word = |c: u8| c.is_ascii_alphanumeric() || c == b'_';
    let mut tokens = Vec::new();
    let mut i = 0;
    while i < bytes.len() {
        let c = bytes[i];
        let start = i;
        if c.is_ascii_whitespace() {
            i += 1;
            continue;
        }
        if source[i..].starts_with("<?php") {
            i += 5;
            tokens.push(Token::new(TokenKind::OpenTag, &source[start..i]));
        } else if source[i..].starts_with("/**") {
            i += source[i..].find("*/").map(|n| n + 2).unwrap_or(bytes.len() - i);
            tokens.push(Token::new(TokenKind::DocBlockComment, &source[start..i]));
        } else if c == b'\'' || c == b'"' {
            i += 1;
            while i < bytes.len() && bytes[i] != c {
                i += 1;
            }
            i = (i + 1).min(bytes.len());
            tokens.push(Token::new(TokenKind::String, &source[start..i]));
        } else if c.is_ascii_digit() {
            while i < bytes.len() && bytes[i].is_ascii_digit() {
                i += 1;
            }
            if i + 1 < bytes.len() && bytes[i] == b'.' && bytes[i + 1].is_ascii_digit() {
                i += 1;
                while i < bytes.len() && bytes[i].is_ascii_digit() {
                    i += 1;
                }
                let slice = &source[start..i];
                tokens.push(match slice.parse::<f64>() {
                    Ok(number) => Token::float(slice, number.to_bits()),
                    Err(_) => Token::new(TokenKind::Float, slice),
                });
            } else {
                tokens.push(Token::new(TokenKind::Integer, &source[start..i]));
            }
        } else if c == b'$' {
            i += 1;
            while i < bytes.len() && word(bytes[i]) {
                i += 1;
            }
            tokens.push(Token::new(TokenKind::Variable, &source[start..i]));
        } else if c == b'?' && i + 1 < bytes.len() && word(bytes[i + 1]) {
            i += 1;
            while i < bytes.len() && word(bytes[i]) {
                i += 1;
            }
            tokens.push(Token::new(TokenKind::NullableIdentifier, &source[start..i]));
        } else if word(c) {
            while i < bytes.len() && word(bytes[i]) {
                i += 1;
            }
            let slice = &source[start..i];
            tokens.push(Token::new(keyword(slice).unwrap_or(TokenKind::Identifier), slice));
        } else {
            let (kind, length) = punctuation(&source[i..]).unwrap();
            i += length;
            tokens.push(Token::new(kind, &source[start..i]));
        }
    }
    tokens
}

fn parse(source: &str) -> Result<Vec<Statement>, ParserError> {
    Parser::new(lex(source)).all()
}

/// Parses the expression at the beginning of `source`, which some token
/// must follow, and says how many tokens it took.
fn expression(source: &str) -> (Expression, usize) {
    Parser::parse_expression(&lex(source), 0, 0, None).unwrap()
}

fn assert_statements_match(source: &str, statements: Vec<Statement>) {
    let mut parser = Parser::new(lex(source));

    let program = parser.all();

    assert_eq!(program.unwrap(), statements);
}

fn integer(n: i64) -> Expression {
    Expression::Integer(n)
}

fn variable(name: &str) -> Expression {
    Expression::Variable(name.to_owned())
}

fn identifier(name: &str) -> Expression {
    Expression::Identifier(name.to_owned())
}

fn string(text: &str) -> Expression {
    Expression::String(text.to_owned())
}

fn boxed(e: Expression) -> Box<Expression> {
    Box::new(e)
}

fn binary(lhs: Expression, op: BinaryOp, rhs: Expression) -> Expression {
    Expression::Binary(boxed(lhs), op, boxed(rhs))
}

fn item(key: Expression, value: Expression) -> Expression {
    Expression::ArrayItem { key: boxed(key), value: boxed(value) }
}

fn function(name: &str, flags: Vec<Flag>) -> Function {
    Function::new(Some(name.to_owned()), vec![], vec![], None, flags, None)
}

#[test]
fn test_it_can_be_created() {
    let lexer = lex("");

    Parser::new(lexer);
}

#[test]
fn test_it_can_parse_literals() {
    assert_statements_match(
        "12345 12345.6789 'Hello, world!'",
        vec![
            Statement::Expression(Expression::Integer(12345)),
            Statement::Expression(Expression::Float(12345.6789f64.to_bits())),
            Statement::Expression(Expression::String("Hello, world!".to_owned())),
        ],
    );
}

#[test]
fn an_empty_program_has_no_statements() {
    assert_eq!(parse("").unwrap(), vec![]);
    assert_eq!(tusk_parser::parse(vec![]).unwrap(), vec![]);
}

#[test]
fn a_program_is_parsed_in_one_call() {
    assert_eq!(
        tusk_parser::parse(lex("<?php echo 1; break;")).unwrap(),
        vec![Statement::OpenTag, Statement::Echo(integer(1)), Statement::Break]
    );
    assert_eq!(tusk_parser::parse(lex("echo")), Err(ParserError::UnexpectedEndOfFile));
}

#[test]
fn a_sole_integer_token_is_an_expression_statement() {
    for n in [0i64, 7, 12345, i64::MAX] {
        let text = n.to_string();
        assert_eq!(parse(&text).unwrap(), vec![Statement::Expression(integer(n))]);
    }
    let signed = vec![Token::new(TokenKind::Integer, "-9223372036854775808")];
    assert_eq!(
        Parser::new(signed).all().unwrap(),
        vec![Statement::Expression(integer(i64::MIN))]
    );
    let plus = vec![Token::new(TokenKind::Integer, "+0042")];
    assert_eq!(Parser::new(plus).all().unwrap(), vec![Statement::Expression(integer(42))]);
}

#[test]
fn an_integer_that_does_not_fit_is_rejected() {
    assert_eq!(parse("9223372036854775808"), Err(ParserError::IntegerParserError));
    let no_digits = vec![Token::new(TokenKind::Integer, "-")];
    assert_eq!(Parser::new(no_digits).all(), Err(ParserError::IntegerParserError));
    let underscore = vec![Token::new(TokenKind::Integer, "1_000")];
    assert_eq!(Parser::new(underscore).all(), Err(ParserError::IntegerParserError));
    let empty = vec![Token::new(TokenKind::Integer, "")];
    assert_eq!(Parser::new(empty).all(), Err(ParserError::IntegerParserError));
}

#[test]
fn a_sole_float_token_is_an_expression_statement() {
    for number in [0.5f64, 12345.6789, 1.0e10] {
        let tokens = vec![Token::float("x", number.to_bits())];
        assert_eq!(
            Parser::new(tokens).all().unwrap(),
            vec![Statement::Expression(Expression::Float(number.to_bits()))]
        );
    }
}

#[test]
fn a_float_without_a_number_is_rejected() {
    let tokens = vec![Token::new(TokenKind::Float, "1.2.3")];
    assert_eq!(Parser::new(tokens).all(), Err(ParserError::FloatParserError));
    let inside =
        lex("echo ").into_iter().chain(vec![Token::new(TokenKind::Float, "x")]).collect();
    assert_eq!(Parser::new(inside).all(), Err(ParserError::FloatParserError));
}

#[test]
fn a_string_loses_its_quotes_exactly_once() {
    assert_eq!(parse("'abc'").unwrap(), vec![Statement::Expression(string("abc"))]);
    assert_eq!(parse("\"abc\"").unwrap(), vec![Statement::Expression(string("abc"))]);
    assert_eq!(parse("\"'abc'\"").unwrap(), vec![Statement::Expression(string("'abc'"))]);
    assert_eq!(parse("''").unwrap(), vec![Statement::Expression(string(""))]);
    assert_eq!(expression("'a b' ;"), (string("a b"), 1));
}

#[test]
fn a_string_statement_takes_the_next_token_along() {
    assert_eq!(
        parse("'a'; 'b' 'c' 1").unwrap(),
        vec![
            Statement::Expression(string("a")),
            Statement::Expression(string("b")),
            Statement::Expression(integer(1)),
        ]
    );
}

fn one_plus_two_times_three() -> Expression {
    binary(integer(1), BinaryOp::Add, binary(integer(2), BinaryOp::Multiply, integer(3)))
}

#[test]
fn multiplication_binds_tighter_than_addition() {
    assert_eq!(expression("1 + 2 * 3 ;"), (one_plus_two_times_three(), 5));
    assert_eq!(parse("echo 1 + 2 * 3;").unwrap(), vec![Statement::Echo(one_plus_two_times_three())]);
    assert_eq!(
        expression("1 * 2 + 3 ;").0,
        binary(binary(integer(1), BinaryOp::Multiply, integer(2)), BinaryOp::Add, integer(3))
    );
}

#[test]
fn operators_of_one_level_associate_to_the_left() {
    assert_eq!(
        expression("1 - 2 + 3 ;").0,
        binary(binary(integer(1), BinaryOp::Subtract, integer(2)), BinaryOp::Add, integer(3))
    );
    assert_eq!(
        expression("'a' . 'b' . 'c' ;").0,
        Expression::Concat(
            boxed(Expression::Concat(boxed(string("a")), boxed(string("b")))),
            boxed(string("c"))
        )
    );
}

#[test]
fn every_level_of_precedence_is_in_its_place() {
    // each operator binds tighter than the one after it
    let ladder = [
        ("*", BinaryOp::Multiply),
        ("<<", BinaryOp::BitwiseLeftShift),
        ("&", BinaryOp::BitwiseAnd),
        ("^", BinaryOp::BitwiseXor),
        ("|", BinaryOp::BitwiseOr),
        ("+", BinaryOp::Add),
        ("&&", BinaryOp::And),
        ("||", BinaryOp::Or),
        ("<", BinaryOp::LessThan),
    ];
    for pair in ladder.windows(2) {
        let (tight, tight_op) = pair[0];
        let (loose, loose_op) = pair[1];
        let source = format!("1 {} 2 {} 3 ;", loose, tight);
        assert_eq!(
            expression(&source).0,
            binary(integer(1), loose_op, binary(integer(2), tight_op, integer(3))),
            "{}",
            source
        );
        let source = format!("1 {} 2 {} 3 ;", tight, loose);
        assert_eq!(
            expression(&source).0,
            binary(binary(integer(1), tight_op, integer(2)), loose_op, integer(3)),
            "{}",
            source
        );
    }
}

#[test]
fn comparisons_are_binary_expressions() {
    assert_eq!(expression("1 < 2 ;").0, binary(integer(1), BinaryOp::LessThan, integer(2)));
    assert_eq!(expression("1 > 2 ;").0, binary(integer(1), BinaryOp::GreaterThan, integer(2)));
    assert_eq!(
        expression("1 <= 2 ;").0,
        binary(integer(1), BinaryOp::LessThanEquals, integer(2))
    );
    assert_eq!(
        expression("1 >= 2 ;").0,
        binary(integer(1), BinaryOp::GreaterThanEquals, integer(2))
    );
    assert_eq!(
        expression("$a = 1 < 2 ;").0,
        Expression::Assign(
            boxed(variable("a")),
            boxed(binary(integer(1), BinaryOp::LessThan, integer(2)))
        )
    );
}

#[test]
fn the_remainder_sign_is_no_infix_operator() {
    assert_eq!(expression("1 % 2 ;"), (integer(1), 1));
    assert_eq!(
        parse("echo 1 % 2;"),
        Err(ParserError::ExpectedToken {
            expected_type: TokenKind::SemiColon,
            expected_slice: ";".to_owned(),
            got_type: TokenKind::Percent,
            got_slice: "%".to_owned(),
        })
    );
}

#[test]
fn assignment_associates_to_the_right() {
    let expected = || {
        Expression::Assign(
            boxed(variable("a")),
            boxed(Expression::Assign(boxed(variable("b")), boxed(integer(1)))),
        )
    };
    assert_eq!(expression("$a = $b = 1 ;"), (expected(), 5));
    assert_eq!(parse("$a = $b = 1;").unwrap(), vec![Statement::Expression(expected())]);
}

#[test]
fn postfix_operators_chain() {
    let expected = || {
        Expression::ArrayAccess(
            boxed(Expression::Call {
                target: boxed(Expression::PropertyAccess(
                    boxed(variable("a")),
                    boxed(identifier("b")),
                )),
                args: vec![],
            }),
            Some(boxed(integer(0))),
        )
    };
    assert_eq!(expression("$a->b()[0] ;"), (expected(), 8));
    assert_eq!(parse("$a->b()[0];").unwrap(), vec![Statement::Expression(expected())]);
}

#[test]
fn postfix_operators_bind_tighter_than_infix_and_prefix_operators() {
    assert_eq!(
        expression("2 * $a[0] ;").0,
        binary(
            integer(2),
            BinaryOp::Multiply,
            Expression::ArrayAccess(boxed(variable("a")), Some(boxed(integer(0))))
        )
    );
    assert_eq!(
        expression("-$a->b ;").0,
        Expression::Unary(boxed(Expression::PropertyAccess(
            boxed(variable("a")),
            boxed(identifier("b"))
        )))
    );
}

#[test]
fn prefix_operators_bind_tighter_than_infix_operators() {
    assert_eq!(
        expression("-1 * 2 ;").0,
        binary(Expression::Unary(boxed(integer(1))), BinaryOp::Multiply, integer(2))
    );
    assert_eq!(
        expression("!$a && ~$b ;").0,
        binary(
            Expression::Negate(boxed(variable("a"))),
            BinaryOp::And,
            Expression::BitwiseNot(boxed(variable("b")))
        )
    );
    assert_eq!(
        expression("- - 1 ;").0,
        Expression::Unary(boxed(Expression::Unary(boxed(integer(1)))))
    );
}

#[test]
fn an_array_access_without_an_index_appends() {
    assert_eq!(
        expression("$a[] = 1 ;").0,
        Expression::Assign(
            boxed(Expression::ArrayAccess(boxed(variable("a")), None)),
            boxed(integer(1))
        )
    );
}

#[test]
fn calls_take_their_arguments_in_order() {
    assert_eq!(
        expression("f(1, $b, 'c') ;").0,
        Expression::Call {
            target: boxed(identifier("f")),
            args: vec![integer(1), variable("b"), string("c")],
        }
    );
    assert_eq!(
        expression("f(1,) ;").0,
        Expression::Call { target: boxed(identifier("f")), args: vec![integer(1)] }
    );
}

#[test]
fn a_call_cannot_begin_with_a_comma() {
    assert_eq!(
        parse("f(, 1);"),
        Err(ParserError::UnexpectedToken(TokenKind::Comma, ",".to_owned()))
    );
}

#[test]
fn array_items_without_a_key_are_numbered() {
    let expected = || {
        Expression::Array(vec![
            item(integer(0), integer(1)),
            item(integer(1), integer(2)),
            item(string("k"), integer(3)),
            item(integer(2), integer(4)),
        ])
    };
    assert_eq!(expression("[1, 2, 'k' => 3, 4] ;"), (expected(), 11));
    assert_eq!(parse("[1, 2, 'k' => 3, 4];").unwrap(), vec![Statement::Expression(expected())]);
}

#[test]
fn the_numbering_goes_on_after_an_integer_key() {
    assert_eq!(
        expression("[1, 10 => 2, 3, 4 => 5, 6] ;").0,
        Expression::Array(vec![
            item(integer(0), integer(1)),
            item(integer(10), integer(2)),
            item(integer(11), integer(3)),
            item(integer(4), integer(5)),
            item(integer(5), integer(6)),
        ])
    );
}

#[test]
fn the_numbering_goes_on_after_the_integer_part_of_a_float_key() {
    assert_eq!(
        expression("[7.9 => 1, 2] ;").0,
        Expression::Array(vec![
            item(Expression::Float(7.9f64.to_bits()), integer(1)),
            item(integer(8), integer(2)),
        ])
    );
}

#[test]
fn the_numbering_wraps_after_the_largest_key() {
    assert_eq!(
        expression("[9223372036854775807 => 1, 2] ;").0,
        Expression::Array(vec![
            item(integer(i64::MAX), integer(1)),
            item(integer(i64::MIN), integer(2)),
        ])
    );
}

#[test]
fn an_empty_array_and_stray_commas() {
    assert_eq!(expression("[] ;"), (Expression::Array(vec![]), 2));
    assert_eq!(
        expression("[,1,,2,] ;").0,
        Expression::Array(vec![item(integer(0), integer(1)), item(integer(1), integer(2))])
    );
}

#[test]
fn a_fat_arrow_makes_an_array_item_anywhere() {
    assert_eq!(
        parse("$a => $b;").unwrap(),
        vec![Statement::Expression(item(variable("a"), variable("b")))]
    );
}

#[test]
fn literals_and_names() {
    assert_eq!(expression("true ;"), (Expression::True, 1));
    assert_eq!(expression("false ;"), (Expression::False, 1));
    assert_eq!(expression("null ;"), (Expression::Null, 1));
    assert_eq!(expression("$name ;"), (variable("name"), 1));
    assert_eq!(expression("Name ;"), (identifier("Name"), 1));
    assert_eq!(
        expression("int $x ;"),
        (Expression::TypedVariable("int".to_owned(), "x".to_owned()), 2)
    );
    assert_eq!(
        expression("?int $x ;"),
        (Expression::TypedVariable("?int".to_owned(), "x".to_owned()), 2)
    );
    assert_eq!(expression("(1) ;"), (integer(1), 3));
    assert_eq!(Expression::from(true), Expression::True);
    assert_eq!(Expression::from(false), Expression::False);
}

#[test]
fn a_given_first_token_begins_the_expression() {
    let tokens = lex("+ 2 ;");
    let first = Token::new(TokenKind::Integer, "1");
    assert_eq!(
        Parser::parse_expression(&tokens, 0, 0, Some(&first)).unwrap(),
        (binary(integer(1), BinaryOp::Add, integer(2)), 2)
    );
}

#[test]
fn the_binding_power_limits_what_an_expression_takes() {
    let tokens = lex("1 + 2 * 3 ;");
    assert_eq!(Parser::parse_expression(&tokens, 0, 89, None).unwrap(), (integer(1), 1));
    assert_eq!(
        Parser::parse_expression(&tokens, 2, 89, None).unwrap(),
        (binary(integer(2), BinaryOp::Multiply, integer(3)), 5)
    );
    assert_eq!(Parser::parse_expression(&tokens, 2, 99, None).unwrap(), (integer(2), 3));
}

#[test]
fn an_expression_must_be_followed_by_a_token() {
    assert_eq!(
        Parser::parse_expression(&lex("1 + 2"), 0, 0, None),
        Err(ParserError::UnexpectedEndOfFile)
    );
    assert_eq!(
        Parser::parse_expression(&lex(""), 0, 0, None),
        Err(ParserError::UnexpectedEndOfFile)
    );
    assert_eq!(parse("$a"), Err(ParserError::UnexpectedEndOfFile));
}

#[test]
fn a_token_that_begins_no_expression_is_unexpected() {
    assert_eq!(
        parse(");"),
        Err(ParserError::UnexpectedToken(TokenKind::RightParen, ")".to_owned()))
    );
    assert_eq!(
        parse("echo *;"),
        Err(ParserError::UnexpectedToken(TokenKind::Asterisk, "*".to_owned()))
    );
    assert_eq!(
        parse("else {}"),
        Err(ParserError::UnexpectedToken(TokenKind::Else, "else".to_owned()))
    );
    assert_eq!(
        parse("$a->1;"),
        Err(ParserError::UnexpectedToken(TokenKind::Integer, "1".to_owned()))
    );
}

#[test]
fn new_takes_a_class_and_its_arguments() {
    assert_eq!(
        expression("new Foo ;").0,
        Expression::New { class: boxed(identifier("Foo")), args: vec![] }
    );
    assert_eq!(
        expression("new Foo(1, 2) ;").0,
        Expression::New { class: boxed(identifier("Foo")), args: vec![integer(1), integer(2)] }
    );
}

#[test]
fn new_rejects_what_is_no_class() {
    assert_eq!(parse("new 1;"), Err(ParserError::UnexpectedExpression(integer(1))));
    assert_eq!(
        parse("new $a(1);"),
        Err(ParserError::UnexpectedExpression(Expression::Call {
            target: boxed(variable("a")),
            args: vec![integer(1)],
        }))
    );
}

fn short_closure(flags: Vec<Flag>) -> Expression {
    Expression::Closure(Function::new(
        None,
        vec![FunctionParameter::new("x".to_owned(), None, None)],
        vec![Statement::Expression(binary(variable("x"), BinaryOp::Add, integer(1)))],
        None,
        flags,
        Some(ClosureType::Short),
    ))
}

#[test]
fn a_short_closure_has_one_expression() {
    assert_eq!(expression("fn($x) => $x + 1 ;"), (short_closure(vec![]), 8));
    assert_eq!(
        expression("fn(): int => 1 ;").0,
        Expression::Closure(Function::new(
            None,
            vec![],
            vec![Statement::Expression(integer(1))],
            Some("int".to_owned()),
            vec![],
            Some(ClosureType::Short),
        ))
    );
}

#[test]
fn a_long_closure_has_a_block() {
    assert_eq!(
        expression("function(int $a, ?Foo $b = null, $c = 1,) : int { return $a; } ;").0,
        Expression::Closure(Function::new(
            None,
            vec![
                FunctionParameter::new("a".to_owned(), Some("int".to_owned()), None),
                FunctionParameter::new(
                    "b".to_owned(),
                    Some("?Foo".to_owned()),
                    Some(Expression::Null)
                ),
                FunctionParameter::new("c".to_owned(), None, Some(integer(1))),
            ],
            vec![Statement::Return(variable("a"))],
            Some("int".to_owned()),
            vec![],
            Some(ClosureType::Long),
        ))
    );
}

#[test]
fn a_closure_needs_the_token_that_begins_its_body() {
    assert_eq!(
        parse("$f = fn($x) { };"),
        Err(ParserError::ExpectedToken {
            expected_type: TokenKind::DoubleArrow,
            expected_slice: "=>".to_owned(),
            got_type: TokenKind::LeftBrace,
            got_slice: "{".to_owned(),
        })
    );
    assert_eq!(
        parse("$f = fn($x): int { };"),
        Err(ParserError::ExpectedToken {
            expected_type: TokenKind::DoubleArrow,
            expected_slice: "=>".to_owned(),
            got_type: TokenKind::LeftBrace,
            got_slice: "{".to_owned(),
        })
    );
    assert_eq!(
        parse("$f = function($x) => 1;"),
        Err(ParserError::ExpectedToken {
            expected_type: TokenKind::LeftBrace,
            expected_slice: "{".to_owned(),
            got_type: TokenKind::DoubleArrow,
            got_slice: "=>".to_owned(),
        })
    );
}

#[test]
fn static_marks_a_closure() {
    assert_eq!(
        expression("$f = static fn($x) => $x + 1 ;").0,
        Expression::Assign(boxed(variable("f")), boxed(short_closure(vec![Flag::Static])))
    );
}

#[test]
fn a_closure_takes_static_only_once() {
    assert_eq!(
        parse("$f = static static fn($x) => $x + 1;"),
        Err(ParserError::CanOnlyHaveFlag(Flag::Static, "Anonymous functions".to_owned()))
    );
    assert_eq!(parse("$f = static 1;"), Err(ParserError::UnexpectedExpression(integer(1))));
}

#[test]
fn simple_statements() {
    assert_eq!(
        parse("<?php /** doc */ break; continue; continue 2; echo 'x'; return $a; use Foo;")
            .unwrap(),
        vec![
            Statement::OpenTag,
            Statement::DocBlock("/** doc */".to_owned()),
            Statement::Break,
            Statement::Continue(None),
            Statement::Continue(Some(integer(2))),
            Statement::Echo(string("x")),
            Statement::Return(variable("a")),
            Statement::Use(identifier("Foo")),
        ]
    );
}

#[test]
fn use_takes_a_name_only() {
    assert_eq!(parse("use 1;"), Err(ParserError::UnexpectedExpression(integer(1))));
    assert_eq!(parse("use $a;"), Err(ParserError::UnexpectedExpression(variable("a"))));
}

#[test]
fn a_statement_needs_its_semicolon() {
    assert_eq!(
        parse("break 1"),
        Err(ParserError::ExpectedToken {
            expected_type: TokenKind::SemiColon,
            expected_slice: ";".to_owned(),
            got_type: TokenKind::Integer,
            got_slice: "1".to_owned(),
        })
    );
    assert_eq!(parse("break"), Err(ParserError::UnexpectedEndOfFile));
    assert_eq!(parse("continue"), Err(ParserError::UnexpectedEndOfFile));
    assert_eq!(
        parse("echo 1 2"),
        Err(ParserError::ExpectedToken {
            expected_type: TokenKind::SemiColon,
            expected_slice: ";".to_owned(),
            got_type: TokenKind::Integer,
            got_slice: "2".to_owned(),
        })
    );
}

#[test]
fn loops() {
    assert_eq!(
        parse("while ($a) { echo 1; break; }").unwrap(),
        vec![Statement::While {
            condition: variable("a"),
            body: vec![Statement::Echo(integer(1)), Statement::Break],
        }]
    );
    assert_eq!(
        parse("do { echo 1; } while ($a);").unwrap(),
        vec![Statement::DoWhile {
            condition: variable("a"),
            body: vec![Statement::Echo(integer(1))],
        }]
    );
    assert_eq!(
        parse("foreach ($list as $v) { }").unwrap(),
        vec![Statement::Foreach {
            expression: variable("list"),
            key_var: None,
            value_var: variable("v"),
            body: vec![],
        }]
    );
    assert_eq!(
        parse("foreach ($list as $k => $v) { echo $k; }").unwrap(),
        vec![Statement::Foreach {
            expression: variable("list"),
            key_var: Some(variable("k")),
            value_var: variable("v"),
            body: vec![Statement::Echo(variable("k"))],
        }]
    );
}

#[test]
fn foreach_takes_a_variable_or_a_pair() {
    assert_eq!(
        parse("foreach ($list as 1) { }"),
        Err(ParserError::UnexpectedExpression(integer(1)))
    );
}

#[test]
fn conditionals() {
    assert_eq!(
        parse("if ($a) { echo 1; }").unwrap(),
        vec![Statement::If(If::new(variable("a"), vec![Statement::Echo(integer(1))], vec![], None))]
    );
    assert_eq!(
        parse("if ($a) { } elseif ($b) { echo 2; } else if ($c) { } else { echo 3; }").unwrap(),
        vec![Statement::If(If::new(
            variable("a"),
            vec![],
            vec![
                Statement::ElseIf(If::new(
                    variable("b"),
                    vec![Statement::Echo(integer(2))],
                    vec![],
                    None
                )),
                Statement::ElseIf(If::new(variable("c"), vec![], vec![], None)),
            ],
            Some(Box::new(Statement::Else(Else::new(vec![Statement::Echo(integer(3))])))),
        ))]
    );
}

#[test]
fn an_else_ends_the_chain() {
    assert_eq!(
        parse("if ($a) { } else { } echo 1;").unwrap(),
        vec![
            Statement::If(If::new(
                variable("a"),
                vec![],
                vec![],
                Some(Box::new(Statement::Else(Else::new(vec![]))))
            )),
            Statement::Echo(integer(1)),
        ]
    );
}

#[test]
fn only_an_arm_can_follow_the_body_of_an_if() {
    assert_eq!(
        parse("if ($a) { } echo 1;"),
        Err(ParserError::UnexpectedToken(TokenKind::Echo, "echo".to_owned()))
    );
    assert_eq!(
        parse("while ($a) { if ($b) { } }"),
        Err(ParserError::UnexpectedToken(TokenKind::RightBrace, "}".to_owned()))
    );
}

#[test]
fn truncated_input_is_the_end_of_the_file() {
    for source in [
        "if (",
        "if ($a",
        "if ($a)",
        "if ($a) {",
        "if ($a) { } else",
        "if ($a) { } elseif",
        "while ($a) { echo 1;",
        "do {",
        "do { } while",
        "foreach ($a as",
        "function",
        "function f",
        "function f(",
        "function f($a",
        "function f()",
        "function f() {",
        "class",
        "class A",
        "class A extends",
        "class A implements I",
        "class A {",
        "class A { public",
        "echo",
        "echo [1,",
        "echo f(",
        "echo $a[",
        "echo $a->",
        "echo (1",
        "echo fn(",
        "echo new",
        "public",
    ] {
        assert_eq!(parse(source), Err(ParserError::UnexpectedEndOfFile), "{}", source);
    }
}

#[test]
fn a_required_token_is_named_in_the_failure() {
    assert_eq!(
        parse("while $a"),
        Err(ParserError::ExpectedToken {
            expected_type: TokenKind::LeftParen,
            expected_slice: "(".to_owned(),
            got_type: TokenKind::Variable,
            got_slice: "$a".to_owned(),
        })
    );
    assert_eq!(
        parse("function 1"),
        Err(ParserError::ExpectedToken {
            expected_type: TokenKind::Identifier,
            expected_slice: "".to_owned(),
            got_type: TokenKind::Integer,
            got_slice: "1".to_owned(),
        })
    );
    assert_eq!(
        Parser::expect_token(&lex("a b"), 1, TokenKind::Identifier, "name").unwrap(),
        &Token::new(TokenKind::Identifier, "b")
    );
    assert_eq!(
        Parser::expect_token(&lex("a b"), 2, TokenKind::Identifier, "name"),
        Err(ParserError::UnexpectedEndOfFile)
    );
}

#[test]
fn named_functions() {
    assert_eq!(
        parse("function f() { }").unwrap(),
        vec![Statement::Function(function("f", vec![]))]
    );
    assert_eq!(
        parse("function add(int $a, $b = 2): int { return $a + $b; }").unwrap(),
        vec![Statement::Function(Function::new(
            Some("add".to_owned()),
            vec![
                FunctionParameter::new("a".to_owned(), Some("int".to_owned()), None),
                FunctionParameter::new("b".to_owned(), None, Some(integer(2))),
            ],
            vec![Statement::Return(binary(variable("a"), BinaryOp::Add, variable("b")))],
            Some("int".to_owned()),
            vec![],
            None,
        ))]
    );
    assert_eq!(
        parse("function f($a,) { }").unwrap(),
        vec![Statement::Function(Function::new(
            Some("f".to_owned()),
            vec![FunctionParameter::new("a".to_owned(), None, None)],
            vec![],
            None,
            vec![],
            None,
        ))]
    );
}

#[test]
fn a_function_needs_a_brace_or_a_return_type() {
    assert_eq!(
        parse("function f() ;"),
        Err(ParserError::ExpectedToken {
            expected_type: TokenKind::LeftBrace,
            expected_slice: "{".to_owned(),
            got_type: TokenKind::SemiColon,
            got_slice: ";".to_owned(),
        })
    );
    assert_eq!(
        parse("function f(1) { }"),
        Err(ParserError::UnexpectedToken(TokenKind::Integer, "1".to_owned()))
    );
    assert_eq!(
        parse("function f(int 1) { }"),
        Err(ParserError::ExpectedToken {
            expected_type: TokenKind::Variable,
            expected_slice: "".to_owned(),
            got_type: TokenKind::Integer,
            got_slice: "1".to_owned(),
        })
    );
}

#[test]
fn classes() {
    assert_eq!(
        parse("class A { }").unwrap(),
        vec![Statement::Class(Class::new("A".to_owned(), vec![], String::new(), vec![], vec![]))]
    );
    assert_eq!(
        parse(
            "final class A extends B implements I, J { use T; public int $x; function f() { } }"
        )
        .unwrap(),
        vec![Statement::Class(Class::new(
            "A".to_owned(),
            vec!["I".to_owned(), "J".to_owned()],
            "B".to_owned(),
            vec![
                Statement::UseTrait(identifier("T")),
                Statement::Property(Property::new(
                    "x".to_owned(),
                    vec![Flag::Public],
                    Some("int".to_owned()),
                    None
                )),
                Statement::Function(function("f", vec![])),
            ],
            vec![Flag::Final],
        ))]
    );
}

#[test]
fn the_head_of_a_class_has_its_order() {
    assert_eq!(
        parse("class A implements I extends B { }"),
        Err(ParserError::UnexpectedToken(TokenKind::Extends, "extends".to_owned()))
    );
    assert_eq!(
        parse("class A extends B extends C { }"),
        Err(ParserError::UnexpectedToken(TokenKind::Extends, "extends".to_owned()))
    );
    assert_eq!(
        parse("class A implements I J { }"),
        Err(ParserError::UnexpectedToken(TokenKind::Identifier, "J".to_owned()))
    );
    assert_eq!(
        parse("class A implements { }"),
        Err(ParserError::ExpectedToken {
            expected_type: TokenKind::Identifier,
            expected_slice: "".to_owned(),
            got_type: TokenKind::LeftBrace,
            got_slice: "{".to_owned(),
        })
    );
    assert_eq!(
        parse("class A ; { }"),
        Err(ParserError::UnexpectedToken(TokenKind::SemiColon, ";".to_owned()))
    );
}

#[test]
fn a_class_has_no_two_methods_of_one_name() {
    assert_eq!(
        parse("class A { function foo() { } function foo() { } }"),
        Err(ParserError::MethodAlreadyExists("foo".to_owned()))
    );
    assert_eq!(
        parse("class A { function foo() { } public int $x; public static function foo() { } }"),
        Err(ParserError::MethodAlreadyExists("foo".to_owned()))
    );
    assert!(parse("class A { function foo() { } function bar() { } }").is_ok());
}

#[test]
fn a_class_has_no_two_properties_of_one_name() {
    assert_eq!(
        parse("class A { public int $bar; private string $bar; }"),
        Err(ParserError::PropertyAlreadyExists("bar".to_owned()))
    );
    assert!(parse("class A { public int $bar; public int $baz; function bar() { } }").is_ok());
}

#[test]
fn a_class_body_takes_members_only() {
    assert_eq!(
        parse("class A { echo 1; }"),
        Err(ParserError::UnexpectedStatement(Statement::Echo(integer(1))))
    );
    assert_eq!(
        parse("class A { class B { } }"),
        Err(ParserError::UnexpectedStatement(Statement::Class(Class::new(
            "B".to_owned(),
            vec![],
            String::new(),
            vec![],
            vec![]
        ))))
    );
}

#[test]
fn modifiers_stack_from_the_inside() {
    assert_eq!(
        parse("public static function f() { }").unwrap(),
        vec![Statement::Function(function("f", vec![Flag::Static, Flag::Public]))]
    );
    assert_eq!(
        parse("abstract class A { }").unwrap(),
        vec![Statement::Class(Class::new(
            "A".to_owned(),
            vec![],
            String::new(),
            vec![],
            vec![Flag::Abstract]
        ))]
    );
    assert_eq!(
        parse("private static ?int $x;").unwrap(),
        vec![Statement::Property(Property::new(
            "x".to_owned(),
            vec![Flag::Static, Flag::Private],
            Some("?int".to_owned()),
            None
        ))]
    );
}

#[test]
fn final_and_abstract_exclude_each_other() {
    assert_eq!(
        parse("abstract final function f(){}"),
        Err(ParserError::FlagNotAllowed(Flag::Abstract, "final methods".to_owned()))
    );
    assert_eq!(
        parse("final abstract function f(){}"),
        Err(ParserError::FlagNotAllowed(Flag::Final, "abstract methods.".to_owned()))
    );
    assert_eq!(
        parse("abstract final class A {}"),
        Err(ParserError::FlagNotAllowed(Flag::Abstract, "final classes.".to_owned()))
    );
    assert_eq!(
        parse("final abstract class A {}"),
        Err(ParserError::FlagNotAllowed(Flag::Final, "abstract classes.".to_owned()))
    );
}

#[test]
fn a_property_takes_each_flag_once_and_one_visibility() {
    assert_eq!(parse("public public int $x;"), Err(ParserError::DuplicateFlag(Flag::Public)));
    assert_eq!(
        parse("private public int $x;"),
        Err(ParserError::FlagNotAllowed(
            Flag::Private,
            "properties with existing visiblity flags".to_owned()
        ))
    );
    assert_eq!(
        parse("final public int $x;"),
        Err(ParserError::FlagNotAllowed(Flag::Final, "properties".to_owned()))
    );
    assert_eq!(
        parse("abstract public int $x;"),
        Err(ParserError::FlagNotAllowed(Flag::Abstract, "properties".to_owned()))
    );
    assert_eq!(parse("static static int $x;"), Err(ParserError::DuplicateFlag(Flag::Static)));
}

#[test]
fn nothing_else_takes_a_flag() {
    assert_eq!(parse("public echo 1;"), Err(ParserError::Unknown));
    assert_eq!(parse("public $a = 1;"), Err(ParserError::Unknown));
    assert_eq!(parse("public 1"), Err(ParserError::Unknown));
}

#[test]
fn parsing_twice_gives_the_same_tree() {
    let source = "<?php class A extends B { public int $x; function f($a = [1, 'k' => 2]) { \
                  if ($a) { return fn($y) => $y . 'z'; } else { foreach ($a as $k => $v) { echo \
                  $v[0]->w(1); } } } }";
    let first = parse(source).unwrap();
    let second = parse(source).unwrap();
    assert_eq!(first, second);
    let mut parser = Parser::new(lex(source));
    assert_eq!(parser.all().unwrap(), first);
    assert_eq!(parser.all().unwrap(), vec![]);
}

#[test]
fn a_failed_parse_leaves_the_parser_where_it_was() {
    let mut parser = Parser::new(lex("echo 1; echo"));
    assert_eq!(parser.all(), Err(ParserError::UnexpectedEndOfFile));
    assert_eq!(parser.all(), Err(ParserError::UnexpectedEndOfFile));
}

#[test]
fn match_token_reads_one_statement() {
    let tokens = lex("echo 1; echo 2;");
    assert_eq!(
        Parser::match_token(&tokens, &tokens[0], 1).unwrap(),
        (Statement::Echo(integer(1)), 3)
    );
    assert_eq!(
        Parser::match_token(&tokens, &tokens[3], 4).unwrap(),
        (Statement::Echo(integer(2)), 6)
    );
}

#[test]
fn a_copy_of_a_tree_is_equal_to_it() {
    let source = "<?php final class A extends B implements I { use T; public ?int $x; \
                  function f(int $a = 1, $b = [1, 'k' => 2.5]): int { do { continue; } while \
                  (!$a); if ($a) { return static fn($y) => new C($y . 'z'); } elseif ($b) { } \
                  else { foreach ($a as $k => $v) { echo -$v[0]->w(1, ~2)[]; } } } }";
    let program = parse(source).unwrap();
    assert_eq!(program.clone(), program);
    let token = Token::float("1.5", 1.5f64.to_bits());
    assert_eq!(token.clone(), token);
}

#[test]
fn a_statement_depends_on_one_token_of_lookahead_only() {
    let one = lex("echo $a + 1; class A { }");
    let other = lex("echo $a + 1; while ( 3");
    assert_eq!(
        Parser::match_token(&one, &one[0], 1).unwrap(),
        Parser::match_token(&other, &other[0], 1).unwrap()
    );
    let one = lex("$a[0] ; 1");
    let other = lex("$a[0] ; +");
    assert_eq!(
        Parser::parse_expression(&one, 0, 0, None).unwrap(),
        Parser::parse_expression(&other, 0, 0, None).unwrap()
    );
    // the token after the expression is looked at
    let other = lex("$a[0] [ 1 ] ;");
    assert_eq!(Parser::parse_expression(&one, 0, 0, None).unwrap().1, 4);
    assert_eq!(Parser::parse_expression(&other, 0, 0, None).unwrap().1, 7);
}

#[test]
fn no_statement_takes_more_tokens_than_there_are() {
    for source in [
        "<?php",
        "'a'",
        "'a' 'b'",
        "1",
        "break;",
        "echo 1;",
        "if ($a) { }",
        "if ($a) { } else { }",
        "function f($a = 1) { }",
        "class A { }",
        "$a = fn() => 1;",
    ] {
        let tokens = lex(source);
        let (_, next) = Parser::match_token(&tokens, &tokens[0], 1).unwrap();
        assert_eq!(next, tokens.len(), "{}", source);
    }
}
