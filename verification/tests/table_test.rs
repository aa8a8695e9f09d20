use tusk_parser::class_parser::join_member;
use tusk_parser::modifier::attach_flag;
use tusk_parser::number::{next_index, truncate};
use tusk_parser::text::{strip_first, strip_quotes};
use tusk_parser::BinaryOp;
use tusk_parser::BindingPower;
use tusk_parser::Class;
use tusk_parser::Expression;
use tusk_parser::Flag;
use tusk_parser::Flaggable;
use tusk_parser::Function;
use tusk_parser::ParserError;
use tusk_parser::Property;
use tusk_parser::Statement;
use tusk_parser::TokenKind;

#[test]
fn visibility_flags() {
    assert!(Flag::Public.is_visibility_flag());
    assert!(Flag::Protected.is_visibility_flag());
    assert!(Flag::Private.is_visibility_flag());
    assert!(!Flag::Final.is_visibility_flag());
    assert!(!Flag::Static.is_visibility_flag());
    assert!(!Flag::Abstract.is_visibility_flag());
}

#[test]
fn flags_are_kept_in_order() {
    let mut function = Function::new(None, vec![], vec![], None, vec![], None);
    assert!(!function.has_flags());
    assert!(!function.has_flag(Flag::Static));
    function.add_flag(Flag::Static);
    function.add_flag(Flag::Final);
    assert!(function.has_flags());
    assert!(function.has_flag(Flag::Static));
    assert!(function.has_flag(Flag::Final));
    assert!(!function.has_flag(Flag::Public));
    assert!(!function.has_visiblity_flag());
    assert_eq!(function.flags, vec![Flag::Static, Flag::Final]);

    let mut class = Class::new("A".to_owned(), vec![], String::new(), vec![], vec![]);
    assert!(!class.has_flags());
    class.add_flag(Flag::Abstract);
    assert!(class.has_flag(Flag::Abstract));
    assert!(!class.has_visiblity_flag());

    let mut property = Property::new("x".to_owned(), vec![Flag::Static], None, None);
    assert!(property.has_flags());
    assert!(!property.has_visiblity_flag());
    property.add_flag(Flag::Protected);
    assert!(property.has_visiblity_flag());
    assert_eq!(property.flags, vec![Flag::Static, Flag::Protected]);
}

#[test]
fn a_leading_question_mark_makes_a_property_nullable() {
    let property = |hint: Option<&str>| {
        Property::new("x".to_owned(), vec![], hint.map(|h| h.to_owned()), None)
    };
    assert!(property(Some("?int")).is_nullable());
    assert!(!property(Some("int")).is_nullable());
    assert!(!property(Some("")).is_nullable());
    assert!(!property(None).is_nullable());
}

#[test]
fn postfix_binding_powers() {
    assert_eq!(BindingPower::postfix(TokenKind::LeftBracket), Some((100, ())));
    assert_eq!(BindingPower::postfix(TokenKind::Arrow), Some((100, ())));
    assert_eq!(BindingPower::postfix(TokenKind::LeftParen), Some((100, ())));
    assert_eq!(BindingPower::postfix(TokenKind::Plus), None);
    assert_eq!(BindingPower::postfix(TokenKind::SemiColon), None);
}

#[test]
fn infix_binding_powers() {
    assert_eq!(BindingPower::infix(TokenKind::Asterisk), Some((98, 99)));
    assert_eq!(BindingPower::infix(TokenKind::Slash), Some((98, 99)));
    assert_eq!(BindingPower::infix(TokenKind::BitwiseLeftShift), Some((96, 97)));
    assert_eq!(BindingPower::infix(TokenKind::BitwiseRightShift), Some((96, 97)));
    assert_eq!(BindingPower::infix(TokenKind::BitwiseAnd), Some((94, 95)));
    assert_eq!(BindingPower::infix(TokenKind::BitwiseXor), Some((92, 93)));
    assert_eq!(BindingPower::infix(TokenKind::BitwiseOr), Some((90, 91)));
    assert_eq!(BindingPower::infix(TokenKind::Plus), Some((88, 89)));
    assert_eq!(BindingPower::infix(TokenKind::Minus), Some((88, 89)));
    assert_eq!(BindingPower::infix(TokenKind::Period), Some((88, 89)));
    assert_eq!(BindingPower::infix(TokenKind::And), Some((86, 87)));
    assert_eq!(BindingPower::infix(TokenKind::Or), Some((84, 85)));
    assert_eq!(BindingPower::infix(TokenKind::GreaterThan), Some((7, 8)));
    assert_eq!(BindingPower::infix(TokenKind::LessThan), Some((7, 8)));
    assert_eq!(BindingPower::infix(TokenKind::GreaterThanEquals), Some((7, 8)));
    assert_eq!(BindingPower::infix(TokenKind::LessThanEquals), Some((7, 8)));
    assert_eq!(BindingPower::infix(TokenKind::Equals), Some((2, 1)));
    assert_eq!(BindingPower::infix(TokenKind::DoubleArrow), Some((2, 1)));
    assert_eq!(BindingPower::infix(TokenKind::Percent), None);
    assert_eq!(BindingPower::infix(TokenKind::LeftParen), None);
}

#[test]
fn prefix_binding_powers() {
    assert_eq!(BindingPower::prefix(TokenKind::Minus), Some(((), 99)));
    assert_eq!(BindingPower::prefix(TokenKind::Not), Some(((), 99)));
    assert_eq!(BindingPower::prefix(TokenKind::BitwiseNot), Some(((), 99)));
    assert_eq!(BindingPower::prefix(TokenKind::Plus), None);
}

#[test]
fn binary_operators_of_tokens() {
    assert_eq!(BinaryOp::from(TokenKind::Plus), BinaryOp::Add);
    assert_eq!(BinaryOp::from(TokenKind::Minus), BinaryOp::Subtract);
    assert_eq!(BinaryOp::from(TokenKind::Asterisk), BinaryOp::Multiply);
    assert_eq!(BinaryOp::from(TokenKind::Slash), BinaryOp::Divide);
    assert_eq!(BinaryOp::from(TokenKind::Percent), BinaryOp::Modulo);
    assert_eq!(BinaryOp::from(TokenKind::BitwiseAnd), BinaryOp::BitwiseAnd);
    assert_eq!(BinaryOp::from(TokenKind::BitwiseOr), BinaryOp::BitwiseOr);
    assert_eq!(BinaryOp::from(TokenKind::BitwiseLeftShift), BinaryOp::BitwiseLeftShift);
    assert_eq!(BinaryOp::from(TokenKind::BitwiseRightShift), BinaryOp::BitwiseRightShift);
    assert_eq!(BinaryOp::from(TokenKind::BitwiseXor), BinaryOp::BitwiseXor);
    assert_eq!(BinaryOp::from(TokenKind::And), BinaryOp::And);
    assert_eq!(BinaryOp::from(TokenKind::Or), BinaryOp::Or);
    assert_eq!(BinaryOp::from(TokenKind::LessThan), BinaryOp::LessThan);
    assert_eq!(BinaryOp::from(TokenKind::GreaterThan), BinaryOp::GreaterThan);
    assert_eq!(BinaryOp::from(TokenKind::LessThanEquals), BinaryOp::LessThanEquals);
    assert_eq!(BinaryOp::from(TokenKind::GreaterThanEquals), BinaryOp::GreaterThanEquals);
}

#[test]
fn infix_operators_join_their_operands() {
    let one = || Expression::Integer(1);
    let two = || Expression::Integer(2);
    assert_eq!(
        Expression::make_infix(one(), &TokenKind::Plus, two()),
        Expression::Binary(Box::new(one()), BinaryOp::Add, Box::new(two()))
    );
    assert_eq!(
        Expression::make_infix(one(), &TokenKind::LessThan, two()),
        Expression::Binary(Box::new(one()), BinaryOp::LessThan, Box::new(two()))
    );
    assert_eq!(
        Expression::make_infix(one(), &TokenKind::Period, two()),
        Expression::Concat(Box::new(one()), Box::new(two()))
    );
    assert_eq!(
        Expression::make_infix(one(), &TokenKind::DoubleArrow, two()),
        Expression::ArrayItem { key: Box::new(one()), value: Box::new(two()) }
    );
    assert_eq!(
        Expression::make_infix(one(), &TokenKind::Equals, two()),
        Expression::Assign(Box::new(one()), Box::new(two()))
    );
}

#[test]
fn the_integer_part_of_a_float() {
    let numbers = [
        0.0f64,
        -0.0,
        0.5,
        -0.5,
        0.999999,
        1.0,
        -1.0,
        1.5,
        -1.5,
        7.9,
        -7.9,
        12345.6789,
        4503599627370496.0,
        4503599627370497.0,
        9007199254740993.0,
        -9007199254740993.0,
        1.0e18,
        9223372036854774784.0,
        9223372036854775807.0,
        9223372036854775808.0,
        -9223372036854775808.0,
        -9223372036854777856.0,
        1.0e19,
        -1.0e19,
        1.0e300,
        f64::MAX,
        f64::MIN,
        f64::MIN_POSITIVE,
        5.0e-324,
        f64::INFINITY,
        f64::NEG_INFINITY,
        f64::NAN,
    ];
    for number in numbers {
        assert_eq!(truncate(number.to_bits()), number as i64, "{}", number);
    }
    assert_eq!(truncate(7.9f64.to_bits()), 7);
    assert_eq!(truncate((-7.9f64).to_bits()), -7);
    assert_eq!(truncate(f64::NAN.to_bits()), 0);
    assert_eq!(truncate(1.0e19f64.to_bits()), i64::MAX);
    assert_eq!(truncate((-1.0e19f64).to_bits()), i64::MIN);
}

#[test]
fn the_index_after_another() {
    assert_eq!(next_index(0), 1);
    assert_eq!(next_index(-1), 0);
    assert_eq!(next_index(41), 42);
    assert_eq!(next_index(i64::MAX), i64::MIN);
}

#[test]
fn stripping_sigils_and_quotes() {
    assert_eq!(strip_first("$name"), "name");
    assert_eq!(strip_first("$"), "");
    assert_eq!(strip_first(""), "");
    assert_eq!(strip_first("\u{e9}t\u{e9}"), "t\u{e9}");
    assert_eq!(strip_quotes("'abc'"), "abc");
    assert_eq!(strip_quotes("\"\u{e9}\""), "\u{e9}");
    assert_eq!(strip_quotes("''"), "");
    assert_eq!(strip_quotes("'"), "");
    assert_eq!(strip_quotes(""), "");
}

#[test]
fn a_flag_goes_on_the_statement_after_its_modifier() {
    let typed = Statement::Expression(Expression::TypedVariable("int".to_owned(), "x".to_owned()));
    let property = attach_flag(Flag::Protected, typed).unwrap();
    assert_eq!(
        property,
        Statement::Property(Property::new(
            "x".to_owned(),
            vec![Flag::Protected],
            Some("int".to_owned()),
            None
        ))
    );
    let property = attach_flag(Flag::Static, property).unwrap();
    assert_eq!(
        attach_flag(Flag::Static, property.clone()),
        Err(ParserError::DuplicateFlag(Flag::Static))
    );
    assert_eq!(
        attach_flag(Flag::Public, property),
        Err(ParserError::FlagNotAllowed(
            Flag::Public,
            "properties with existing visiblity flags".to_owned()
        ))
    );
    assert_eq!(attach_flag(Flag::Public, Statement::Break), Err(ParserError::Unknown));
    let function = Function::new(Some("f".to_owned()), vec![], vec![], None, vec![], None);
    let function = attach_flag(Flag::Final, Statement::Function(function)).unwrap();
    let function = attach_flag(Flag::Final, function).unwrap();
    assert_eq!(
        attach_flag(Flag::Abstract, function),
        Err(ParserError::FlagNotAllowed(Flag::Abstract, "final methods".to_owned()))
    );
}

#[test]
fn members_join_a_class_body_one_by_one() {
    let method = |name: &str| {
        Statement::Function(Function::new(Some(name.to_owned()), vec![], vec![], None, vec![], None))
    };
    let property =
        |name: &str| Statement::Property(Property::new(name.to_owned(), vec![], None, None));
    let mut members = vec![];
    assert_eq!(join_member(&mut members, method("foo")), Ok(()));
    assert_eq!(join_member(&mut members, property("foo")), Ok(()));
    assert_eq!(
        join_member(&mut members, Statement::Use(Expression::Identifier("T".to_owned()))),
        Ok(())
    );
    assert_eq!(
        join_member(&mut members, method("foo")),
        Err(ParserError::MethodAlreadyExists("foo".to_owned()))
    );
    assert_eq!(
        join_member(&mut members, property("foo")),
        Err(ParserError::PropertyAlreadyExists("foo".to_owned()))
    );
    assert_eq!(
        join_member(&mut members, Statement::Break),
        Err(ParserError::UnexpectedStatement(Statement::Break))
    );
    assert_eq!(
        members,
        vec![
            method("foo"),
            property("foo"),
            Statement::UseTrait(Expression::Identifier("T".to_owned()))
        ]
    );
}
