use poop::ast::Type;
use poop::errors::TypeSystemErrorCode;
use poop::lexer::{tokenize, RangeConverter};
use poop::parser::Parser;
use poop::type_system::TypeSystem;

fn check(source: &str) -> Result<Type, poop::errors::TypeSystemError> {
    let mut parser = Parser::new(tokenize(source), RangeConverter::new(source));
    let expr = parser.expression(0).expect("source should parse");
    let mut type_system = TypeSystem {};
    type_system.expression(&expr)
}

#[test]
fn arithmetic_over_integers_is_integer() {
    assert_eq!(check("3 + 4 * 5").unwrap(), Type::Int);
    assert_eq!(check("3 % (4 - 5)").unwrap(), Type::Int);
}

#[test]
fn arithmetic_rejects_a_boolean_operand() {
    let err = check("true + 1").err().unwrap();
    assert_eq!(*err.code(), TypeSystemErrorCode::E0001);
}

#[test]
fn arithmetic_rejects_a_boolean_on_the_right() {
    let err = check("1 + true").err().unwrap();
    assert_eq!(*err.code(), TypeSystemErrorCode::E0001);
}

#[test]
fn logical_operators_demand_boolean_operands() {
    assert_eq!(check("true && false").unwrap(), Type::Boolean);
    assert_eq!(check("!true || false").unwrap(), Type::Boolean);
    // the relational operators, too, accept only boolean operands
    let err = check("1 < 2").err().unwrap();
    assert_eq!(*err.code(), TypeSystemErrorCode::E9999);
    assert!(err.message().starts_with("Type mismatch left hand side."));
}

#[test]
fn not_rejects_a_number() {
    let err = check("!3").err().unwrap();
    assert!(err.message().contains("Expected boolean"));
}

#[test]
fn string_literal_has_string_type() {
    assert_eq!(check("\"abc\"").unwrap(), Type::String);
}
