use poop::ast::{
    ArgDecl, Block, Decl, ElseExpression, Expression, ExpressionContainer, FuncDecl,
    FunctionCall, IfExpression, IfExpressionContainer, Literal, Number, Program,
    ProgramContainer, Statement, Type, Value, VarDecl,
};
use poop::lexer::{tokenize, RangeConverter};
use poop::parser::Parser;
use poop::printer::{expression_tokens, program_to_tokens};

fn parse_source(source: &str) -> Program {
    let mut parser = Parser::new(tokenize(source), RangeConverter::new(source));
    parser.parse().expect("source should parse")
}

fn reparse(program: &Program) -> Program {
    let tokens = program_to_tokens(program);
    let mut parser = Parser::new(tokens, RangeConverter::new(""));
    parser.parse().expect("serialized form should parse")
}

fn assert_round_trip(source: &str) {
    let ast = parse_source(source);
    assert_eq!(reparse(&ast), ast);
}

#[test]
fn round_trip_expressions_and_precedence() {
    assert_round_trip("fn main() -> int { 3 + 4 * 5 }");
    assert_round_trip("fn main() -> int { 3 * (4 + 5) }");
    assert_round_trip("fn main() -> int { 3 % 4 + 5 }");
    assert_round_trip("fn main() -> int { 3 * -4 + -5 }");
    assert_round_trip("fn main() -> bool { 1 < 2 && 3 >= 4 || !(5 == 6) != true }");
}

#[test]
fn round_trip_declarations_and_blocks() {
    assert_round_trip("let x = 5;");
    assert_round_trip("fn f(a: int, b: bool, c: double) -> int { a }");
    assert_round_trip("fn f() { }");
    assert_round_trip("fn f() -> int { let x = 5; { let y = x; y + 1 } }");
    assert_round_trip("fn f() { let x = 5; }");
}

#[test]
fn round_trip_if_chains_and_calls() {
    assert_round_trip(
        "fn pick(n: int) -> int { if n < 0 { 1 } else if n == 0 { 2 } else { 3 } }
         fn main() -> int { pick(0) + pick(1 + 2) }",
    );
    assert_round_trip("fn main() -> int { if true { 1 } }");
    assert_round_trip("fn main() { f(); g(1); h(1, x, \"s\") }");
}

#[test]
fn round_trip_strings_and_keyword_like_names() {
    assert_round_trip("fn main() { let s = \"hello, world!\"; printf(s) }");
    assert_round_trip("fn iffy(letter: myType) -> otherType { letter }");
}

#[test]
fn round_trip_hand_built_ast() {
    // the same shape the grammar produces for
    //   fn main() -> int { let x = if a <= 9 { x(2, y) } else { !b }; x }
    let ast = Program::Decl(
        Decl::FuncDecl(FuncDecl::new(
            "main",
            vec![ArgDecl::new("a", Type::Int), ArgDecl::new("b", Type::Boolean)],
            Type::Int,
            Block::new(vec![
                Statement::VarDecl(VarDecl::new(
                    String::from("x"),
                    Expression::If(IfExpressionContainer::new(IfExpression::new(
                        Expression::LessEq(
                            ExpressionContainer::new(Expression::Value(Value::Variable(
                                String::from("a"),
                            ))),
                            ExpressionContainer::new(Expression::Value(Value::Literal(
                                Literal::Number(Number::Int(9)),
                            ))),
                        ),
                        Block::new(vec![Statement::Expression(Expression::Value(
                            Value::FunctionCall(FunctionCall::new(
                                "x",
                                vec![
                                    Expression::Value(Value::Literal(Literal::Number(
                                        Number::Int(2),
                                    ))),
                                    Expression::Value(Value::Variable(String::from("y"))),
                                ],
                            )),
                        ))]),
                        ElseExpression::Block(Block::new(vec![Statement::Expression(
                            Expression::Not(ExpressionContainer::new(Expression::Value(
                                Value::Variable(String::from("b")),
                            ))),
                        )])),
                    ))),
                )),
                Statement::Expression(Expression::Value(Value::Variable(String::from("x")))),
            ]),
        )),
        ProgramContainer::new(Program::Empty),
    );
    assert_eq!(reparse(&ast), ast);
}

#[test]
fn round_trip_expression_tokens() {
    let expr = Expression::Addition(
        ExpressionContainer::new(Expression::Value(Value::Literal(Literal::Number(
            Number::Int(-3),
        )))),
        ExpressionContainer::new(Expression::Multiplication(
            ExpressionContainer::new(Expression::Value(Value::Variable(String::from("x")))),
            ExpressionContainer::new(Expression::Value(Value::Literal(Literal::Number(
                Number::Int(1000000007),
            )))),
        )),
    );
    let mut tokens = Vec::new();
    expression_tokens(&expr, &mut tokens);
    let mut parser = Parser::new(tokens, RangeConverter::new(""));
    assert_eq!(parser.expression(0).expect("should parse"), expr);
}

#[test]
fn serialized_numbers_keep_their_value() {
    assert_round_trip("fn main() -> int { 0 + 9223372036854775807 + -9223372036854775807 }");
}
