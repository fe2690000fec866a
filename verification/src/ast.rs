//! The structures that form the abstract syntax tree built by the parser,
//! together with the binding-power table and the node constructors used by
//! precedence climbing.

use vstd::prelude::*;
use vstd::string::*;

use crate::errors::ParserError;
use crate::lexer::Token;
use crate::parser::Parser;

verus! {

/// Wrapper type to help get around recursive types.
pub type ProgramContainer = Box<Program>;

/// The top level node in the AST.
#[derive(Debug, PartialEq)]
pub enum Program {
    /// Top level declaration, compounded with the rest of the program.
    Decl(Decl, ProgramContainer),
    /// Empty also represents the end of the program.
    Empty,
}

/// Enum of all the types of top level declarations.
#[derive(Debug, PartialEq)]
pub enum Decl {
    /// Variable declaration.
    VarDecl(VarDecl),
    /// Function declaration.
    FuncDecl(FuncDecl),
}

/// Function declaration.
#[derive(Debug, PartialEq)]
pub struct FuncDecl {
    /// Name of the function.
    pub name: String,
    /// Arguments of the function.
    pub args: Vec<ArgDecl>,
    /// Return type of the function.
    pub return_type: Type,
    /// Body of the function.
    pub body: Block,
}

impl FuncDecl {
    /// Creates a new function declaration.
    pub fn new(name: &str, args: Vec<ArgDecl>, return_type: Type, body: Block) -> (r: FuncDecl)
        ensures
            r.name@ == name@,
            r.args@ == args@,
            r.return_type == return_type,
            r.body == body,
    {
        FuncDecl { name: name.to_owned(), args, return_type, body }
    }
}

/// Argument declaration.
#[derive(Debug, PartialEq)]
pub struct ArgDecl {
    /// Name of the argument.
    pub name: String,
    /// Type of the argument.
    pub arg_type: Type,
}

impl ArgDecl {
    /// Creates a new argument declaration.
    pub fn new(name: &str, arg_type: Type) -> (r: ArgDecl)
        ensures
            r.name@ == name@,
            r.arg_type == arg_type,
    {
        ArgDecl { name: name.to_owned(), arg_type }
    }
}

/// Enum of all the built in types, plus user defined type names.
#[derive(Clone, Debug)]
pub enum Type {
    /// 64-bit signed integer.
    Int,
    /// Single precision floating point (named only; no value of it is held).
    Float,
    /// Double precision floating point (named only; no value of it is held).
    Double,
    /// Boolean.
    Boolean,
    /// String.
    String,
    /// Void, representing nothing.
    Void,
    /// User defined type, identified by its name.
    UserDefined(String),
}

/// Structural equality of types; user-defined types are equal when their
/// names are.
pub open spec fn spec_type_eq(a: Type, b: Type) -> bool {
    match (a, b) {
        (Type::Int, Type::Int) => true,
        (Type::Float, Type::Float) => true,
        (Type::Double, Type::Double) => true,
        (Type::Boolean, Type::Boolean) => true,
        (Type::String, Type::String) => true,
        (Type::Void, Type::Void) => true,
        (Type::UserDefined(x), Type::UserDefined(y)) => x@ == y@,
        _ => false,
    }
}

impl PartialEq for Type {
    fn eq(&self, other: &Type) -> (r: bool) {
        match (self, other) {
            (Type::Int, Type::Int) => true,
            (Type::Float, Type::Float) => true,
            (Type::Double, Type::Double) => true,
            (Type::Boolean, Type::Boolean) => true,
            (Type::String, Type::String) => true,
            (Type::Void, Type::Void) => true,
            (Type::UserDefined(x), Type::UserDefined(y)) => *x == *y,
            _ => false,
        }
    }
}

impl vstd::std_specs::cmp::PartialEqSpecImpl for Type {
    open spec fn obeys_eq_spec() -> bool {
        true
    }

    open spec fn eq_spec(&self, other: &Type) -> bool {
        spec_type_eq(*self, *other)
    }
}

impl Type {
    /// The type's name as the language writes it.
    pub fn text(&self) -> String {
        match self {
            Type::Int => "int".to_owned(),
            Type::Float => "float".to_owned(),
            Type::Double => "double".to_owned(),
            Type::Boolean => "boolean".to_owned(),
            Type::String => "string".to_owned(),
            Type::Void => "void".to_owned(),
            Type::UserDefined(name) => name.clone(),
        }
    }
}

/// Enum representing statements.
#[derive(Debug, PartialEq)]
pub enum Statement {
    /// Variable declaration.
    VarDecl(VarDecl),
    /// Expression; most constructs are expressions.
    Expression(Expression),
    /// Empty statement, so that a block may end with a trailing separator.
    Empty,
}

/// An ordered sequence of statements.
#[derive(Debug, PartialEq)]
pub struct Block(pub Vec<Statement>);

impl Block {
    /// Creates a new block from its statements.
    pub fn new(statements: Vec<Statement>) -> (r: Block)
        ensures
            r.0@ == statements@,
    {
        Block(statements)
    }
}

/// A variable declaration: a name bound to the value of an expression.
#[derive(Debug, PartialEq)]
pub struct VarDecl {
    /// The bound name.
    pub identifier: String,
    /// The initializer expression.
    pub expression: Expression,
}

impl VarDecl {
    /// Creates a new variable declaration.
    pub fn new(identifier: String, expression: Expression) -> (r: VarDecl)
        ensures
            r.identifier == identifier,
            r.expression == expression,
    {
        VarDecl { identifier, expression }
    }
}

/// Wrapper type to help get around recursive types.
pub type ExpressionContainer = Box<Expression>;

/// An expression tree node.
#[derive(Debug, PartialEq)]
pub enum Expression {
    /// `left + right`
    Addition(ExpressionContainer, ExpressionContainer),
    /// `left - right`
    Subtraction(ExpressionContainer, ExpressionContainer),
    /// `left * right`
    Multiplication(ExpressionContainer, ExpressionContainer),
    /// `left / right`
    Division(ExpressionContainer, ExpressionContainer),
    /// `left % right`
    Modulus(ExpressionContainer, ExpressionContainer),
    /// `left == right`
    Equality(ExpressionContainer, ExpressionContainer),
    /// `left != right`
    NotEq(ExpressionContainer, ExpressionContainer),
    /// `left < right`
    LessThan(ExpressionContainer, ExpressionContainer),
    /// `left > right`
    GreaterThan(ExpressionContainer, ExpressionContainer),
    /// `left <= right`
    LessEq(ExpressionContainer, ExpressionContainer),
    /// `left >= right`
    GreaterEq(ExpressionContainer, ExpressionContainer),
    /// `left && right`
    And(ExpressionContainer, ExpressionContainer),
    /// `left || right`
    Or(ExpressionContainer, ExpressionContainer),
    /// `!expr`
    Not(ExpressionContainer),
    /// An if-expression.
    If(IfExpressionContainer),
    /// A block used as an expression.
    Block(Block),
    /// A literal, variable or function call.
    Value(Value),
}

/// What `led` builds for an operator token: the binary node for that
/// operator, or nothing for a token that is no binary operator.
pub open spec fn spec_led(token: Token, left: Expression, right: Expression) -> Option<
    Expression,
> {
    match token {
        Token::Plus => Some(Expression::Addition(Box::new(left), Box::new(right))),
        Token::Minus => Some(Expression::Subtraction(Box::new(left), Box::new(right))),
        Token::Star => Some(Expression::Multiplication(Box::new(left), Box::new(right))),
        Token::Slash => Some(Expression::Division(Box::new(left), Box::new(right))),
        Token::Percent => Some(Expression::Modulus(Box::new(left), Box::new(right))),
        Token::Equality => Some(Expression::Equality(Box::new(left), Box::new(right))),
        Token::NotEq => Some(Expression::NotEq(Box::new(left), Box::new(right))),
        Token::LessThan => Some(Expression::LessThan(Box::new(left), Box::new(right))),
        Token::GreaterThan => Some(Expression::GreaterThan(Box::new(left), Box::new(right))),
        Token::LessEq => Some(Expression::LessEq(Box::new(left), Box::new(right))),
        Token::GreaterEq => Some(Expression::GreaterEq(Box::new(left), Box::new(right))),
        Token::And => Some(Expression::And(Box::new(left), Box::new(right))),
        Token::Or => Some(Expression::Or(Box::new(left), Box::new(right))),
        _ => None,
    }
}

/// The binding power of each operator token, tightest highest: `*`, `/`
/// bind above `+`, `-`, which bind above `%`, then the relational
/// operators, then `&&`, then `||`.  Every other token has power 0 and
/// stops precedence climbing.
pub open spec fn spec_bp(token: Token) -> usize {
    match token {
        Token::Or => 10usize,
        Token::And => 20usize,
        Token::Equality => 30usize,
        Token::NotEq => 30usize,
        Token::LessThan => 30usize,
        Token::GreaterThan => 30usize,
        Token::LessEq => 30usize,
        Token::GreaterEq => 30usize,
        Token::Percent => 40usize,
        Token::Plus => 50usize,
        Token::Minus => 50usize,
        Token::Star => 60usize,
        Token::Slash => 60usize,
        _ => 0usize,
    }
}

impl Expression {
    /// NUD stands for `Null-Denotation`, parsing at a position with no left
    /// context: a value, a unary operator, a parenthesized expression, a
    /// block or an if-expression.
    pub fn nud(parser: &mut Parser) -> (r: Result<Expression, ParserError>)
        requires
            old(parser).wf(),
        ensures
            final(parser).wf(),
            Parser::frame(*old(parser), *final(parser)),
            r is Ok ==> old(parser).pos < final(parser).pos,
            ({
                let t0 = old(parser).peek_spec();
                &&& ((t0 == Token::Ident || t0 == Token::Minus || t0 == Token::Int || t0
                    == Token::String || t0 == Token::True || t0 == Token::False) && r is Ok
                    ==> (r matches Ok(e) && e matches Expression::Value(_)))
                &&& (t0 == Token::Not && r is Ok ==> (r matches Ok(e) && e matches
                    Expression::Not(_)))
                &&& (t0 == Token::LBrace && r is Ok ==> (r matches Ok(e) && e matches
                    Expression::Block(_)))
                &&& (t0 == Token::If && r is Ok ==> (r matches Ok(e) && e matches
                    Expression::If(_)))
            }),
            r is Ok ==> crate::parser::nud_end(old(parser).tokens@, old(parser).pos as int)
                == Some(final(parser).pos as int),
            r is Err ==> crate::parser::nud_end(old(parser).tokens@, old(parser).pos as int)
                is None,
            r matches Ok(e) ==> crate::parser::nud_rel(
                old(parser).tokens@,
                old(parser).pos as int,
                e,
            ),
        decreases old(parser).tokens@.len() - old(parser).pos, 5int,
    {
        match parser.peek_token() {
            Token::Ident | Token::Minus | Token::Int | Token::String | Token::True
                | Token::False => {
                match parser.value() {
                    Ok(v) => Ok(Expression::Value(v)),
                    Err(e) => Err(e),
                }
            },
            Token::Not => {
                // unary `!` binds only to the immediate primary: no binding
                // power exceeds the maximum, so precedence climbing stops
                // right after the operand
                parser.next_token();
                match parser.expression(usize::MAX) {
                    Ok(e) => Ok(Expression::Not(Box::new(e))),
                    Err(e) => Err(e),
                }
            },
            Token::LParen => {
                match parser.expect_token(Token::LParen) {
                    Ok(_) => {},
                    Err(e) => {
                        return Err(e);
                    },
                }
                let expr = parser.expression(0);
                match parser.expect_token(Token::RParen) {
                    Ok(_) => {},
                    Err(e) => {
                        return Err(e);
                    },
                }
                expr
            },
            Token::LBrace => {
                match parser.block() {
                    Ok(b) => Ok(Expression::Block(b)),
                    Err(e) => Err(e),
                }
            },
            Token::If => {
                match parser.if_expression() {
                    Ok(i) => Ok(Expression::If(Box::new(i))),
                    Err(e) => Err(e),
                }
            },
            _ => Err(parser.error_expected_value()),
        }
    }

    /// LED stands for `Left-Denotation`, combining an operator token with an
    /// already parsed left operand and a freshly parsed right operand.
    pub fn led(left: Expression, token: Token, right: Expression) -> (r: Result<
        Expression,
        ParserError,
    >)
        ensures
            match spec_led(token, left, right) {
                Some(e) => r == Ok::<Expression, ParserError>(e),
                None => r matches Err(err) && err.expected@ == seq![
                    Token::Plus,
                    Token::Minus,
                    Token::Star,
                    Token::Slash,
                    Token::Percent,
                    Token::Equality,
                    Token::NotEq,
                    Token::LessThan,
                    Token::GreaterThan,
                    Token::LessEq,
                    Token::GreaterEq,
                    Token::And,
                    Token::Or,
                ] && err.found == Some(token),
            },
    {
        match token {
            Token::Plus => Ok(Expression::Addition(Box::new(left), Box::new(right))),
            Token::Minus => Ok(Expression::Subtraction(Box::new(left), Box::new(right))),
            Token::Star => Ok(Expression::Multiplication(Box::new(left), Box::new(right))),
            Token::Slash => Ok(Expression::Division(Box::new(left), Box::new(right))),
            Token::Percent => Ok(Expression::Modulus(Box::new(left), Box::new(right))),
            Token::Equality => Ok(Expression::Equality(Box::new(left), Box::new(right))),
            Token::NotEq => Ok(Expression::NotEq(Box::new(left), Box::new(right))),
            Token::LessThan => Ok(Expression::LessThan(Box::new(left), Box::new(right))),
            Token::GreaterThan => Ok(Expression::GreaterThan(Box::new(left), Box::new(right))),
            Token::LessEq => Ok(Expression::LessEq(Box::new(left), Box::new(right))),
            Token::GreaterEq => Ok(Expression::GreaterEq(Box::new(left), Box::new(right))),
            Token::And => Ok(Expression::And(Box::new(left), Box::new(right))),
            Token::Or => Ok(Expression::Or(Box::new(left), Box::new(right))),
            _ => Err(ParserError::expected(
                vec![
                    Token::Plus,
                    Token::Minus,
                    Token::Star,
                    Token::Slash,
                    Token::Percent,
                    Token::Equality,
                    Token::NotEq,
                    Token::LessThan,
                    Token::GreaterThan,
                    Token::LessEq,
                    Token::GreaterEq,
                    Token::And,
                    Token::Or,
                ],
                token,
                (0, 0),
            )),
        }
    }

    /// Function to determine the binding power of an operator.
    pub fn bp(token: Token) -> (r: usize)
        ensures
            r == spec_bp(token),
    {
        match token {
            Token::Or => 10,
            Token::And => 20,
            Token::Equality | Token::NotEq | Token::LessThan | Token::GreaterThan
                | Token::LessEq | Token::GreaterEq => 30,
            Token::Percent => 40,
            Token::Plus | Token::Minus => 50,
            Token::Star | Token::Slash => 60,
            _ => 0,
        }
    }
}

/// Wrapper type to help get around recursive types.
pub type IfExpressionContainer = Box<IfExpression>;

/// An if-expression: a condition, a body, and an optional else part.
#[derive(Debug, PartialEq)]
pub struct IfExpression {
    /// The condition expression.
    pub condition: Expression,
    /// The block evaluated when the condition holds.
    pub body: Block,
    /// The else part.
    pub else_expression: ElseExpression,
}

impl IfExpression {
    /// Creates a new if expression.
    pub fn new(condition: Expression, body: Block, else_expression: ElseExpression) -> (r:
        IfExpression)
        ensures
            r.condition == condition,
            r.body == body,
            r.else_expression == else_expression,
    {
        IfExpression { condition, body, else_expression }
    }
}

/// The else part of an if-expression: a block, a chained if-expression, or
/// nothing.
#[derive(Debug, PartialEq)]
pub enum ElseExpression {
    /// An else block.
    Block(Block),
    /// A chained else-if.
    IfExpression(IfExpressionContainer),
    /// No else part.
    Empty,
}

/// A terminal of the expression grammar.
#[derive(Debug, PartialEq)]
pub enum Value {
    /// A literal value.
    Literal(Literal),
    /// A variable reference, by name.
    Variable(String),
    /// A function call.
    FunctionCall(FunctionCall),
}

/// A literal value.
#[derive(Debug, PartialEq)]
pub enum Literal {
    /// A numeric literal.
    Number(Number),
    /// A boolean literal.
    Boolean(bool),
    /// A string literal, without its quotes.
    String(String),
}

/// A function call: a callee name and its argument expressions.
#[derive(Debug, PartialEq)]
pub struct FunctionCall {
    /// Name of the called function.
    pub name: String,
    /// Arguments of the call, in order.
    pub arguments: Vec<Expression>,
}

impl FunctionCall {
    /// Creates a new function call.
    pub fn new(name: &str, arguments: Vec<Expression>) -> (r: FunctionCall)
        ensures
            r.name@ == name@,
            r.arguments@ == arguments@,
    {
        FunctionCall { name: name.to_owned(), arguments }
    }
}

/// A numeric literal.  The grammar produces 64-bit signed integers.
#[derive(Debug, PartialEq)]
pub enum Number {
    /// A signed integer.
    Int(i64),
}

impl Number {
    /// The integer value of the number.
    pub fn to_int(&self) -> (r: i64)
        ensures
            self == Number::Int(r),
    {
        match self {
            Number::Int(i) => *i,
        }
    }
}


/// Law: the precedence table orders the operators tightest first as
/// multiplicative, additive, modulus, relational, conjunction, disjunction;
/// operators of one family share their binding power, and every
/// non-operator token has power 0, below every operator.
pub proof fn lemma_binding_power_order()
    ensures
        spec_bp(Token::Star) == spec_bp(Token::Slash),
        spec_bp(Token::Plus) == spec_bp(Token::Minus),
        spec_bp(Token::Equality) == spec_bp(Token::NotEq),
        spec_bp(Token::Equality) == spec_bp(Token::LessThan),
        spec_bp(Token::Equality) == spec_bp(Token::GreaterThan),
        spec_bp(Token::Equality) == spec_bp(Token::LessEq),
        spec_bp(Token::Equality) == spec_bp(Token::GreaterEq),
        spec_bp(Token::Star) > spec_bp(Token::Plus),
        spec_bp(Token::Plus) > spec_bp(Token::Percent),
        spec_bp(Token::Percent) > spec_bp(Token::Equality),
        spec_bp(Token::Equality) > spec_bp(Token::And),
        spec_bp(Token::And) > spec_bp(Token::Or),
        spec_bp(Token::Or) > 0,
{
}

} // verus!
