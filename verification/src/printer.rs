//! Serializes an AST back into a token stream.
//!
//! Composite expressions are emitted parenthesized, so re-parsing the
//! serialized form of any AST the grammar can produce yields a structurally
//! identical AST; the round trip is exercised over every node kind by the
//! test suite.  Token spans are synthetic: only the kinds and texts matter
//! to the parser.

use vstd::prelude::*;
use vstd::string::*;

use crate::ast::{
    ArgDecl, Block, Decl, ElseExpression, Expression, FuncDecl, IfExpression, Literal, Number,
    Program, Statement, Type, Value, VarDecl,
};
use crate::lexer::{Token, TokenItem};
use crate::parser::{digits_val, is_digit_seq};

verus! {

/// Appends one synthetic token.
fn push_tok(out: &mut Vec<TokenItem>, token: Token, text: &str)
    ensures
        final(out)@.len() == old(out)@.len() + 1,
{
    out.push(TokenItem { token, start: 0, end: 0, text: text.to_owned() });
}

/// The text of one decimal digit.
fn digit_text(d: u64) -> (r: &'static str)
    requires
        d < 10,
    ensures
        r@.len() == 1,
        '0' <= r@[0] <= '9',
        r@[0] as int == 48 + d,
{
    proof {
        reveal_strlit("0");
        reveal_strlit("1");
        reveal_strlit("2");
        reveal_strlit("3");
        reveal_strlit("4");
        reveal_strlit("5");
        reveal_strlit("6");
        reveal_strlit("7");
        reveal_strlit("8");
        reveal_strlit("9");
    }
    if d == 0 {
        "0"
    } else if d == 1 {
        "1"
    } else if d == 2 {
        "2"
    } else if d == 3 {
        "3"
    } else if d == 4 {
        "4"
    } else if d == 5 {
        "5"
    } else if d == 6 {
        "6"
    } else if d == 7 {
        "7"
    } else if d == 8 {
        "8"
    } else {
        "9"
    }
}

/// Ten to the k-th power.
pub open spec fn pow10(k: nat) -> int
    decreases k,
{
    if k == 0 {
        1
    } else {
        10 * pow10((k - 1) as nat)
    }
}

/// The value of a digit list read from its top index down to `i`: the digit
/// at the highest index is the most significant.
pub open spec fn suffix_val(ds: Seq<u64>, i: int) -> int
    decreases ds.len() - i,
{
    if i < 0 || i >= ds.len() {
        0
    } else {
        suffix_val(ds, i + 1) * 10 + ds[i]
    }
}

proof fn lemma_pow10_pos(k: nat)
    ensures
        pow10(k) >= 1,
    decreases k,
{
    if k > 0 {
        lemma_pow10_pos((k - 1) as nat);
    }
}

proof fn lemma_suffix_val_push(ds: Seq<u64>, d: u64, i: int)
    requires
        0 <= i <= ds.len(),
    ensures
        suffix_val(ds.push(d), i) == d * pow10((ds.len() - i) as nat) + suffix_val(ds, i),
    decreases ds.len() - i,
{
    let ds2 = ds.push(d);
    if i == ds.len() {
        assert(suffix_val(ds2, i + 1) == 0);
        assert(ds2[i] == d);
        assert(pow10(0) == 1);
    } else {
        lemma_suffix_val_push(ds, d, i + 1);
        assert(ds2[i] == ds[i]);
        let n = (ds.len() - i) as nat;
        assert(pow10(n) == 10 * pow10((n - 1) as nat));
        assert((d * pow10((n - 1) as nat)) * 10 == d * pow10(n)) by (nonlinear_arith)
            requires
                pow10(n) == 10 * pow10((n - 1) as nat),
        ;
    }
}

/// The canonical decimal rendering of a non-negative magnitude.  The
/// rendered digits carry exactly the value they came from, which is what
/// closes the round trip for numeric literals: the parser's digit reading
/// returns [`digits_val`] of this text.
pub fn magnitude_text(m: u64) -> (r: String)
    ensures
        is_digit_seq(r@),
        digits_val(r@) == m,
{
    if m == 0 {
        proof {
            reveal_strlit("0");
            assert("0"@.len() == 1);
            assert("0"@.last() == '0');
            assert("0"@.drop_last() =~= Seq::<char>::empty());
            assert(digits_val("0"@.drop_last()) == 0);
            assert(digits_val("0"@) == 0);
        }
        return "0".to_owned();
    }
    let mut digits: Vec<u64> = Vec::new();
    let mut rest = m;
    while rest > 0
        invariant
            m == rest * pow10(digits@.len() as nat) + suffix_val(digits@, 0),
            forall|k: int| 0 <= k < digits@.len() ==> #[trigger] digits@[k] < 10,
        decreases rest,
    {
        let ghost ds = digits@;
        let ghost r0 = rest as int;
        let d = rest % 10;
        digits.push(d);
        rest = rest / 10;
        proof {
            lemma_suffix_val_push(ds, d, 0);
            let n = ds.len() as nat;
            assert(pow10(n + 1) == 10 * pow10(n));
            assert(r0 == 10 * (r0 / 10) + r0 % 10);
            assert(r0 * pow10(n) == (r0 / 10) * pow10(n + 1) + (r0 % 10) * pow10(n))
                by (nonlinear_arith)
                requires
                    pow10(n + 1) == 10 * pow10(n),
                    r0 >= 0,
            ;
        }
    }
    let mut text = String::new();
    let mut i = digits.len();
    while i > 0
        invariant
            i <= digits@.len(),
            forall|k: int| 0 <= k < digits@.len() ==> #[trigger] digits@[k] < 10,
            text@.len() == digits@.len() - i,
            forall|k: int| 0 <= k < text@.len() ==> '0' <= #[trigger] text@[k] <= '9',
            digits_val(text@) == suffix_val(digits@, i as int),
        decreases i,
    {
        let ghost t0 = text@;
        i = i - 1;
        let d = digits[i];
        text.append(digit_text(d));
        proof {
            assert(text@.drop_last() =~= t0);
            assert(text@.last() as int == 48 + d);
        }
    }
    proof {
        lemma_pow10_pos(digits@.len() as nat);
        assert(digits@.len() > 0);
    }
    text
}

/// Emits a number literal: a minus token and the magnitude for negative
/// values.
fn number_tokens(n: &Number, out: &mut Vec<TokenItem>)
    ensures
        final(out)@.len() > old(out)@.len(),
{
    let v = n.to_int();
    if v < 0 {
        push_tok(out, Token::Minus, "-");
        let m = if v == i64::MIN {
            9223372036854775808u64
        } else {
            (-v) as u64
        };
        let text = magnitude_text(m);
        push_tok(out, Token::Int, text.as_str());
    } else {
        let text = magnitude_text(v as u64);
        push_tok(out, Token::Int, text.as_str());
    }
}

/// Emits a literal.
fn literal_tokens(lit: &Literal, out: &mut Vec<TokenItem>)
    ensures
        final(out)@.len() > old(out)@.len(),
{
    match lit {
        Literal::Number(n) => number_tokens(n, out),
        Literal::Boolean(b) => {
            if *b {
                push_tok(out, Token::True, "true");
            } else {
                push_tok(out, Token::False, "false");
            }
        },
        Literal::String(s) => {
            let mut text = "\"".to_owned();
            text.append(s.as_str());
            text.append("\"");
            push_tok(out, Token::String, text.as_str());
        },
    }
}

/// Emits a type name.
fn type_tokens(t: &Type, out: &mut Vec<TokenItem>)
    ensures
        final(out)@.len() > old(out)@.len(),
{
    match t {
        Type::Int => push_tok(out, Token::IntType, "int"),
        Type::Float => push_tok(out, Token::FloatType, "float"),
        Type::Double => push_tok(out, Token::DoubleType, "double"),
        Type::Boolean => push_tok(out, Token::BooleanType, "bool"),
        Type::Void => push_tok(out, Token::VoidType, "void"),
        // `string` is not a surface type name; like a user-defined type it
        // can only be written as an identifier
        Type::String => push_tok(out, Token::Ident, "string"),
        Type::UserDefined(name) => push_tok(out, Token::Ident, name.as_str()),
    }
}

/// Emits a value: a literal, a variable, or a call with its arguments.
fn value_tokens(value: &Value, out: &mut Vec<TokenItem>)
    ensures
        final(out)@.len() > old(out)@.len(),
    decreases value,
{
    match value {
        Value::Literal(lit) => literal_tokens(lit, out),
        Value::Variable(name) => push_tok(out, Token::Ident, name.as_str()),
        Value::FunctionCall(func) => {
            push_tok(out, Token::Ident, func.name.as_str());
            push_tok(out, Token::LParen, "(");
            let mut i: usize = 0;
            #[verifier::loop_isolation(false)]
            while i < func.arguments.len()
                invariant
                    out@.len() > old(out)@.len(),
                decreases func.arguments@.len() - i,
            {
                proof {
                    assert(*func == value->FunctionCall_0);
                    assert(decreases_to!(*value => value->FunctionCall_0));
                    assert(decreases_to!(*func => func.arguments));
                    assert(decreases_to!(func.arguments => func.arguments@));
                    assert(decreases_to!(func.arguments@ => func.arguments@[i as int]));
                }
                if i > 0 {
                    push_tok(out, Token::Comma, ",");
                }
                expression_tokens(&func.arguments[i], out);
                i = i + 1;
            }
            push_tok(out, Token::RParen, ")");
        },
    }
}

/// The operator token of a binary expression node, if it is one.
fn binary_op_token(e: &Expression) -> (r: Option<Token>) {
    match e {
        Expression::Addition(_, _) => Some(Token::Plus),
        Expression::Subtraction(_, _) => Some(Token::Minus),
        Expression::Multiplication(_, _) => Some(Token::Star),
        Expression::Division(_, _) => Some(Token::Slash),
        Expression::Modulus(_, _) => Some(Token::Percent),
        Expression::Equality(_, _) => Some(Token::Equality),
        Expression::NotEq(_, _) => Some(Token::NotEq),
        Expression::LessThan(_, _) => Some(Token::LessThan),
        Expression::GreaterThan(_, _) => Some(Token::GreaterThan),
        Expression::LessEq(_, _) => Some(Token::LessEq),
        Expression::GreaterEq(_, _) => Some(Token::GreaterEq),
        Expression::And(_, _) => Some(Token::And),
        Expression::Or(_, _) => Some(Token::Or),
        _ => None,
    }
}

/// Emits an expression so that it re-parses as one primary: binary nodes
/// and unary not are parenthesized; values, blocks and if-expressions stand
/// on their own.
pub fn expression_tokens(e: &Expression, out: &mut Vec<TokenItem>)
    ensures
        final(out)@.len() > old(out)@.len(),
    decreases e,
{
    match e {
        Expression::Addition(left, right)
        | Expression::Subtraction(left, right)
        | Expression::Multiplication(left, right)
        | Expression::Division(left, right)
        | Expression::Modulus(left, right)
        | Expression::Equality(left, right)
        | Expression::NotEq(left, right)
        | Expression::LessThan(left, right)
        | Expression::GreaterThan(left, right)
        | Expression::LessEq(left, right)
        | Expression::GreaterEq(left, right)
        | Expression::And(left, right)
        | Expression::Or(left, right) => {
            let op = match binary_op_token(e) {
                Some(op) => op,
                None => Token::Plus,  // unreachable: every arm above is binary
            };
            push_tok(out, Token::LParen, "(");
            expression_tokens(&**left, out);
            let text = op.text();
            push_tok(out, op, text.as_str());
            expression_tokens(&**right, out);
            push_tok(out, Token::RParen, ")");
        },
        Expression::Not(inner) => {
            push_tok(out, Token::LParen, "(");
            push_tok(out, Token::Not, "!");
            expression_tokens(&**inner, out);
            push_tok(out, Token::RParen, ")");
        },
        Expression::If(if_expression) => if_tokens(&**if_expression, out),
        Expression::Block(block) => block_tokens(block, out),
        Expression::Value(value) => value_tokens(value, out),
    }
}

/// Emits an if-expression with its else chain.
pub fn if_tokens(ie: &IfExpression, out: &mut Vec<TokenItem>)
    ensures
        final(out)@.len() > old(out)@.len(),
    decreases ie,
{
    push_tok(out, Token::If, "if");
    expression_tokens(&ie.condition, out);
    block_tokens(&ie.body, out);
    match &ie.else_expression {
        ElseExpression::Block(block) => {
            push_tok(out, Token::Else, "else");
            block_tokens(block, out);
        },
        ElseExpression::IfExpression(inner) => {
            push_tok(out, Token::Else, "else");
            if_tokens(&**inner, out);
        },
        ElseExpression::Empty => {},
    }
}

/// Emits a block: its statements separated by `;` between braces.  A
/// trailing empty statement, as the grammar produces it, comes out as the
/// trailing separator it came from.
pub fn block_tokens(block: &Block, out: &mut Vec<TokenItem>)
    ensures
        final(out)@.len() > old(out)@.len(),
    decreases block,
{
    push_tok(out, Token::LBrace, "{");
    let mut i: usize = 0;
    #[verifier::loop_isolation(false)]
    while i < block.0.len()
        invariant
            out@.len() > old(out)@.len(),
        decreases block.0@.len() - i,
    {
        proof {
            assert(decreases_to!(*block => block.0));
            assert(decreases_to!(block.0 => block.0@));
            assert(decreases_to!(block.0@ => block.0@[i as int]));
        }
        if i > 0 {
            push_tok(out, Token::Semicolon, ";");
        }
        statement_tokens(&block.0[i], out);
        i = i + 1;
    }
    push_tok(out, Token::RBrace, "}");
}

/// Emits one statement; the empty statement has no tokens of its own.
pub fn statement_tokens(statement: &Statement, out: &mut Vec<TokenItem>)
    ensures
        final(out)@.len() >= old(out)@.len(),
    decreases statement,
{
    match statement {
        Statement::VarDecl(var_decl) => var_decl_tokens(var_decl, out),
        Statement::Expression(e) => expression_tokens(e, out),
        Statement::Empty => {},
    }
}

/// Emits a variable declaration without its terminating separator.
pub fn var_decl_tokens(var_decl: &VarDecl, out: &mut Vec<TokenItem>)
    ensures
        final(out)@.len() > old(out)@.len(),
    decreases var_decl,
{
    push_tok(out, Token::Let, "let");
    push_tok(out, Token::Ident, var_decl.identifier.as_str());
    push_tok(out, Token::Equal, "=");
    expression_tokens(&var_decl.expression, out);
}

/// Emits an argument declaration list.
fn arg_decls_tokens(args: &Vec<ArgDecl>, out: &mut Vec<TokenItem>)
    ensures
        final(out)@.len() >= old(out)@.len(),
{
    let mut i: usize = 0;
    while i < args.len()
        invariant
            out@.len() >= old(out)@.len(),
        decreases args@.len() - i,
    {
        if i > 0 {
            push_tok(out, Token::Comma, ",");
        }
        push_tok(out, Token::Ident, args[i].name.as_str());
        push_tok(out, Token::Colon, ":");
        type_tokens(&args[i].arg_type, out);
        i = i + 1;
    }
}

/// Emits a function declaration, with its return type always explicit.
pub fn func_decl_tokens(func: &FuncDecl, out: &mut Vec<TokenItem>)
    ensures
        final(out)@.len() > old(out)@.len(),
    decreases func,
{
    push_tok(out, Token::Fn, "fn");
    push_tok(out, Token::Ident, func.name.as_str());
    push_tok(out, Token::LParen, "(");
    arg_decls_tokens(&func.args, out);
    push_tok(out, Token::RParen, ")");
    push_tok(out, Token::Arrow, "->");
    type_tokens(&func.return_type, out);
    block_tokens(&func.body, out);
}

/// Emits one top-level declaration.
pub fn decl_tokens(decl: &Decl, out: &mut Vec<TokenItem>)
    ensures
        final(out)@.len() > old(out)@.len(),
    decreases decl,
{
    match decl {
        Decl::FuncDecl(func) => func_decl_tokens(func, out),
        Decl::VarDecl(var_decl) => {
            var_decl_tokens(var_decl, out);
            push_tok(out, Token::Semicolon, ";");
        },
    }
}

/// Serializes a whole program into the token stream it re-parses from.
pub fn program_to_tokens(program: &Program) -> (r: Vec<TokenItem>)
    ensures
        program is Empty ==> r@.len() == 0,
        program matches Program::Decl(_, _) ==> r@.len() > 0,
{
    let mut out: Vec<TokenItem> = Vec::new();
    let mut cur = program;
    let ghost first = *program;
    loop
        invariant_except_break
            out@.len() == 0 ==> *cur == first,
            first is Empty ==> out@.len() == 0,
        ensures
            out@.len() == 0 ==> first is Empty,
            first is Empty ==> out@.len() == 0,
        decreases *cur,
    {
        match cur {
            Program::Decl(decl, rest) => {
                decl_tokens(decl, &mut out);
                cur = &**rest;
            },
            Program::Empty => {
                break;
            },
        }
    }
    out
}

} // verus!
