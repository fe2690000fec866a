//! The parser: recursive descent for declarations, statements and blocks,
//! and precedence climbing for expressions.
//!
//! The grammar it accepts:
//!
//! ```text
//! PROGRAM       := DECL PROGRAM | λ ;
//! DECL          := FUNC_DECL | VAR_DECL Semicolon ;
//! FUNC_DECL     := Fn Ident LParen ARG_DECL RParen RETURN_DECL BLOCK ;
//! VAR_DECL      := Let Ident Equal EXPRESSION ;
//! ARG_DECL      := ARG [ Comma ARG_DECL ] | λ ;
//! ARG           := Ident TYPE_DECL ;
//! RETURN_DECL   := Arrow TYPE | λ ;
//! TYPE_DECL     := Colon TYPE ;
//! BLOCK         := LBrace BLOCK_CONTENT RBrace ;
//! BLOCK_CONTENT := STATEMENT [ Semicolon BLOCK_CONTENT ] | λ ;
//! STATEMENT     := EXPRESSION | VAR_DECL ;
//! EXPRESSION    := EXPRESSION (binary op) EXPRESSION
//!               |  Not EXPRESSION
//!               |  LParen EXPRESSION RParen
//!               |  IF_EXPRESSION
//!               |  BLOCK
//!               |  VALUE
//!               ;
//! IF_EXPRESSION := If EXPRESSION BLOCK [ Else ( BLOCK | IF_EXPRESSION ) ] ;
//! VALUE         := LITERAL | Ident LParen ARG_LIST RParen | Ident ;
//! LITERAL       := [ Minus ] Number | True | False | String ;
//! ARG_LIST      := EXPRESSION [ Comma ARG_LIST ] | λ ;
//! ```
//!
//! Binding powers resolve precedence and left associativity; see
//! [`crate::ast::spec_bp`].  Parsing stops at the first error; peeking past
//! the end of the stream yields a synthesized `End` token, so lookahead
//! never fails.

use vstd::prelude::*;
use vstd::string::*;

use crate::ast::{
    spec_bp, spec_led, ArgDecl, Block, Decl, ElseExpression, Expression, FuncDecl, FunctionCall,
    IfExpression, Literal, Number, Program, Statement, Type, Value, VarDecl,
};
use crate::errors::ParserError;
use crate::lexer::{RangeConverter, Token, TokenItem};

verus! {

/// Result type of every sub-parser.
pub type Output<Out = ()> = Result<Out, ParserError>;

/// True when every character of `s` is an ASCII digit and there is at least
/// one of them.
pub open spec fn is_digit_seq(s: Seq<char>) -> bool {
    s.len() > 0 && forall|i: int| 0 <= i < s.len() ==> '0' <= #[trigger] s[i] <= '9'
}

/// The value of a sequence of decimal digits.
pub open spec fn digits_val(s: Seq<char>) -> int
    decreases s.len(),
{
    if s.len() == 0 {
        0
    } else {
        digits_val(s.drop_last()) * 10 + (s.last() as int - 48)
    }
}

proof fn lemma_digits_val_nonneg(s: Seq<char>)
    requires
        forall|i: int| 0 <= i < s.len() ==> '0' <= #[trigger] s[i] <= '9',
    ensures
        digits_val(s) >= 0,
    decreases s.len(),
{
    if s.len() > 0 {
        lemma_digits_val_nonneg(s.drop_last());
    }
}

proof fn lemma_digits_val_prefix_le(s: Seq<char>, i: int)
    requires
        forall|k: int| 0 <= k < s.len() ==> '0' <= #[trigger] s[k] <= '9',
        0 <= i <= s.len(),
    ensures
        digits_val(s.take(i)) <= digits_val(s),
    decreases s.len() - i,
{
    if i < s.len() {
        lemma_digits_val_prefix_le(s, i + 1);
        assert(s.take(i + 1).drop_last() =~= s.take(i));
        assert(s.take(i + 1).last() == s[i]);
        lemma_digits_val_nonneg(s.take(i));
    } else {
        assert(s.take(i) =~= s);
    }
}

/// The token at a position of a token list, `End` past its end.
pub open spec fn tok_at(toks: Seq<TokenItem>, pos: int) -> Token {
    if 0 <= pos < toks.len() {
        toks[pos].token
    } else {
        Token::End
    }
}

/// The text of the token at a position of a token list.
pub open spec fn text_at(toks: Seq<TokenItem>, pos: int) -> Seq<char> {
    if 0 <= pos < toks.len() {
        toks[pos].text@
    } else {
        "EOF"@
    }
}

/// The tokens that may name a type.
pub open spec fn is_type_token(t: Token) -> bool {
    t == Token::IntType || t == Token::FloatType || t == Token::DoubleType || t
        == Token::BooleanType || t == Token::VoidType || t == Token::Ident
}

/// Where parsing a value ends, if it succeeds: a literal (with an optional
/// leading minus), a variable, or a call with its argument list.
pub open spec fn value_end(toks: Seq<TokenItem>, pos: int) -> Option<int>
    decreases toks.len() - pos, 2int,
{
    if pos < 0 || pos > toks.len() {
        None
    } else {
        let t0 = tok_at(toks, pos);
        if t0 == Token::Minus {
            let t1 = tok_at(toks, pos + 1);
            if t1 == Token::Int {
                let sl = text_at(toks, pos + 1);
                if is_digit_seq(sl) && digits_val(sl) <= i64::MAX {
                    Some(pos + 2)
                } else {
                    None
                }
            } else {
                None
            }
        } else if t0 == Token::True || t0 == Token::False {
            Some(pos + 1)
        } else if t0 == Token::String {
            let sl = text_at(toks, pos);
            if vstd::utf8::is_ascii_chars(sl) && sl.len() >= 2 {
                Some(pos + 1)
            } else {
                None
            }
        } else if t0 == Token::Int {
            let sl = text_at(toks, pos);
            if is_digit_seq(sl) && digits_val(sl) <= i64::MAX {
                Some(pos + 1)
            } else {
                None
            }
        } else if t0 == Token::Ident {
            if tok_at(toks, pos + 1) == Token::LParen {
                args_end(toks, pos + 2)
            } else {
                Some(pos + 1)
            }
        } else {
            None
        }
    }
}

/// Where a call's argument list ends (just past the closing parenthesis),
/// if every argument parses: expressions separated by commas, possibly
/// none.
pub open spec fn args_end(toks: Seq<TokenItem>, pos: int) -> Option<int>
    decreases toks.len() - pos, 8int,
{
    if pos < 0 || pos > toks.len() {
        None
    } else if tok_at(toks, pos) == Token::RParen {
        Some(pos + 1)
    } else {
        match expr_end(toks, pos, 0) {
            Some(e) => if e > pos && e <= toks.len() {
                args_rest_end(toks, e)
            } else {
                None
            },
            None => None,
        }
    }
}

/// Where a call's argument list ends after one argument: a comma must
/// precede each further argument.
pub open spec fn args_rest_end(toks: Seq<TokenItem>, pos: int) -> Option<int>
    decreases toks.len() - pos, 9int,
{
    if pos < 0 || pos > toks.len() {
        None
    } else if tok_at(toks, pos) == Token::RParen {
        Some(pos + 1)
    } else if tok_at(toks, pos) == Token::Comma {
        match expr_end(toks, pos + 1, 0) {
            Some(e) => if e > pos + 1 && e <= toks.len() {
                args_rest_end(toks, e)
            } else {
                None
            },
            None => None,
        }
    } else {
        None
    }
}

/// Where an expression primary ends, if one starts here.
pub open spec fn nud_end(toks: Seq<TokenItem>, pos: int) -> Option<int>
    decreases toks.len() - pos, 5int,
{
    if pos < 0 || pos > toks.len() {
        None
    } else {
        let t = tok_at(toks, pos);
        if t == Token::Ident || t == Token::Minus || t == Token::Int || t == Token::String || t
            == Token::True || t == Token::False {
            value_end(toks, pos)
        } else if t == Token::Not {
            expr_end(toks, pos + 1, usize::MAX as int)
        } else if t == Token::LParen {
            match expr_end(toks, pos + 1, 0) {
                Some(m) => if tok_at(toks, m) == Token::RParen {
                    Some(m + 1)
                } else {
                    None
                },
                None => None,
            }
        } else if t == Token::LBrace {
            block_end(toks, pos)
        } else if t == Token::If {
            if_end(toks, pos)
        } else {
            None
        }
    }
}

/// Where precedence climbing from a parsed left operand ends: operators
/// bind while their power exceeds `rbp`, each consuming the operator and a
/// right operand.
pub open spec fn led_end(toks: Seq<TokenItem>, pos: int, rbp: int) -> Option<int>
    decreases toks.len() - pos, 4int,
{
    if pos < 0 || pos >= toks.len() {
        if 0 <= pos <= toks.len() && spec_bp(tok_at(toks, pos)) as int <= rbp {
            Some(pos)
        } else {
            None
        }
    } else {
        let t = tok_at(toks, pos);
        if spec_bp(t) as int <= rbp {
            Some(pos)
        } else {
            match expr_end(toks, pos + 1, spec_bp(t) as int) {
                Some(r2) => if r2 > pos + 1 && r2 <= toks.len() {
                    led_end(toks, r2, rbp)
                } else {
                    None
                },
                None => None,
            }
        }
    }
}

/// Where an expression ends when parsed with right binding power `rbp`, if
/// it parses: a primary, then precedence climbing.
pub open spec fn expr_end(toks: Seq<TokenItem>, pos: int, rbp: int) -> Option<int>
    decreases toks.len() - pos, 6int,
{
    match nud_end(toks, pos) {
        Some(m) => if m > pos && m <= toks.len() {
            led_end(toks, m, rbp)
        } else {
            None
        },
        None => None,
    }
}

/// Where a block ends, if it parses: a brace, statements separated by `;`,
/// a closing brace.
pub open spec fn block_end(toks: Seq<TokenItem>, pos: int) -> Option<int>
    decreases toks.len() - pos, 4int,
{
    if tok_at(toks, pos) == Token::LBrace {
        stmts_end(toks, pos + 1)
    } else {
        None
    }
}

/// Where a block's statement list ends (just past the closing brace).
pub open spec fn stmts_end(toks: Seq<TokenItem>, pos: int) -> Option<int>
    decreases toks.len() - pos, 8int,
{
    if pos < 0 || pos > toks.len() {
        None
    } else {
        match statement_end(toks, pos) {
            Some(send) => if send >= pos && send < toks.len() {
                if tok_at(toks, send) == Token::Semicolon {
                    stmts_end(toks, send + 1)
                } else if tok_at(toks, send) == Token::RBrace {
                    Some(send + 1)
                } else {
                    None
                }
            } else {
                None
            },
            None => None,
        }
    }
}

/// Where a statement ends, if one starts here.
pub open spec fn statement_end(toks: Seq<TokenItem>, pos: int) -> Option<int>
    decreases toks.len() - pos, 7int,
{
    let t = tok_at(toks, pos);
    if t == Token::Let {
        var_decl_end(toks, pos)
    } else if t == Token::LBrace || t == Token::LParen || t == Token::Minus || t == Token::Ident
        || t == Token::Int || t == Token::String || t == Token::If || t == Token::Not || t
        == Token::True || t == Token::False {
        expr_end(toks, pos, 0)
    } else if t == Token::RBrace {
        Some(pos)
    } else {
        None
    }
}

/// Where a variable declaration (without its separator) ends.
pub open spec fn var_decl_end(toks: Seq<TokenItem>, pos: int) -> Option<int>
    decreases toks.len() - pos, 3int,
{
    if tok_at(toks, pos) == Token::Let && tok_at(toks, pos + 1) == Token::Ident && tok_at(
        toks,
        pos + 2,
    ) == Token::Equal {
        expr_end(toks, pos + 3, 0)
    } else {
        None
    }
}

/// Where an if-expression ends, with its optional else block or else-if
/// chain.
pub open spec fn if_end(toks: Seq<TokenItem>, pos: int) -> Option<int>
    decreases toks.len() - pos, 4int,
{
    if pos < 0 || pos > toks.len() || tok_at(toks, pos) != Token::If {
        None
    } else {
        match expr_end(toks, pos + 1, 0) {
            Some(cend) => if cend > pos + 1 && cend <= toks.len() {
                match block_end(toks, cend) {
                    Some(bend) => if bend > cend {
                        if tok_at(toks, bend) == Token::Else {
                            if tok_at(toks, bend + 1) == Token::LBrace {
                                block_end(toks, bend + 1)
                            } else if tok_at(toks, bend + 1) == Token::If {
                                if bend + 1 <= toks.len() {
                                    if_end(toks, bend + 1)
                                } else {
                                    None
                                }
                            } else {
                                None
                            }
                        } else {
                            Some(bend)
                        }
                    } else {
                        None
                    },
                    None => None,
                }
            } else {
                None
            },
            None => None,
        }
    }
}

/// Where an argument declaration list ends: `name: type` pairs separated
/// by commas, possibly empty, stopping before anything else.
pub open spec fn params_end(toks: Seq<TokenItem>, pos: int) -> Option<int>
    decreases toks.len() - pos, 9int,
{
    if pos < 0 || pos > toks.len() {
        None
    } else if tok_at(toks, pos) != Token::Ident {
        Some(pos)
    } else if tok_at(toks, pos + 1) != Token::Colon {
        None
    } else if !is_type_token(tok_at(toks, pos + 2)) {
        None
    } else if tok_at(toks, pos + 3) == Token::Comma {
        if pos + 4 <= toks.len() {
            params_end(toks, pos + 4)
        } else {
            None
        }
    } else {
        Some(pos + 3)
    }
}

/// Where a function declaration ends, if it parses.
pub open spec fn func_decl_end(toks: Seq<TokenItem>, pos: int) -> Option<int>
    decreases toks.len() - pos, 10int,
{
    if tok_at(toks, pos) != Token::Fn || tok_at(toks, pos + 1) != Token::Ident || tok_at(
        toks,
        pos + 2,
    ) != Token::LParen {
        None
    } else {
        match params_end(toks, pos + 3) {
            Some(aend) => if aend >= pos + 3 {
                if tok_at(toks, aend) != Token::RParen {
                    None
                } else if tok_at(toks, aend + 1) == Token::Arrow {
                    if is_type_token(tok_at(toks, aend + 2)) {
                        block_end(toks, aend + 3)
                    } else {
                        None
                    }
                } else {
                    block_end(toks, aend + 1)
                }
            } else {
                None
            },
            None => None,
        }
    }
}

/// Where a top-level declaration ends, if one parses.
pub open spec fn decl_end(toks: Seq<TokenItem>, pos: int) -> Option<int>
    decreases toks.len() - pos, 11int,
{
    let t = tok_at(toks, pos);
    if t == Token::Fn {
        func_decl_end(toks, pos)
    } else if t == Token::Let {
        match var_decl_end(toks, pos) {
            Some(v) => if v > pos && tok_at(toks, v) == Token::Semicolon {
                Some(v + 1)
            } else {
                None
            },
            None => None,
        }
    } else {
        None
    }
}

/// Where a program ends, if it parses: declarations up to the end of the
/// stream.
pub open spec fn program_end(toks: Seq<TokenItem>, pos: int) -> Option<int>
    decreases toks.len() - pos, 12int,
{
    if pos < 0 || pos > toks.len() {
        None
    } else {
        let t = tok_at(toks, pos);
        if t == Token::Fn || t == Token::Let {
            match decl_end(toks, pos) {
                Some(d) => if d > pos && d <= toks.len() {
                    program_end(toks, d)
                } else {
                    None
                },
                None => None,
            }
        } else if t == Token::End {
            Some(pos)
        } else {
            None
        }
    }
}

/// The left operand of a binary node; any other node is its own left
/// spine end.
pub open spec fn left_child(e: Expression) -> Expression {
    match e {
        Expression::Addition(l, _) => *l,
        Expression::Subtraction(l, _) => *l,
        Expression::Multiplication(l, _) => *l,
        Expression::Division(l, _) => *l,
        Expression::Modulus(l, _) => *l,
        Expression::Equality(l, _) => *l,
        Expression::NotEq(l, _) => *l,
        Expression::LessThan(l, _) => *l,
        Expression::GreaterThan(l, _) => *l,
        Expression::LessEq(l, _) => *l,
        Expression::GreaterEq(l, _) => *l,
        Expression::And(l, _) => *l,
        Expression::Or(l, _) => *l,
        _ => e,
    }
}

/// The right operand of a binary node; any other node is returned as is.
pub open spec fn right_child(e: Expression) -> Expression {
    match e {
        Expression::Addition(_, r) => *r,
        Expression::Subtraction(_, r) => *r,
        Expression::Multiplication(_, r) => *r,
        Expression::Division(_, r) => *r,
        Expression::Modulus(_, r) => *r,
        Expression::Equality(_, r) => *r,
        Expression::NotEq(_, r) => *r,
        Expression::LessThan(_, r) => *r,
        Expression::GreaterThan(_, r) => *r,
        Expression::LessEq(_, r) => *r,
        Expression::GreaterEq(_, r) => *r,
        Expression::And(_, r) => *r,
        Expression::Or(_, r) => *r,
        _ => e,
    }
}

/// The node `k` steps down the left spine of `e`.  Precedence climbing is
/// left-associative, so the tree after an iteration is found by peeling
/// the operators of the later iterations off the top.
pub open spec fn peel_left(e: Expression, k: nat) -> Expression
    decreases k,
{
    if k == 0 {
        e
    } else {
        left_child(peel_left(e, (k - 1) as nat))
    }
}

/// How many operators precedence climbing binds from `pos` at power `rbp`.
pub open spec fn led_count(toks: Seq<TokenItem>, pos: int, rbp: int) -> nat
    decreases toks.len() - pos, 4int,
{
    if pos < 0 || pos >= toks.len() {
        0
    } else {
        let t = tok_at(toks, pos);
        if spec_bp(t) as int <= rbp {
            0
        } else {
            match expr_end(toks, pos + 1, spec_bp(t) as int) {
                Some(r2) => if r2 > pos + 1 && r2 <= toks.len() {
                    1 + led_count(toks, r2, rbp)
                } else {
                    0
                },
                None => 0,
            }
        }
    }
}

/// The expression precedence climbing returns from a parsed left operand
/// at `pos`: each operator whose power exceeds `rbp` combines, via
/// [`spec_bp`] and [`spec_led`], the tree built so far with a right
/// operand parsed at that operator's power, left-associatively.  The
/// intermediate tree of each step is recovered from the final tree by
/// [`peel_left`], so the relation is deterministic.
pub open spec fn led_rel(toks: Seq<TokenItem>, pos: int, rbp: int, left: Expression, e: Expression) -> bool
    decreases toks.len() - pos, 5int,
{
    if pos < 0 || pos > toks.len() {
        false
    } else {
        let t = tok_at(toks, pos);
        if spec_bp(t) as int <= rbp {
            e == left
        } else {
            match expr_end(toks, pos + 1, spec_bp(t) as int) {
                Some(rend) => rend > pos + 1 && rend <= toks.len() && ({
                    let node = peel_left(e, led_count(toks, rend, rbp));
                    &&& spec_led(t, left, right_child(node)) == Some(node)
                    &&& expr_rel(toks, pos + 1, spec_bp(t) as int, right_child(node))
                    &&& led_rel(toks, rend, rbp, node, e)
                }),
                None => false,
            }
        }
    }
}

/// The expression a parse with right binding power `rbp` at `pos` returns:
/// a primary, then precedence climbing from it.
pub open spec fn expr_rel(toks: Seq<TokenItem>, pos: int, rbp: int, e: Expression) -> bool
    decreases toks.len() - pos, 6int,
{
    match nud_end(toks, pos) {
        Some(m) => m > pos && m <= toks.len() && ({
            let l0 = peel_left(e, led_count(toks, m, rbp));
            &&& nud_rel(toks, pos, l0)
            &&& led_rel(toks, m, rbp, l0, e)
        }),
        None => false,
    }
}

/// Climbing leaves exactly its starting operand on the left spine.
pub proof fn lemma_led_rel_peel(toks: Seq<TokenItem>, pos: int, rbp: int, left: Expression, e: Expression)
    requires
        led_rel(toks, pos, rbp, left, e),
    ensures
        peel_left(e, led_count(toks, pos, rbp)) == left,
    decreases toks.len() - pos, 5int,
{
    let t = tok_at(toks, pos);
    if spec_bp(t) as int <= rbp {
    } else {
        match expr_end(toks, pos + 1, spec_bp(t) as int) {
            Some(rend) => {
                let node = peel_left(e, led_count(toks, rend, rbp));
                lemma_led_rel_peel(toks, rend, rbp, node, e);
                assert(led_count(toks, pos, rbp) == 1 + led_count(toks, rend, rbp));
                assert(peel_left(e, led_count(toks, pos, rbp)) == left_child(node));
            },
            None => {},
        }
    }
}

/// The expression a primary parse at `pos` returns.
pub open spec fn nud_rel(toks: Seq<TokenItem>, pos: int, e: Expression) -> bool
    decreases toks.len() - pos, 5int,
{
    if pos < 0 || pos > toks.len() {
        false
    } else {
        let t = tok_at(toks, pos);
        if t == Token::Ident || t == Token::Minus || t == Token::Int || t == Token::String || t
            == Token::True || t == Token::False {
            match e {
                Expression::Value(v) => value_rel(toks, pos, v),
                _ => false,
            }
        } else if t == Token::Not {
            match e {
                Expression::Not(inner) => expr_rel(toks, pos + 1, usize::MAX as int, *inner),
                _ => false,
            }
        } else if t == Token::LParen {
            expr_rel(toks, pos + 1, 0, e)
        } else if t == Token::LBrace {
            match e {
                Expression::Block(b) => block_rel(toks, pos, b),
                _ => false,
            }
        } else if t == Token::If {
            match e {
                Expression::If(ie) => if_rel(toks, pos, *ie),
                _ => false,
            }
        } else {
            false
        }
    }
}

/// The value a value-parse at `pos` returns, related to the tokens: the
/// literal's exact content, a variable's name, or a call's name and
/// arguments.
pub open spec fn value_rel(toks: Seq<TokenItem>, pos: int, v: Value) -> bool
    decreases toks.len() - pos, 2int,
{
    if pos < 0 || pos > toks.len() {
        false
    } else {
        let t0 = tok_at(toks, pos);
        if t0 == Token::Minus {
            let t1 = tok_at(toks, pos + 1);
            let sl = text_at(toks, pos + 1);
            if t1 == Token::Int {
                match v {
                    Value::Literal(Literal::Number(Number::Int(x))) => x as int == -1
                        * digits_val(sl),
                    _ => false,
                }
            } else {
                false
            }
        } else if t0 == Token::True {
            v == Value::Literal(Literal::Boolean(true))
        } else if t0 == Token::False {
            v == Value::Literal(Literal::Boolean(false))
        } else if t0 == Token::String {
            let sl = text_at(toks, pos);
            match v {
                Value::Literal(Literal::String(inner)) => inner@ == sl.subrange(
                    1,
                    sl.len() - 1,
                ),
                _ => false,
            }
        } else if t0 == Token::Int {
            let sl = text_at(toks, pos);
            match v {
                Value::Literal(Literal::Number(Number::Int(x))) => x as int == digits_val(sl),
                _ => false,
            }
        } else if t0 == Token::Ident {
            if tok_at(toks, pos + 1) == Token::LParen {
                match v {
                    Value::FunctionCall(f) => f.name@ == text_at(toks, pos),
                    _ => false,
                }
            } else {
                match v {
                    Value::Variable(n) => n@ == text_at(toks, pos),
                    _ => false,
                }
            }
        } else {
            false
        }
    }
}











/// The argument expressions a call's list parse returns.
pub open spec fn args_rel(toks: Seq<TokenItem>, pos: int, args: Seq<Expression>) -> bool
    decreases toks.len() - pos, 8int,
{
    if pos < 0 || pos > toks.len() {
        false
    } else if tok_at(toks, pos) == Token::RParen {
        args.len() == 0
    } else {
        match expr_end(toks, pos, 0) {
            Some(e) => e > pos && e <= toks.len() && args.len() >= 1 && expr_rel(
                toks,
                pos,
                0,
                args[0],
            ) && args_rest_rel(toks, e, args, 1),
            None => false,
        }
    }
}

/// The remaining argument expressions after the first, element `k` onward,
/// each preceded by a comma.
pub open spec fn args_rest_rel(toks: Seq<TokenItem>, pos: int, args: Seq<Expression>, k: int) -> bool
    decreases toks.len() - pos, 9int,
{
    if pos < 0 || pos > toks.len() {
        false
    } else if tok_at(toks, pos) == Token::RParen {
        k == args.len()
    } else if tok_at(toks, pos) == Token::Comma {
        match expr_end(toks, pos + 1, 0) {
            Some(e) => e > pos + 1 && e <= toks.len() && 0 <= k < args.len() && expr_rel(
                toks,
                pos + 1,
                0,
                args[k],
            ) && args_rest_rel(toks, e, args, k + 1),
            None => false,
        }
    } else {
        false
    }
}

/// The block a block parse at `pos` returns.
pub open spec fn block_rel(toks: Seq<TokenItem>, pos: int, b: Block) -> bool
    decreases toks.len() - pos, 4int,
{
    tok_at(toks, pos) == Token::LBrace && stmts_rel(toks, pos + 1, b.0@, 0)
}

/// The statements a block-content parse returns, element `k` onward; the
/// list ends exactly at the closing brace.
pub open spec fn stmts_rel(toks: Seq<TokenItem>, pos: int, stmts: Seq<Statement>, k: int) -> bool
    decreases toks.len() - pos, 8int,
{
    if pos < 0 || pos > toks.len() {
        false
    } else {
        match statement_end(toks, pos) {
            Some(send) => send >= pos && send < toks.len() && 0 <= k < stmts.len()
                && statement_rel(toks, pos, stmts[k]) && (if tok_at(toks, send)
                == Token::Semicolon {
                stmts_rel(toks, send + 1, stmts, k + 1)
            } else if tok_at(toks, send) == Token::RBrace {
                k == stmts.len() - 1
            } else {
                false
            }),
            None => false,
        }
    }
}

/// The statement a statement parse at `pos` returns.
pub open spec fn statement_rel(toks: Seq<TokenItem>, pos: int, s: Statement) -> bool
    decreases toks.len() - pos, 7int,
{
    let t = tok_at(toks, pos);
    if t == Token::Let {
        match s {
            Statement::VarDecl(v) => var_decl_rel(toks, pos, v),
            _ => false,
        }
    } else if t == Token::LBrace || t == Token::LParen || t == Token::Minus || t == Token::Ident
        || t == Token::Int || t == Token::String || t == Token::If || t == Token::Not || t
        == Token::True || t == Token::False {
        match s {
            Statement::Expression(e) => expr_rel(toks, pos, 0, e),
            _ => false,
        }
    } else if t == Token::RBrace {
        s == Statement::Empty
    } else {
        false
    }
}

/// The declaration a variable-declaration parse at `pos` returns.
pub open spec fn var_decl_rel(toks: Seq<TokenItem>, pos: int, v: VarDecl) -> bool
    decreases toks.len() - pos, 3int,
{
    tok_at(toks, pos) == Token::Let && tok_at(toks, pos + 1) == Token::Ident && tok_at(
        toks,
        pos + 2,
    ) == Token::Equal && v.identifier@ == text_at(toks, pos + 1) && expr_rel(
        toks,
        pos + 3,
        0,
        v.expression,
    )
}

/// The if-expression an if parse at `pos` returns, else chain included; a
/// missing else part is the empty one.
pub open spec fn if_rel(toks: Seq<TokenItem>, pos: int, ie: IfExpression) -> bool
    decreases toks.len() - pos, 4int,
{
    if pos < 0 || pos > toks.len() || tok_at(toks, pos) != Token::If {
        false
    } else {
        match expr_end(toks, pos + 1, 0) {
            Some(cend) => cend > pos + 1 && cend <= toks.len() && expr_rel(
                toks,
                pos + 1,
                0,
                ie.condition,
            ) && (match block_end(toks, cend) {
                Some(bend) => bend > cend && block_rel(toks, cend, ie.body) && (if tok_at(
                    toks,
                    bend,
                ) == Token::Else {
                    if tok_at(toks, bend + 1) == Token::LBrace {
                        match ie.else_expression {
                            ElseExpression::Block(b) => block_rel(toks, bend + 1, b),
                            _ => false,
                        }
                    } else if tok_at(toks, bend + 1) == Token::If {
                        bend + 1 <= toks.len() && (match ie.else_expression {
                            ElseExpression::IfExpression(inner) => if_rel(
                                toks,
                                bend + 1,
                                *inner,
                            ),
                            _ => false,
                        })
                    } else {
                        false
                    }
                } else {
                    ie.else_expression is Empty
                }),
                None => false,
            }),
            None => false,
        }
    }
}

/// The type a type name denotes, given its token and text.
pub open spec fn type_rel(t: Token, txt: Seq<char>, ty: Type) -> bool {
    match t {
        Token::IntType => ty == Type::Int,
        Token::FloatType => ty == Type::Float,
        Token::DoubleType => ty == Type::Double,
        Token::BooleanType => ty == Type::Boolean,
        Token::VoidType => ty == Type::Void,
        Token::Ident => match ty {
            Type::UserDefined(n) => n@ == txt,
            _ => false,
        },
        _ => false,
    }
}

/// The argument declarations a declaration-list parse returns, element `k`
/// onward: `name: type` pairs in source order.
pub open spec fn params_rel(toks: Seq<TokenItem>, pos: int, args: Seq<ArgDecl>, k: int) -> bool
    decreases toks.len() - pos, 10int,
{
    if pos < 0 || pos > toks.len() {
        false
    } else if tok_at(toks, pos) != Token::Ident {
        k == args.len()
    } else if tok_at(toks, pos + 1) != Token::Colon || !is_type_token(tok_at(toks, pos + 2)) {
        false
    } else {
        &&& 0 <= k < args.len()
        &&& args[k].name@ == text_at(toks, pos)
        &&& type_rel(tok_at(toks, pos + 2), text_at(toks, pos + 2), args[k].arg_type)
        &&& (if tok_at(toks, pos + 3) == Token::Comma {
            pos + 4 <= toks.len() && params_rel(toks, pos + 4, args, k + 1)
        } else {
            k == args.len() - 1
        })
    }
}

/// The function declaration a parse at `pos` returns: name, arguments,
/// return type (void when no arrow is written), and body.
pub open spec fn func_decl_rel(toks: Seq<TokenItem>, pos: int, f: FuncDecl) -> bool
    decreases toks.len() - pos, 11int,
{
    if pos < 0 || pos > toks.len() || tok_at(toks, pos) != Token::Fn || tok_at(toks, pos + 1)
        != Token::Ident || tok_at(toks, pos + 2) != Token::LParen {
        false
    } else {
        &&& f.name@ == text_at(toks, pos + 1)
        &&& params_rel(toks, pos + 3, f.args@, 0)
        &&& (match params_end(toks, pos + 3) {
            Some(aend) => aend >= pos + 3 && tok_at(toks, aend) == Token::RParen && (if tok_at(
                toks,
                aend + 1,
            ) == Token::Arrow {
                is_type_token(tok_at(toks, aend + 2)) && type_rel(
                    tok_at(toks, aend + 2),
                    text_at(toks, aend + 2),
                    f.return_type,
                ) && block_rel(toks, aend + 3, f.body)
            } else {
                f.return_type == Type::Void && block_rel(toks, aend + 1, f.body)
            }),
            None => false,
        })
    }
}

/// The top-level declaration a parse at `pos` returns.
pub open spec fn decl_rel(toks: Seq<TokenItem>, pos: int, d: Decl) -> bool
    decreases toks.len() - pos, 12int,
{
    let t = tok_at(toks, pos);
    if t == Token::Fn {
        match d {
            Decl::FuncDecl(f) => func_decl_rel(toks, pos, f),
            _ => false,
        }
    } else if t == Token::Let {
        match d {
            Decl::VarDecl(v) => var_decl_rel(toks, pos, v),
            _ => false,
        }
    } else {
        false
    }
}

/// The program a parse at `pos` returns: its declarations in order, ending
/// at the end of the stream.
pub open spec fn program_rel(toks: Seq<TokenItem>, pos: int, p: Program) -> bool
    decreases toks.len() - pos, 13int,
{
    if pos < 0 || pos > toks.len() {
        false
    } else {
        let t = tok_at(toks, pos);
        if t == Token::Fn || t == Token::Let {
            match p {
                Program::Decl(d, rest) => decl_rel(toks, pos, d) && (match decl_end(toks, pos) {
                    Some(dn) => dn > pos && dn <= toks.len() && program_rel(toks, dn, *rest),
                    None => false,
                }),
                _ => false,
            }
        } else if t == Token::End {
            p == Program::Empty
        } else {
            false
        }
    }
}

/// The parser over a fixed token list, with one token of lookahead and the
/// last-consumed token's text and position for diagnostics.
pub struct Parser {
    /// The token stream being consumed.
    pub tokens: Vec<TokenItem>,
    /// Index of the next unconsumed token.
    pub pos: usize,
    /// (line, column) of the last consumed token.
    pub range: (usize, usize),
    /// Text of the last consumed token.
    pub slice: String,
    /// Converts byte offsets to (line, column) pairs.
    pub range_converter: RangeConverter,
}

impl Parser {
    /// The parser state the sub-parsers maintain: the position is inside
    /// the stream and the machine can index one past every span.
    pub open spec fn wf(&self) -> bool {
        &&& self.pos <= self.tokens@.len()
        &&& self.tokens@.len() < usize::MAX
        &&& self.range_converter.0@.len() < usize::MAX
        &&& forall|i: int|
            0 <= i < self.tokens@.len() ==> (#[trigger] self.tokens@[i]).start < usize::MAX
    }

    /// The token the parser sees next, `End` past the end of the stream.
    pub open spec fn peek_spec(&self) -> Token {
        if self.pos < self.tokens@.len() {
            self.tokens@[self.pos as int].token
        } else {
            Token::End
        }
    }

    /// The parts of the parser a sub-parser never changes.
    pub open spec fn frame(pre: Parser, post: Parser) -> bool {
        &&& post.tokens@ == pre.tokens@
        &&& post.range_converter.0@ == pre.range_converter.0@
        &&& pre.pos <= post.pos
    }

    /// Creates a parser over a token list.
    pub fn new(tokens: Vec<TokenItem>, range_converter: RangeConverter) -> (r: Parser)
        ensures
            r.tokens@ == tokens@,
            r.pos == 0,
            r.range_converter.0@ == range_converter.0@,
    {
        Parser { tokens, pos: 0, range: (0, 0), slice: String::new(), range_converter }
    }

    /// Parses a whole program.
    pub fn parse(&mut self) -> (r: Output<Program>)
        requires
            old(self).wf(),
        ensures
            final(self).wf(),
            Self::frame(*old(self), *final(self)),
            old(self).peek_spec() == Token::End ==> (r matches Ok(p) && p == Program::Empty),
            (old(self).peek_spec() == Token::Fn || old(self).peek_spec() == Token::Let)
                && r is Ok ==> (r matches Ok(p) && p matches Program::Decl(_, _)),
            r is Ok ==> final(self).peek_spec() == Token::End,
            r is Ok ==> program_end(old(self).tokens@, old(self).pos as int) == Some(
                final(self).pos as int,
            ),
            r is Err ==> program_end(old(self).tokens@, old(self).pos as int) is None,
            r matches Ok(p) ==> program_rel(old(self).tokens@, old(self).pos as int, p),
            old(self).peek_spec() != Token::Fn && old(self).peek_spec() != Token::Let && old(
                self,
            ).peek_spec() != Token::End ==> (r matches Err(e) && e.expected@ == seq![
                Token::Fn,
                Token::Let,
                Token::End,
            ] && e.found == Some(old(self).peek_spec())),
    {
        self.program()
    }

    /// Parses a sequence of declarations up to the end of the stream.
    pub fn program(&mut self) -> (r: Output<Program>)
        requires
            old(self).wf(),
        ensures
            final(self).wf(),
            Self::frame(*old(self), *final(self)),
            old(self).peek_spec() == Token::End ==> (r matches Ok(p) && p == Program::Empty),
            (old(self).peek_spec() == Token::Fn || old(self).peek_spec() == Token::Let)
                && r is Ok ==> (r matches Ok(p) && p matches Program::Decl(_, _)),
            old(self).peek_spec() != Token::Fn && old(self).peek_spec() != Token::Let && old(
                self,
            ).peek_spec() != Token::End ==> (r matches Err(e) && e.expected@ == seq![
                Token::Fn,
                Token::Let,
                Token::End,
            ] && e.found == Some(old(self).peek_spec())),
            r is Ok ==> final(self).peek_spec() == Token::End,
            r is Ok ==> program_end(old(self).tokens@, old(self).pos as int) == Some(
                final(self).pos as int,
            ),
            r is Err ==> program_end(old(self).tokens@, old(self).pos as int) is None,
            r matches Ok(p) ==> program_rel(old(self).tokens@, old(self).pos as int, p),
        decreases old(self).tokens@.len() - old(self).pos, 10int,
    {
        match self.peek_token() {
            Token::Fn | Token::Let => {
                let d = match self.decl() {
                    Ok(d) => d,
                    Err(e) => {
                        return Err(e);
                    },
                };
                let rest = match self.program() {
                    Ok(p) => p,
                    Err(e) => {
                        return Err(e);
                    },
                };
                Ok(Program::Decl(d, Box::new(rest)))
            },
            Token::End => Ok(Program::Empty),
            token => Err(
                ParserError::expected(vec![Token::Fn, Token::Let, Token::End], token, self.range),
            ),
        }
    }

    /// Parses one top-level declaration.
    pub fn decl(&mut self) -> (r: Output<Decl>)
        requires
            old(self).wf(),
        ensures
            final(self).wf(),
            Self::frame(*old(self), *final(self)),
            r is Ok ==> old(self).pos < final(self).pos,
            old(self).peek_spec() == Token::Fn && r is Ok ==> (r matches Ok(d) && d matches
                Decl::FuncDecl(_)),
            old(self).peek_spec() == Token::Let && r is Ok ==> (r matches Ok(d) && d matches
                Decl::VarDecl(_)),
            old(self).peek_spec() != Token::Fn && old(self).peek_spec() != Token::Let ==> (r
                matches Err(e) && e.expected@ == seq![Token::Fn, Token::Let] && e.found == Some(
                old(self).peek_spec(),
            )),
            r is Ok ==> decl_end(old(self).tokens@, old(self).pos as int) == Some(
                final(self).pos as int,
            ),
            r is Err ==> decl_end(old(self).tokens@, old(self).pos as int) is None,
            r matches Ok(d) ==> decl_rel(old(self).tokens@, old(self).pos as int, d),
        decreases old(self).tokens@.len() - old(self).pos, 9int,
    {
        match self.peek_token() {
            Token::Fn => {
                match self.func_decl() {
                    Ok(f) => Ok(Decl::FuncDecl(f)),
                    Err(e) => Err(e),
                }
            },
            Token::Let => {
                let v = match self.var_decl() {
                    Ok(v) => v,
                    Err(e) => {
                        return Err(e);
                    },
                };
                match self.expect_token(Token::Semicolon) {
                    Ok(_) => {},
                    Err(e) => {
                        return Err(e);
                    },
                }
                Ok(Decl::VarDecl(v))
            },
            token => Err(ParserError::expected(vec![Token::Fn, Token::Let], token, self.range)),
        }
    }

    /// Parses a function declaration: `fn name(args) [-> type] block`.
    pub fn func_decl(&mut self) -> (r: Output<FuncDecl>)
        requires
            old(self).wf(),
        ensures
            final(self).wf(),
            Self::frame(*old(self), *final(self)),
            r is Ok ==> old(self).pos < final(self).pos,
            old(self).peek_spec() != Token::Fn ==> r is Err,
            r is Ok ==> old(self).pos + 1 < old(self).tokens@.len() && old(self).tokens@[old(
                self,
            ).pos + 1].token == Token::Ident && (r matches Ok(f) && f.name@ == old(
                self,
            ).tokens@[old(self).pos + 1].text@),
            r is Ok ==> func_decl_end(old(self).tokens@, old(self).pos as int) == Some(
                final(self).pos as int,
            ),
            r is Err ==> func_decl_end(old(self).tokens@, old(self).pos as int) is None,
            r matches Ok(f) ==> func_decl_rel(old(self).tokens@, old(self).pos as int, f),
        decreases old(self).tokens@.len() - old(self).pos, 8int,
    {
        match self.expect_token(Token::Fn) {
            Ok(_) => {},
            Err(e) => {
                return Err(e);
            },
        }
        match self.expect_token(Token::Ident) {
            Ok(_) => {},
            Err(e) => {
                return Err(e);
            },
        }
        let name = self.slice.clone();
        match self.expect_token(Token::LParen) {
            Ok(_) => {},
            Err(e) => {
                return Err(e);
            },
        }
        let args = match self.arg_decls() {
            Ok(a) => a,
            Err(e) => {
                return Err(e);
            },
        };
        match self.expect_token(Token::RParen) {
            Ok(_) => {},
            Err(e) => {
                return Err(e);
            },
        }
        let return_type = if let Token::Arrow = self.peek_token() {
            self.next_token();
            match self.type_decl() {
                Ok(t) => t,
                Err(e) => {
                    return Err(e);
                },
            }
        } else {
            Type::Void
        };
        let body = match self.block() {
            Ok(b) => b,
            Err(e) => {
                return Err(e);
            },
        };
        Ok(FuncDecl::new(name.as_str(), args, return_type, body))
    }

    /// Parses a comma-separated list of `name: type` argument declarations,
    /// possibly empty.
    pub fn arg_decls(&mut self) -> (r: Output<Vec<ArgDecl>>)
        requires
            old(self).wf(),
        ensures
            final(self).wf(),
            Self::frame(*old(self), *final(self)),
            r is Ok ==> params_end(old(self).tokens@, old(self).pos as int) == Some(
                final(self).pos as int,
            ),
            r is Err ==> params_end(old(self).tokens@, old(self).pos as int) is None,
            r matches Ok(list) ==> params_rel(old(self).tokens@, old(self).pos as int, list@, 0),
        decreases old(self).tokens@.len() - old(self).pos, 1int,
    {
        let mut list: Vec<ArgDecl> = Vec::new();
        loop
            invariant_except_break
                self.wf(),
                Self::frame(*old(self), *self),
                params_end(self.tokens@, self.pos as int) == params_end(
                    old(self).tokens@,
                    old(self).pos as int,
                ),
                forall|full: Seq<ArgDecl>|
                    full.len() >= list@.len() && full.subrange(0, list@.len() as int) == list@
                        && params_rel(self.tokens@, self.pos as int, full, list@.len() as int)
                        ==> params_rel(self.tokens@, old(self).pos as int, full, 0),
            ensures
                self.wf(),
                Self::frame(*old(self), *self),
                params_end(old(self).tokens@, old(self).pos as int) == Some(self.pos as int),
                params_rel(old(self).tokens@, old(self).pos as int, list@, 0),
            decreases self.tokens@.len() - self.pos,
        {
            let ghost cur = self.pos as int;
            let ghost list_pre = list@;
            match self.peek_token() {
                Token::Ident => {},
                _ => {
                    proof {
                        assert(params_rel(
                            self.tokens@,
                            self.pos as int,
                            list@,
                            list@.len() as int,
                        ));
                        assert(list@.subrange(0, list@.len() as int) =~= list@);
                    }
                    break;
                },
            }
            self.next_token();
            let name = self.slice.clone();
            match self.expect_token(Token::Colon) {
                Ok(_) => {},
                Err(e) => {
                    return Err(e);
                },
            }
            let arg_type = match self.type_decl() {
                Ok(t) => t,
                Err(e) => {
                    return Err(e);
                },
            };
            list.push(ArgDecl::new(name.as_str(), arg_type));
            match self.peek_token() {
                Token::Comma => {
                    self.next_token();
                    proof {
                        assert forall|full: Seq<ArgDecl>|
                            full.len() >= list@.len() && full.subrange(0, list@.len() as int)
                                == list@ && params_rel(
                                self.tokens@,
                                self.pos as int,
                                full,
                                list@.len() as int,
                            ) implies params_rel(self.tokens@, old(self).pos as int, full, 0) by {
                            let k0 = list_pre.len() as int;
                            assert(full[k0] == list@[k0]);
                            assert(full.subrange(0, k0) =~= list_pre);
                            assert(params_rel(self.tokens@, cur, full, k0));
                        }
                    }
                },
                _ => {
                    proof {
                        let k0 = list_pre.len() as int;
                        assert(list@[k0].name@ == self.tokens@[cur].text@);
                        assert(list@.subrange(0, k0) =~= list_pre);
                        assert(params_rel(self.tokens@, cur, list@, k0));
                        assert(list@.subrange(0, list@.len() as int) =~= list@);
                    }
                    break;
                },
            }
        }
        Ok(list)
    }

    /// Parses one type name.  Exactly the type tokens and identifiers are
    /// accepted; an identifier becomes a user-defined type of that name.
    pub fn type_decl(&mut self) -> (r: Output<Type>)
        requires
            old(self).wf(),
        ensures
            final(self).wf(),
            Self::frame(*old(self), *final(self)),
            ({
                let t = old(self).peek_spec();
                &&& (r is Ok <==> (t == Token::IntType || t == Token::FloatType || t
                    == Token::DoubleType || t == Token::BooleanType || t == Token::VoidType || t
                    == Token::Ident))
                &&& (r is Ok ==> final(self).pos == old(self).pos + 1)
                &&& (t == Token::IntType ==> r == Ok::<Type, ParserError>(Type::Int))
                &&& (t == Token::FloatType ==> r == Ok::<Type, ParserError>(Type::Float))
                &&& (t == Token::DoubleType ==> r == Ok::<Type, ParserError>(Type::Double))
                &&& (t == Token::BooleanType ==> r == Ok::<Type, ParserError>(Type::Boolean))
                &&& (t == Token::VoidType ==> r == Ok::<Type, ParserError>(Type::Void))
                &&& (t == Token::Ident ==> (match r {
                    Ok(Type::UserDefined(n)) => n@ == old(self).tokens@[old(self).pos as int].text@,
                    _ => false,
                }))
                &&& (r matches Err(e) ==> (e.expected@ == seq![
                    Token::IntType,
                    Token::FloatType,
                    Token::DoubleType,
                    Token::BooleanType,
                    Token::VoidType,
                    Token::Ident,
                ] && e.found == Some(t) && e.code == crate::errors::ParserErrorCode::E0002))
            }),
        decreases old(self).tokens@.len() - old(self).pos, 0int,
    {
        let token = self.next_token();
        match token {
            Token::IntType => Ok(Type::Int),
            Token::FloatType => Ok(Type::Float),
            Token::DoubleType => Ok(Type::Double),
            Token::BooleanType => Ok(Type::Boolean),
            Token::VoidType => Ok(Type::Void),
            Token::Ident => Ok(Type::UserDefined(self.slice.clone())),
            token => Err(
                ParserError::expected(
                    vec![
                        Token::IntType,
                        Token::FloatType,
                        Token::DoubleType,
                        Token::BooleanType,
                        Token::VoidType,
                        Token::Ident,
                    ],
                    token,
                    self.range,
                ),
            ),
        }
    }

    /// Parses a brace-delimited block of statements separated by `;`.
    pub fn block(&mut self) -> (r: Output<Block>)
        requires
            old(self).wf(),
        ensures
            final(self).wf(),
            Self::frame(*old(self), *final(self)),
            r is Ok ==> old(self).pos < final(self).pos,
            old(self).peek_spec() != Token::LBrace ==> r is Err,
            r matches Ok(b) ==> b.0@.len() >= 1,
            r is Ok ==> block_end(old(self).tokens@, old(self).pos as int) == Some(
                final(self).pos as int,
            ),
            r is Err ==> block_end(old(self).tokens@, old(self).pos as int) is None,
            r matches Ok(b) ==> block_rel(old(self).tokens@, old(self).pos as int, b),
        decreases old(self).tokens@.len() - old(self).pos, 4int,
    {
        match self.expect_token(Token::LBrace) {
            Ok(_) => {},
            Err(e) => {
                return Err(e);
            },
        }
        let mut statements: Vec<Statement> = Vec::new();
        let ghost blk_start = self.pos as int;
        loop
            invariant_except_break
                self.wf(),
                Self::frame(*old(self), *self),
                old(self).pos < self.pos,
                blk_start == old(self).pos + 1,
                stmts_end(self.tokens@, self.pos as int) == block_end(
                    old(self).tokens@,
                    old(self).pos as int,
                ),
                forall|full: Seq<Statement>|
                    full.len() >= statements@.len() && full.subrange(
                        0,
                        statements@.len() as int,
                    ) == statements@ && stmts_rel(
                        self.tokens@,
                        self.pos as int,
                        full,
                        statements@.len() as int,
                    ) ==> stmts_rel(self.tokens@, blk_start, full, 0),
            ensures
                self.wf(),
                Self::frame(*old(self), *self),
                old(self).pos < self.pos,
                statements@.len() >= 1,
                block_end(old(self).tokens@, old(self).pos as int) == Some(self.pos as int),
                stmts_rel(self.tokens@, blk_start, statements@, 0),
            decreases self.tokens@.len() - self.pos,
        {
            let ghost cur = self.pos as int;
            let ghost stmts_pre = statements@;
            let st = match self.statement() {
                Ok(s) => s,
                Err(e) => {
                    return Err(e);
                },
            };
            statements.push(st);
            match self.next_token() {
                Token::Semicolon => {
                    proof {
                        assert forall|full: Seq<Statement>|
                            full.len() >= statements@.len() && full.subrange(
                                0,
                                statements@.len() as int,
                            ) == statements@ && stmts_rel(
                                self.tokens@,
                                self.pos as int,
                                full,
                                statements@.len() as int,
                            ) implies stmts_rel(self.tokens@, blk_start, full, 0) by {
                            let k0 = stmts_pre.len() as int;
                            assert(full[k0] == statements@[k0]);
                            assert(full[k0] == st);
                            assert(full.subrange(0, k0) =~= stmts_pre);
                            assert(stmts_rel(self.tokens@, cur, full, k0));
                        }
                    }
                },
                Token::RBrace => {
                    proof {
                        let k0 = stmts_pre.len() as int;
                        assert(statements@[k0] == st);
                        assert(statements@.subrange(0, k0) =~= stmts_pre);
                        assert(stmts_rel(self.tokens@, cur, statements@, k0));
                        assert(statements@.subrange(0, statements@.len() as int)
                            =~= statements@);
                    }
                    break;
                },
                token => {
                    let mut msg = "Expected ; or }, found: ".to_owned();
                    msg.append(token.text().as_str());
                    msg.append(" (");
                    msg.append(self.slice.as_str());
                    msg.append(")");
                    return Err(ParserError::error(msg.as_str(), self.range));
                },
            }
        }
        Ok(Block::new(statements))
    }

    /// Parses one statement: a variable declaration, an expression, or the
    /// empty statement before a closing brace.
    pub fn statement(&mut self) -> (r: Output<Statement>)
        requires
            old(self).wf(),
        ensures
            final(self).wf(),
            Self::frame(*old(self), *final(self)),
            r is Ok ==> (old(self).pos < final(self).pos || (final(self).pos == old(self).pos
                && old(self).peek_spec() == Token::RBrace)),
            old(self).peek_spec() == Token::RBrace ==> (r matches Ok(st) && st
                == Statement::Empty && final(self).pos == old(self).pos),
            old(self).peek_spec() == Token::Let && r is Ok ==> (r matches Ok(st) && st matches
                Statement::VarDecl(_)),
            r is Ok ==> statement_end(old(self).tokens@, old(self).pos as int) == Some(
                final(self).pos as int,
            ),
            r is Err ==> statement_end(old(self).tokens@, old(self).pos as int) is None,
            r matches Ok(st) ==> statement_rel(old(self).tokens@, old(self).pos as int, st),
        decreases old(self).tokens@.len() - old(self).pos, 7int,
    {
        match self.peek_token() {
            Token::Let => {
                match self.var_decl() {
                    Ok(v) => Ok(Statement::VarDecl(v)),
                    Err(e) => Err(e),
                }
            },
            Token::LBrace | Token::LParen | Token::Minus | Token::Ident | Token::Int
                | Token::String | Token::If | Token::Not | Token::True | Token::False => {
                match self.expression(0) {
                    Ok(e) => Ok(Statement::Expression(e)),
                    Err(e) => Err(e),
                }
            },
            Token::RBrace => Ok(Statement::Empty),
            _ => Err(ParserError::error("Unsupported token.", self.range)),
        }
    }

    /// Parses an identifier and returns its text.
    pub fn identifier(&mut self) -> (r: Output<String>)
        requires
            old(self).wf(),
        ensures
            final(self).wf(),
            Self::frame(*old(self), *final(self)),
            r is Ok <==> old(self).peek_spec() == Token::Ident,
            r is Ok ==> final(self).pos == old(self).pos + 1,
            match r {
                Ok(n) => n@ == old(self).tokens@[old(self).pos as int].text@,
                Err(_) => true,
            },
        decreases old(self).tokens@.len() - old(self).pos, 0int,
    {
        match self.expect_token(Token::Ident) {
            Ok(_) => {},
            Err(e) => {
                return Err(e);
            },
        }
        Ok(self.slice.clone())
    }

    /// Parses a variable declaration: `let name = expression`.
    pub fn var_decl(&mut self) -> (r: Output<VarDecl>)
        requires
            old(self).wf(),
        ensures
            final(self).wf(),
            Self::frame(*old(self), *final(self)),
            r is Ok ==> old(self).pos < final(self).pos,
            old(self).peek_spec() != Token::Let ==> r is Err,
            r is Ok ==> old(self).pos + 1 < old(self).tokens@.len() && old(self).tokens@[old(
                self,
            ).pos + 1].token == Token::Ident && (r matches Ok(v) && v.identifier@ == old(
                self,
            ).tokens@[old(self).pos + 1].text@),
            r is Ok ==> var_decl_end(old(self).tokens@, old(self).pos as int) == Some(
                final(self).pos as int,
            ),
            r is Err ==> var_decl_end(old(self).tokens@, old(self).pos as int) is None,
            r matches Ok(v) ==> var_decl_rel(old(self).tokens@, old(self).pos as int, v),
        decreases old(self).tokens@.len() - old(self).pos, 3int,
    {
        match self.expect_token(Token::Let) {
            Ok(_) => {},
            Err(e) => {
                return Err(e);
            },
        }
        let identifier = match self.identifier() {
            Ok(i) => i,
            Err(e) => {
                return Err(e);
            },
        };
        match self.expect_token(Token::Equal) {
            Ok(_) => {},
            Err(e) => {
                return Err(e);
            },
        }
        let expression = match self.expression(0) {
            Ok(x) => x,
            Err(e) => {
                return Err(e);
            },
        };
        Ok(VarDecl::new(identifier, expression))
    }

    /// Parses an expression by precedence climbing.  `rbp` is the right
    /// binding power: operators bind only while their power exceeds it.
    pub fn expression(&mut self, rbp: usize) -> (r: Output<Expression>)
        requires
            old(self).wf(),
        ensures
            final(self).wf(),
            Self::frame(*old(self), *final(self)),
            r is Ok ==> old(self).pos < final(self).pos,
            r is Ok ==> crate::ast::spec_bp(final(self).peek_spec()) <= rbp,
            r is Ok ==> expr_end(old(self).tokens@, old(self).pos as int, rbp as int) == Some(
                final(self).pos as int,
            ),
            r is Err ==> expr_end(old(self).tokens@, old(self).pos as int, rbp as int) is None,
            r matches Ok(e) ==> expr_rel(old(self).tokens@, old(self).pos as int, rbp as int, e),
        decreases old(self).tokens@.len() - old(self).pos, 6int,
    {
        let mut left = match Expression::nud(self) {
            Ok(l) => l,
            Err(e) => {
                return Err(e);
            },
        };
        proof {
            assert forall|e2: Expression|
                led_rel(self.tokens@, self.pos as int, rbp as int, left, e2) implies expr_rel(
                old(self).tokens@,
                old(self).pos as int,
                rbp as int,
                e2,
            ) by {
                lemma_led_rel_peel(self.tokens@, self.pos as int, rbp as int, left, e2);
            }
        }
        let mut token = self.peek_token();
        if token == Token::End {
            proof {
                assert(led_end(self.tokens@, self.pos as int, rbp as int) == Some(
                    self.pos as int,
                ));
                assert(led_rel(self.tokens@, self.pos as int, rbp as int, left, left));
            }
            return Ok(left);
        }
        loop
            invariant_except_break
                self.wf(),
                Self::frame(*old(self), *self),
                old(self).pos < self.pos,
                token == self.peek_spec(),
                led_end(self.tokens@, self.pos as int, rbp as int) == expr_end(
                    old(self).tokens@,
                    old(self).pos as int,
                    rbp as int,
                ),
                forall|e2: Expression|
                    led_rel(self.tokens@, self.pos as int, rbp as int, left, e2) ==> expr_rel(
                        old(self).tokens@,
                        old(self).pos as int,
                        rbp as int,
                        e2,
                    ),
            ensures
                self.wf(),
                Self::frame(*old(self), *self),
                old(self).pos < self.pos,
                crate::ast::spec_bp(self.peek_spec()) <= rbp,
                expr_end(old(self).tokens@, old(self).pos as int, rbp as int) == Some(
                    self.pos as int,
                ),
                expr_rel(old(self).tokens@, old(self).pos as int, rbp as int, left),
            decreases self.tokens@.len() - self.pos,
        {
            if !(Expression::bp(token) > rbp) {
                proof {
                    assert(led_rel(self.tokens@, self.pos as int, rbp as int, left, left));
                }
                break;
            }
            let ghost op_pos = self.pos as int;
            self.next_token();
            let right = match self.expression(Expression::bp(token)) {
                Ok(r) => r,
                Err(e) => {
                    return Err(e);
                },
            };
            let ghost old_left = left;
            left = match Expression::led(left, token, right) {
                Ok(l) => l,
                Err(e) => {
                    return Err(e);
                },
            };
            proof {
                assert forall|e2: Expression|
                    led_rel(self.tokens@, self.pos as int, rbp as int, left, e2) implies
                    expr_rel(old(self).tokens@, old(self).pos as int, rbp as int, e2) by {
                    lemma_led_rel_peel(self.tokens@, self.pos as int, rbp as int, left, e2);
                    assert(peel_left(
                        e2,
                        led_count(self.tokens@, self.pos as int, rbp as int),
                    ) == left);
                    assert(right_child(left) == right);
                    assert(spec_led(token, old_left, right_child(left)) == Some(left));
                    assert(led_rel(self.tokens@, op_pos, rbp as int, old_left, e2));
                }
            }
            token = self.peek_token();
            if token == Token::End {
                proof {
                    assert(led_end(self.tokens@, self.pos as int, rbp as int) == Some(
                        self.pos as int,
                    ));
                    assert(led_rel(self.tokens@, self.pos as int, rbp as int, left, left));
                }
                return Ok(left);
            }
        }
        Ok(left)
    }

    /// Parses an if-expression, with optional `else` block or else-if chain.
    pub fn if_expression(&mut self) -> (r: Output<IfExpression>)
        requires
            old(self).wf(),
        ensures
            final(self).wf(),
            Self::frame(*old(self), *final(self)),
            r is Ok ==> old(self).pos < final(self).pos,
            old(self).peek_spec() != Token::If ==> r is Err,
            r is Ok ==> if_end(old(self).tokens@, old(self).pos as int) == Some(
                final(self).pos as int,
            ),
            r is Err ==> if_end(old(self).tokens@, old(self).pos as int) is None,
            r matches Ok(ie) ==> if_rel(old(self).tokens@, old(self).pos as int, ie),
        decreases old(self).tokens@.len() - old(self).pos, 4int,
    {
        match self.expect_token(Token::If) {
            Ok(_) => {},
            Err(e) => {
                return Err(e);
            },
        }
        let condition = match self.expression(0) {
            Ok(c) => c,
            Err(e) => {
                return Err(e);
            },
        };
        let body = match self.block() {
            Ok(b) => b,
            Err(e) => {
                return Err(e);
            },
        };
        let mut else_expression = ElseExpression::Empty;
        if let Token::Else = self.peek_token() {
            match self.expect_token(Token::Else) {
                Ok(_) => {},
                Err(e) => {
                    return Err(e);
                },
            }
            else_expression = match self.peek_token() {
                Token::LBrace => {
                    match self.block() {
                        Ok(b) => ElseExpression::Block(b),
                        Err(e) => {
                            return Err(e);
                        },
                    }
                },
                Token::If => {
                    match self.if_expression() {
                        Ok(i) => ElseExpression::IfExpression(Box::new(i)),
                        Err(e) => {
                            return Err(e);
                        },
                    }
                },
                token => {
                    return Err(
                        ParserError::expected(vec![Token::LBrace, Token::If], token, self.range),
                    );
                },
            };
        }
        Ok(IfExpression::new(condition, body, else_expression))
    }

    /// Parses a value: a literal, a variable reference, or a function call
    /// with a parenthesized argument list.
    pub fn value(&mut self) -> (r: Output<Value>)
        requires
            old(self).wf(),
        ensures
            final(self).wf(),
            Self::frame(*old(self), *final(self)),
            r is Ok ==> old(self).pos < final(self).pos,
            ({
                let t0 = old(self).peek_spec();
                let txt = if old(self).pos < old(self).tokens@.len() {
                    old(self).tokens@[old(self).pos as int].text@
                } else {
                    "EOF"@
                };
                let t1 = if old(self).pos + 1 < old(self).tokens@.len() {
                    old(self).tokens@[old(self).pos + 1].token
                } else {
                    Token::End
                };
                &&& (t0 == Token::True ==> r == Ok::<Value, ParserError>(
                    Value::Literal(Literal::Boolean(true)),
                ))
                &&& (t0 == Token::False ==> r == Ok::<Value, ParserError>(
                    Value::Literal(Literal::Boolean(false)),
                ))
                &&& (t0 == Token::Int ==> (match r {
                    Ok(Value::Literal(Literal::Number(Number::Int(v)))) => is_digit_seq(txt)
                        && digits_val(txt) <= i64::MAX && v as int == digits_val(txt),
                    Ok(_) => false,
                    Err(_) => !is_digit_seq(txt) || digits_val(txt) > i64::MAX,
                }))
                &&& (t0 == Token::Ident && t1 != Token::LParen ==> (r matches Ok(v) && v
                    matches Value::Variable(n) && n@ == txt))
                &&& (t0 == Token::Ident && t1 == Token::LParen && r is Ok ==> (r matches Ok(v)
                    && v matches Value::FunctionCall(f) && f.name@ == txt))
                &&& (t0 != Token::Minus && t0 != Token::Int && t0 != Token::String && t0
                    != Token::True && t0 != Token::False && t0 != Token::Ident ==> (r matches
                    Err(e) && e.expected@ == seq![
                        Token::Minus,
                        Token::Int,
                        Token::True,
                        Token::False,
                        Token::Ident,
                    ] && e.found == Some(t0)))
            }),
            r is Ok ==> value_end(old(self).tokens@, old(self).pos as int) == Some(
                final(self).pos as int,
            ),
            r is Err ==> value_end(old(self).tokens@, old(self).pos as int) is None,
            r matches Ok(v) ==> value_rel(old(self).tokens@, old(self).pos as int, v),
        decreases old(self).tokens@.len() - old(self).pos, 2int,
    {
        let token = self.next_token();
        match token {
            Token::Minus | Token::Int | Token::String | Token::True | Token::False => {
                let ghost s_lit = *self;
                match self.literal(token) {
                    Ok(l) => {
                        proof {
                            assert(token == Token::Minus ==> s_lit.pos == old(self).pos + 1);
                            assert(token == Token::Minus ==> s_lit.peek_spec() == tok_at(
                                old(self).tokens@,
                                old(self).pos + 1,
                            ));
                            assert(value_end(old(self).tokens@, old(self).pos as int) == Some(
                                self.pos as int,
                            ));
                            let toks = old(self).tokens@;
                            let p0 = old(self).pos as int;
                            assert(tok_at(toks, p0) == token);
                            assert(token == Token::Minus ==> text_at(toks, p0 + 1)
                                == (if p0 + 1 < toks.len() {
                                toks[p0 + 1].text@
                            } else {
                                "EOF"@
                            }));
                            assert(value_rel(
                                old(self).tokens@,
                                old(self).pos as int,
                                Value::Literal(l),
                            ));
                        }
                        Ok(Value::Literal(l))
                    },
                    Err(e) => {
                        proof {
                            assert(value_end(old(self).tokens@, old(self).pos as int)
                                is None);
                        }
                        Err(e)
                    },
                }
            },
            Token::Ident => {
                if let Token::LParen = self.peek_token() {
                    let identifier = self.slice.clone();
                    match self.expect_token(Token::LParen) {
                        Ok(_) => {},
                        Err(e) => {
                            return Err(e);
                        },
                    }
                    let mut arguments: Vec<Expression> = Vec::new();
                    let ghost argstart = self.pos as int;
                    if !(matches!(self.peek_token(), Token::RParen)) {
                        let first = match self.expression(0) {
                            Ok(e) => e,
                            Err(e) => {
                                return Err(e);
                            },
                        };
                        arguments.push(first);
                        let ghost rest0 = self.pos as int;
                        loop
                            invariant_except_break
                                self.wf(),
                                Self::frame(*old(self), *self),
                                old(self).pos < self.pos,
                                old(self).peek_spec() == Token::Ident,
                                tok_at(old(self).tokens@, old(self).pos + 1) == Token::LParen,
                                args_rest_end(self.tokens@, self.pos as int) == value_end(
                                    old(self).tokens@,
                                    old(self).pos as int,
                                ),
                                arguments@.len() >= 1,
                                tok_at(self.tokens@, argstart) != Token::RParen,
                                expr_end(self.tokens@, argstart, 0) == Some(rest0),
                                rest0 > argstart && rest0 <= self.tokens@.len(),
                                expr_rel(self.tokens@, argstart, 0, arguments@[0]),
                                forall|full: Seq<Expression>|
                                    full.len() >= arguments@.len() && full.subrange(
                                        0,
                                        arguments@.len() as int,
                                    ) == arguments@ && args_rest_rel(
                                        self.tokens@,
                                        self.pos as int,
                                        full,
                                        arguments@.len() as int,
                                    ) ==> args_rest_rel(self.tokens@, rest0, full, 1),
                            ensures
                                self.wf(),
                                Self::frame(*old(self), *self),
                                old(self).pos < self.pos,
                                self.peek_spec() == Token::RParen,
                                value_end(old(self).tokens@, old(self).pos as int) == Some(
                                    self.pos + 1,
                                ),
                                args_rest_rel(self.tokens@, rest0, arguments@, 1),
                                tok_at(self.tokens@, argstart) != Token::RParen,
                                expr_end(self.tokens@, argstart, 0) == Some(rest0),
                                rest0 > argstart && rest0 <= self.tokens@.len(),
                                expr_rel(self.tokens@, argstart, 0, arguments@[0]),
                            decreases self.tokens@.len() - self.pos,
                        {
                            let ghost cur = self.pos as int;
                            let ghost args_pre = arguments@;
                            match self.peek_token() {
                                Token::RParen => {
                                    proof {
                                        assert(args_rest_rel(
                                            self.tokens@,
                                            self.pos as int,
                                            arguments@,
                                            arguments@.len() as int,
                                        ));
                                        assert(arguments@.subrange(
                                            0,
                                            arguments@.len() as int,
                                        ) =~= arguments@);
                                    }
                                    break;
                                },
                                Token::Comma => {
                                    self.next_token();
                                },
                                token => {
                                    return Err(
                                        ParserError::expected(
                                            vec![Token::Comma, Token::RParen],
                                            token,
                                            self.range,
                                        ),
                                    );
                                },
                            }
                            let e = match self.expression(0) {
                                Ok(e) => e,
                                Err(e) => {
                                    return Err(e);
                                },
                            };
                            arguments.push(e);
                            proof {
                                assert forall|full: Seq<Expression>|
                                    full.len() >= arguments@.len() && full.subrange(
                                        0,
                                        arguments@.len() as int,
                                    ) == arguments@ && args_rest_rel(
                                        self.tokens@,
                                        self.pos as int,
                                        full,
                                        arguments@.len() as int,
                                    ) implies args_rest_rel(self.tokens@, rest0, full, 1) by {
                                    let k0 = args_pre.len() as int;
                                    assert(full[k0] == arguments@[k0]);
                                    assert(full[k0] == e);
                                    assert(full.subrange(0, k0) =~= args_pre);
                                    assert(args_rest_rel(self.tokens@, cur, full, k0));
                                }
                            }
                        }
                        proof {
                            assert(args_rel(self.tokens@, argstart, arguments@));
                        }
                    } else {
                        proof {
                            assert(args_rel(self.tokens@, argstart, arguments@));
                        }
                    }
                    match self.expect_token(Token::RParen) {
                        Ok(_) => {},
                        Err(e) => {
                            return Err(e);
                        },
                    }
                    Ok(Value::FunctionCall(FunctionCall::new(identifier.as_str(), arguments)))
                } else {
                    Ok(Value::Variable(self.slice.clone()))
                }
            },
            token => Err(
                ParserError::expected(
                    vec![Token::Minus, Token::Int, Token::True, Token::False, Token::Ident],
                    token,
                    self.range,
                ),
            ),
        }
    }

    /// Parses a literal whose first token has already been consumed.  A
    /// leading `Minus` negates the number that must follow.
    pub fn literal(&mut self, token: Token) -> (r: Output<Literal>)
        requires
            old(self).wf(),
        ensures
            final(self).wf(),
            Self::frame(*old(self), *final(self)),
            ({
                let minus = token == Token::Minus;
                let eff = if minus {
                    old(self).peek_spec()
                } else {
                    token
                };
                let sl = if minus {
                    if old(self).pos < old(self).tokens@.len() {
                        old(self).tokens@[old(self).pos as int].text@
                    } else {
                        "EOF"@
                    }
                } else {
                    old(self).slice@
                };
                let sign: int = if minus {
                    -1
                } else {
                    1
                };
                &&& (!minus && eff == Token::True ==> r == Ok::<Literal, ParserError>(
                    Literal::Boolean(true),
                ))
                &&& (!minus && eff == Token::False ==> r == Ok::<Literal, ParserError>(
                    Literal::Boolean(false),
                ))
                &&& (eff == Token::Int ==> (match r {
                    Ok(Literal::Number(Number::Int(v))) => is_digit_seq(sl) && digits_val(sl)
                        <= i64::MAX && v as int == sign * digits_val(sl),
                    Ok(_) => false,
                    Err(_) => !is_digit_seq(sl) || digits_val(sl) > i64::MAX,
                }))
                &&& (!minus && eff == Token::String ==> (match r {
                    Ok(Literal::String(inner)) => sl.len() >= 2 && vstd::utf8::is_ascii_chars(
                        sl,
                    ) && inner@ == sl.subrange(1, sl.len() - 1),
                    Ok(_) => false,
                    Err(_) => sl.len() < 2 || !vstd::utf8::is_ascii_chars(sl),
                }))
                &&& (eff != Token::True && eff != Token::False && eff != Token::Int && eff
                    != Token::String ==> r is Err)
                &&& (minus && eff != Token::Int ==> r is Err)
                &&& (r is Ok ==> final(self).pos == old(self).pos + (if minus {
                    1int
                } else {
                    0int
                }))
            }),
        decreases old(self).tokens@.len() - old(self).pos, 1int,
    {
        let mut token = token;
        let sign: i64 = if let Token::Minus = token {
            // the optional minus belongs to the number production alone
            token = self.next_token();
            if !(matches!(token, Token::Int)) {
                return Err(ParserError::expected(vec![Token::Int], token, self.range));
            }
            -1
        } else {
            1
        };
        match token {
            Token::True => Ok(Literal::Boolean(true)),
            Token::False => Ok(Literal::Boolean(false)),
            Token::String => {
                let s = self.slice.as_str();
                let n = s.unicode_len();
                if s.is_ascii() && n >= 2 {
                    Ok(Literal::String(s.substring_ascii(1, n - 1).to_owned()))
                } else {
                    Err(ParserError::error("Malformed string literal", self.range))
                }
            },
            Token::Int => {
                proof {
                    if is_digit_seq(self.slice@) {
                        lemma_digits_val_nonneg(self.slice@);
                    }
                }
                match self.number(token, sign) {
                    Ok(n) => Ok(Literal::Number(n)),
                    Err(e) => Err(e),
                }
            },
            token => Err(
                ParserError::expected(
                    vec![Token::True, Token::False, Token::Int],
                    token,
                    self.range,
                ),
            ),
        }
    }

    /// Parses the decimal digits of the last consumed token into a signed
    /// integer.  Returns the exact value when every character is a digit
    /// and the magnitude fits; an error otherwise.
    pub fn number(&self, token: Token, sign: i64) -> (r: Output<Number>)
        requires
            sign == 1 || sign == -1,
        ensures
            match r {
                Ok(n) => {
                    &&& token == Token::Int
                    &&& is_digit_seq(self.slice@)
                    &&& digits_val(self.slice@) <= i64::MAX
                    &&& n == Number::Int((sign * digits_val(self.slice@)) as i64)
                },
                Err(_) => token != Token::Int || !is_digit_seq(self.slice@) || digits_val(
                    self.slice@,
                ) > i64::MAX,
            },
    {
        match token {
            Token::Int => {
                let s = self.slice.as_str();
                let n = s.unicode_len();
                if n == 0 {
                    return Err(ParserError::error("Empty number literal", self.range));
                }
                let mut val: u64 = 0;
                let mut i: usize = 0;
                while i < n
                    invariant
                        n == s@.len(),
                        s@ == self.slice@,
                        i <= n,
                        forall|k: int| 0 <= k < i ==> '0' <= #[trigger] s@[k] <= '9',
                        val == digits_val(s@.take(i as int)),
                        val <= i64::MAX,
                    decreases n - i,
                {
                    let c = s.get_char(i);
                    if !('0' <= c && c <= '9') {
                        return Err(
                            ParserError::error("Invalid digit in number literal", self.range),
                        );
                    }
                    let d = (c as u32 - 48) as u64;
    let limit = (9223372036854775807u64 - d) / 10;
                    if val > limit {
                        proof {
                            assert(s@.take(i + 1).drop_last() =~= s@.take(i as int));
                            assert(s@.take(i + 1).last() == s@[i as int]);
                            assert(digits_val(s@.take(i + 1)) > i64::MAX);
                            if is_digit_seq(s@) {
                                lemma_digits_val_prefix_le(s@, i + 1);
                            }
                        }
                        return Err(
                            ParserError::error("Number literal out of range", self.range),
                        );
                    }
                    proof {
                        assert(s@.take(i + 1).drop_last() =~= s@.take(i as int));
                        assert(s@.take(i + 1).last() == s@[i as int]);
                    }
                    val = val * 10 + d;
                    i = i + 1;
                }
                proof {
                    assert(s@.take(n as int) =~= s@);
                }
                if sign == 1 {
                    Ok(Number::Int(val as i64))
                } else {
                    Ok(Number::Int(-(val as i64)))
                }
            },
            token => Err(ParserError::expected(vec![Token::Int], token, self.range)),
        }
    }

    /// Consumes and returns the next token, recording its text and its
    /// (line, column) position; returns `End` at the end of the stream.
    pub fn next_token(&mut self) -> (r: Token)
        requires
            old(self).wf(),
        ensures
            final(self).wf(),
            final(self).tokens@ == old(self).tokens@,
            final(self).range_converter.0@ == old(self).range_converter.0@,
            r == old(self).peek_spec(),
            old(self).pos < old(self).tokens@.len() ==> (final(self).pos == old(self).pos + 1
                && final(self).slice@ == old(self).tokens@[old(self).pos as int].text@),
            old(self).pos < old(self).tokens@.len() ==> (match crate::lexer::first_line_containing(
                old(self).range_converter.0@,
                old(self).tokens@[old(self).pos as int].start,
            ) {
                Some(i) => final(self).range.0 == i + 1 && final(self).range.1 == old(
                    self,
                ).tokens@[old(self).pos as int].start - old(self).range_converter.0@[i].0 + 1,
                None => final(self).range.0 == 1 && final(self).range.1 == old(self).tokens@[old(
                    self,
                ).pos as int].start + 1,
            }),
            old(self).pos >= old(self).tokens@.len() ==> (final(self).pos == old(self).pos
                && final(self).slice@ == "EOF"@ && final(self).range == old(self).range),
    {
        if self.pos < self.tokens.len() {
            let token = self.tokens[self.pos].token;
            let start = self.tokens[self.pos].start;
            let end = self.tokens[self.pos].end;
            let text = self.tokens[self.pos].text.clone();
            self.range = self.range_converter.to_line_and_pos((start, end));
            self.slice = text;
            self.pos = self.pos + 1;
            token
        } else {
            self.slice = "EOF".to_owned();
            Token::End
        }
    }

    /// Returns the next token without consuming it; `End` at the end of the
    /// stream.
    pub fn peek_token(&self) -> (r: Token)
        ensures
            r == self.peek_spec(),
    {
        if self.pos < self.tokens.len() {
            self.tokens[self.pos].token
        } else {
            Token::End
        }
    }

    /// Consumes the next token and requires it to be `expected`; the token
    /// is consumed whether or not it matches.
    pub fn expect_token(&mut self, expected: Token) -> (r: Output)
        requires
            old(self).wf(),
        ensures
            final(self).wf(),
            final(self).tokens@ == old(self).tokens@,
            final(self).range_converter.0@ == old(self).range_converter.0@,
            r is Ok <==> old(self).peek_spec() == expected,
            old(self).peek_spec() != expected ==> (r matches Err(e) && e.expected@ == seq![
                expected,
            ] && e.found == Some(old(self).peek_spec())),
            old(self).pos < old(self).tokens@.len() ==> final(self).pos == old(self).pos + 1,
            old(self).pos >= old(self).tokens@.len() ==> final(self).pos == old(self).pos,
            old(self).pos < old(self).tokens@.len() ==> final(self).slice@ == old(
                self,
            ).tokens@[old(self).pos as int].text@,
    {
        let token = self.next_token();
        if expected == token {
            Ok(())
        } else {
            Err(ParserError::expected(vec![expected], token, self.range))
        }
    }

    /// Builds the error reported when no expression primary starts at the
    /// current position, pointing at the offending token.
    pub fn error_expected_value(&self) -> (r: ParserError)
        requires
            self.wf(),
    {
        if self.pos < self.tokens.len() {
            let start = self.tokens[self.pos].start;
            let end = self.tokens[self.pos].end;
            let position = self.range_converter.to_line_and_pos((start, end));
            let mut msg = "Expected: number or boolean, found: ".to_owned();
            msg.append(self.tokens[self.pos].text.as_str());
            ParserError::error(msg.as_str(), position)
        } else {
            ParserError::error("Expected: number or boolean", (0, 0))
        }
    }
}

} // verus!
