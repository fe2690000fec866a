//! A type analysis over the literal fragment of the expression grammar.
//!
//! Arithmetic demands both operands numeric and of one type; the
//! relational and logical operators, and unary not, demand boolean
//! operands.  Forms the analysis does not cover — names, calls, blocks and
//! if-expressions — are reported as errors rather than resolved.

use vstd::prelude::*;
use vstd::string::*;

use crate::ast::{spec_type_eq, Expression, Literal, Number, Type, Value};
use crate::errors::{TypeSystemError, TypeSystemErrorCode};

verus! {

/// The types arithmetic accepts.
pub open spec fn is_numeric(t: Type) -> bool {
    t is Int || t is Float || t is Double
}

/// The type of a terminal, for the literals the analysis covers.
pub open spec fn spec_value_type(v: Value) -> Option<Type> {
    match v {
        Value::Literal(Literal::Number(Number::Int(_))) => Some(Type::Int),
        Value::Literal(Literal::Boolean(_)) => Some(Type::Boolean),
        Value::Literal(Literal::String(_)) => Some(Type::String),
        _ => None,
    }
}

/// The type the analysis gives an expression; `None` where it reports an
/// error.
pub open spec fn spec_expression_type(e: Expression) -> Option<Type>
    decreases e,
{
    match e {
        Expression::Addition(l, r)
        | Expression::Subtraction(l, r)
        | Expression::Multiplication(l, r)
        | Expression::Division(l, r)
        | Expression::Modulus(l, r) => {
            match (spec_expression_type(*l), spec_expression_type(*r)) {
                (Some(lt), Some(rt)) => {
                    if is_numeric(lt) && is_numeric(rt) && spec_type_eq(lt, rt) {
                        Some(lt)
                    } else {
                        None
                    }
                },
                _ => None,
            }
        },
        Expression::Equality(l, r)
        | Expression::NotEq(l, r)
        | Expression::LessThan(l, r)
        | Expression::GreaterThan(l, r)
        | Expression::LessEq(l, r)
        | Expression::GreaterEq(l, r)
        | Expression::And(l, r)
        | Expression::Or(l, r) => {
            if spec_expression_type(*l) == Some(Type::Boolean) && spec_expression_type(*r)
                == Some(Type::Boolean) {
                Some(Type::Boolean)
            } else {
                None
            }
        },
        Expression::Not(x) => {
            if spec_expression_type(*x) == Some(Type::Boolean) {
                Some(Type::Boolean)
            } else {
                None
            }
        },
        Expression::If(_) => None,
        Expression::Block(_) => None,
        Expression::Value(v) => spec_value_type(v),
    }
}

/// The type analysis pass.
pub struct TypeSystem {}

impl TypeSystem {
    /// Analyzes one expression, returning its type exactly when
    /// [`spec_expression_type`] gives one, and an error otherwise.
    pub fn expression(&mut self, expr: &Expression) -> (r: Result<Type, TypeSystemError>)
        ensures
            match spec_expression_type(*expr) {
                Some(t) => r matches Ok(rt) && rt == t,
                None => r is Err,
            },
        decreases expr,
    {
        match expr {
            Expression::Addition(left, right)
            | Expression::Subtraction(left, right)
            | Expression::Multiplication(left, right)
            | Expression::Division(left, right)
            | Expression::Modulus(left, right) => {
                let lt = match self.expression(&**left) {
                    Ok(t) => t,
                    Err(e) => {
                        return Err(e);
                    },
                };
                if !(matches!(&lt, Type::Int | Type::Float | Type::Double)) {
                    return Err(
                        TypeSystemError::type_mismatch(
                            vec![Type::Int, Type::Float, Type::Double],
                            lt,
                        ),
                    );
                }
                let rt = match self.expression(&**right) {
                    Ok(t) => t,
                    Err(e) => {
                        return Err(e);
                    },
                };
                if !(matches!(&rt, Type::Int | Type::Float | Type::Double)) {
                    return Err(
                        TypeSystemError::type_mismatch(
                            vec![Type::Int, Type::Float, Type::Double],
                            rt,
                        ),
                    );
                }
                if lt == rt {
                    Ok(lt)
                } else {
                    let mut message = "Type mismatch. Left: ".to_owned();
                    message.append(lt.text().as_str());
                    message.append(", Right: ");
                    message.append(rt.text().as_str());
                    Err(TypeSystemError::error(message.as_str()))
                }
            },
            Expression::Equality(left, right)
            | Expression::NotEq(left, right)
            | Expression::LessThan(left, right)
            | Expression::GreaterThan(left, right)
            | Expression::LessEq(left, right)
            | Expression::GreaterEq(left, right)
            | Expression::And(left, right)
            | Expression::Or(left, right) => {
                let lt = match self.expression(&**left) {
                    Ok(t) => t,
                    Err(e) => {
                        return Err(e);
                    },
                };
                if !(matches!(&lt, Type::Boolean)) {
                    let mut message =
                        "Type mismatch left hand side. Expected boolean, found: ".to_owned();
                    message.append(lt.text().as_str());
                    return Err(TypeSystemError::error(message.as_str()));
                }
                let rt = match self.expression(&**right) {
                    Ok(t) => t,
                    Err(e) => {
                        return Err(e);
                    },
                };
                if !(matches!(&rt, Type::Boolean)) {
                    let mut message =
                        "Type mismatch right hand side. Expected boolean, found: ".to_owned();
                    message.append(rt.text().as_str());
                    return Err(TypeSystemError::error(message.as_str()));
                }
                Ok(Type::Boolean)
            },
            Expression::Not(inner) => {
                let t = match self.expression(&**inner) {
                    Ok(t) => t,
                    Err(e) => {
                        return Err(e);
                    },
                };
                if matches!(&t, Type::Boolean) {
                    Ok(Type::Boolean)
                } else {
                    let mut message = "Type mismatch. Expected boolean, found: ".to_owned();
                    message.append(t.text().as_str());
                    Err(TypeSystemError::error(message.as_str()))
                }
            },
            Expression::If(_) => Err(TypeSystemError::error("Unsupported expression form")),
            Expression::Block(_) => Err(TypeSystemError::error("Unsupported expression form")),
            Expression::Value(value) => self.value(value),
        }
    }

    /// Analyzes one terminal.
    pub fn value(&mut self, value: &Value) -> (r: Result<Type, TypeSystemError>)
        ensures
            match spec_value_type(*value) {
                Some(t) => r matches Ok(rt) && rt == t,
                None => r is Err,
            },
    {
        match value {
            Value::Literal(Literal::Number(Number::Int(_))) => Ok(Type::Int),
            Value::Literal(Literal::Boolean(_)) => Ok(Type::Boolean),
            Value::Literal(Literal::String(_)) => Ok(Type::String),
            _ => Err(TypeSystemError::error("Unsupported value form")),
        }
    }
}

} // verus!
