//! The evaluator: a tree walk over one expression, producing a
//! dynamically-tagged runtime value under the per-operator type rules.
//!
//! What evaluation yields is stated by a functional model over
//! expression images (`spec_eval`), and the executable evaluator is
//! proved to return exactly the model's value or error.

use vstd::prelude::*;
use crate::expression::ExprV;
use crate::expression::Expression;
use crate::numeric::Number;
use crate::numeric::ZERO_BITS;
use crate::numeric::add_double;
use crate::numeric::div_double;
use crate::numeric::double_add;
use crate::numeric::double_div;
use crate::numeric::double_eq;
use crate::numeric::double_le;
use crate::numeric::double_lt;
use crate::numeric::double_mul;
use crate::numeric::double_neg;
use crate::numeric::double_sub;
use crate::numeric::eq_double;
use crate::numeric::le_double;
use crate::numeric::lt_double;
use crate::numeric::mul_double;
use crate::numeric::neg_double;
use crate::numeric::spec_value_text;
use crate::numeric::sub_double;
use crate::numeric::value_text;
use crate::string_util::str_eq;
use crate::token::Token;
use crate::token::TokenType;

verus! {

//// Evaluation errors

/// A runtime error: a defensive case for trees no parse produces, or an
/// operand of the wrong type.
#[derive(Debug, Clone, Copy, PartialEq, Eq, Structural)]
pub enum EvaluationError {
    InvalidExpression,
    NumericOperandRequired,
    NumericOperandsRequired,
}

impl EvaluationError {
    /// The one-line diagnostic for this error.
    pub fn message(&self) -> (r: String)
        ensures
            self == EvaluationError::InvalidExpression ==> r@ == "Invalid expression"@,
            self == EvaluationError::NumericOperandRequired ==> r@
                == "Operand must be a number."@,
            self == EvaluationError::NumericOperandsRequired ==> r@
                == "Operands must be numbers."@,
    {
        match self {
            EvaluationError::InvalidExpression => String::from_str("Invalid expression"),
            EvaluationError::NumericOperandRequired => String::from_str(
                "Operand must be a number.",
            ),
            EvaluationError::NumericOperandsRequired => String::from_str(
                "Operands must be numbers.",
            ),
        }
    }
}

//// Runtime values

/// A runtime value: text, a number, a truth value, or nil.
#[derive(Debug)]
pub enum EvaluatorResult {
    String(String),
    Numeric(Number),
    Boolean(bool),
    Nil,
}

/// The mathematical image of a runtime value.
pub enum ValueV {
    String(Seq<char>),
    Numeric(u64),
    Boolean(bool),
    Nil,
}

impl View for EvaluatorResult {
    type V = ValueV;

    open spec fn view(&self) -> ValueV {
        match self {
            EvaluatorResult::String(s) => ValueV::String(s@),
            EvaluatorResult::Numeric(n) => ValueV::Numeric(n.bits),
            EvaluatorResult::Boolean(b) => ValueV::Boolean(*b),
            EvaluatorResult::Nil => ValueV::Nil,
        }
    }
}

//// The functional model of evaluation

/// The value of a string literal: the reserved words map to nil and the
/// truth values, every other text to itself.
pub open spec fn spec_string_literal(value: Seq<char>) -> ValueV {
    if value == "nil"@ {
        ValueV::Nil
    } else if value == "true"@ {
        ValueV::Boolean(true)
    } else if value == "false"@ {
        ValueV::Boolean(false)
    } else {
        ValueV::String(value)
    }
}

/// Truthiness: nil and false are falsy, a number is truthy exactly when
/// it is nonzero, and text is truthy unless it reads `false`.
pub open spec fn spec_truthy(v: ValueV) -> bool {
    match v {
        ValueV::String(s) => s != "false"@,
        ValueV::Numeric(b) => !double_eq(b, ZERO_BITS),
        ValueV::Boolean(b) => b,
        ValueV::Nil => false,
    }
}

/// Equality of runtime values: nil equals only nil, values of one kind
/// compare by their content, and values of different kinds are unequal.
pub open spec fn spec_is_equal(l: ValueV, r: ValueV) -> bool {
    match (l, r) {
        (ValueV::Nil, ValueV::Nil) => true,
        (ValueV::Nil, _) => false,
        (ValueV::Numeric(a), ValueV::Numeric(b)) => double_eq(a, b),
        (ValueV::Boolean(a), ValueV::Boolean(b)) => a == b,
        (ValueV::String(a), ValueV::String(b)) => a == b,
        _ => false,
    }
}

/// The value of a unary operator applied to its operand's value.
pub open spec fn spec_unary_result(op: TokenType, rv: ValueV) -> Result<ValueV, EvaluationError> {
    if op == TokenType::Minus {
        match rv {
            ValueV::Numeric(n) => Ok(ValueV::Numeric(double_neg(n))),
            _ => Err(EvaluationError::NumericOperandRequired),
        }
    } else if op == TokenType::Bang {
        Ok(ValueV::Boolean(!spec_truthy(rv)))
    } else {
        Err(EvaluationError::InvalidExpression)
    }
}

/// The value of a binary operator applied to its operands' values:
/// arithmetic and the orderings demand numbers, `+` also joins two
/// texts, and the equality operators accept every pairing.
pub open spec fn spec_binary_result(lv: ValueV, op: TokenType, rv: ValueV) -> Result<
    ValueV,
    EvaluationError,
> {
    if op == TokenType::Slash {
        match (lv, rv) {
            (ValueV::Numeric(a), ValueV::Numeric(b)) => Ok(ValueV::Numeric(double_div(a, b))),
            _ => Err(EvaluationError::NumericOperandsRequired),
        }
    } else if op == TokenType::Star {
        match (lv, rv) {
            (ValueV::Numeric(a), ValueV::Numeric(b)) => Ok(ValueV::Numeric(double_mul(a, b))),
            _ => Err(EvaluationError::NumericOperandsRequired),
        }
    } else if op == TokenType::Minus {
        match (lv, rv) {
            (ValueV::Numeric(a), ValueV::Numeric(b)) => Ok(ValueV::Numeric(double_sub(a, b))),
            _ => Err(EvaluationError::NumericOperandsRequired),
        }
    } else if op == TokenType::Plus {
        match (lv, rv) {
            (ValueV::Numeric(a), ValueV::Numeric(b)) => Ok(ValueV::Numeric(double_add(a, b))),
            (ValueV::String(a), ValueV::String(b)) => Ok(ValueV::String(a + b)),
            _ => Err(EvaluationError::NumericOperandsRequired),
        }
    } else if op == TokenType::Greater {
        match (lv, rv) {
            (ValueV::Numeric(a), ValueV::Numeric(b)) => Ok(ValueV::Boolean(double_lt(b, a))),
            _ => Err(EvaluationError::NumericOperandsRequired),
        }
    } else if op == TokenType::GreaterEqual {
        match (lv, rv) {
            (ValueV::Numeric(a), ValueV::Numeric(b)) => Ok(ValueV::Boolean(double_le(b, a))),
            _ => Err(EvaluationError::NumericOperandsRequired),
        }
    } else if op == TokenType::Less {
        match (lv, rv) {
            (ValueV::Numeric(a), ValueV::Numeric(b)) => Ok(ValueV::Boolean(double_lt(a, b))),
            _ => Err(EvaluationError::NumericOperandsRequired),
        }
    } else if op == TokenType::LessEqual {
        match (lv, rv) {
            (ValueV::Numeric(a), ValueV::Numeric(b)) => Ok(ValueV::Boolean(double_le(a, b))),
            _ => Err(EvaluationError::NumericOperandsRequired),
        }
    } else if op == TokenType::BangEqual {
        Ok(ValueV::Boolean(!spec_is_equal(lv, rv)))
    } else if op == TokenType::EqualEqual {
        Ok(ValueV::Boolean(spec_is_equal(lv, rv)))
    } else {
        Err(EvaluationError::InvalidExpression)
    }
}

/// The value of an expression: literals map to their values, groupings
/// are transparent, and operators follow the per-operator type rules;
/// the left operand's error wins over the right one's.
pub open spec fn spec_eval(e: ExprV) -> Result<ValueV, EvaluationError>
    decreases e,
{
    match e {
        ExprV::StringLiteral { value } => Ok(spec_string_literal(value)),
        ExprV::NumericLiteral { value } => Ok(ValueV::Numeric(value)),
        ExprV::Grouping { expression } => spec_eval(*expression),
        ExprV::Unary { operator, right } => match spec_eval(*right) {
            Ok(rv) => spec_unary_result(operator.token_type, rv),
            Err(e) => Err(e),
        },
        ExprV::Binary { left, operator, right } => match spec_eval(*left) {
            Ok(lv) => match spec_eval(*right) {
                Ok(rv) => spec_binary_result(lv, operator.token_type, rv),
                Err(e) => Err(e),
            },
            Err(e) => Err(e),
        },
    }
}

/// The display text of a runtime value, as the evaluate mode prints it.
pub open spec fn spec_value_display(v: ValueV) -> Seq<char> {
    match v {
        ValueV::String(s) => s,
        ValueV::Numeric(b) => spec_value_text(b),
        ValueV::Boolean(b) => if b {
            "true"@
        } else {
            "false"@
        },
        ValueV::Nil => "nil"@,
    }
}

impl EvaluatorResult {
    /// The display text of this value.
    pub fn display_text(&self) -> (r: String)
        ensures
            r@ == spec_value_display(self@),
    {
        match self {
            EvaluatorResult::String(s) => s.clone(),
            EvaluatorResult::Numeric(n) => value_text(n.bits),
            EvaluatorResult::Boolean(b) => if *b {
                String::from_str("true")
            } else {
                String::from_str("false")
            },
            EvaluatorResult::Nil => String::from_str("nil"),
        }
    }
}

//// The executable evaluator

/// The evaluator over one optional expression tree.
pub struct Evaluator {
    pub ast: Option<Expression>,
}

impl Evaluator {
    pub fn new(ast: Option<Expression>) -> (r: Self)
        ensures
            r.ast == ast,
    {
        Self { ast }
    }

    fn string_literal(&self, value: &str) -> (r: Result<EvaluatorResult, EvaluationError>)
        ensures
            r matches Ok(v) && v@ == spec_string_literal(value@),
    {
        if str_eq(value, "nil") {
            Ok(EvaluatorResult::Nil)
        } else if str_eq(value, "true") || str_eq(value, "false") {
            Ok(EvaluatorResult::Boolean(str_eq(value, "true")))
        } else {
            Ok(EvaluatorResult::String(String::from_str(value)))
        }
    }

    fn numeric_literal(&self, value: Number) -> (r: Result<EvaluatorResult, EvaluationError>)
        ensures
            r matches Ok(v) && v@ == ValueV::Numeric(value.bits),
    {
        Ok(EvaluatorResult::Numeric(value))
    }

    fn is_truthy(result: EvaluatorResult) -> (r: bool)
        ensures
            r == spec_truthy(result@),
    {
        match result {
            EvaluatorResult::String(value) => !str_eq(value.as_str(), "false"),
            EvaluatorResult::Numeric(value) => !eq_double(value.bits, ZERO_BITS),
            EvaluatorResult::Boolean(value) => value,
            EvaluatorResult::Nil => false,
        }
    }

    fn unary(&self, operator: &Token, right_result: EvaluatorResult) -> (r: Result<
        EvaluatorResult,
        EvaluationError,
    >)
        ensures
            ({
                let m = spec_unary_result(operator.token_type, right_result@);
                match r {
                    Ok(v) => (m matches Ok(mv) && v@ == mv),
                    Err(e) => (m matches Err(me) && e == me),
                }
            }),
    {
        match (operator.token_type, &right_result) {
            (TokenType::Minus, EvaluatorResult::Numeric(value)) => Ok(
                EvaluatorResult::Numeric(Number { bits: neg_double(value.bits) }),
            ),
            (TokenType::Minus, _) => Err(EvaluationError::NumericOperandRequired),
            (TokenType::Bang, _) => Ok(EvaluatorResult::Boolean(!Self::is_truthy(right_result))),
            _ => Err(EvaluationError::InvalidExpression),
        }
    }

    fn is_equal(left_result: &EvaluatorResult, right_result: &EvaluatorResult) -> (r: bool)
        ensures
            r == spec_is_equal(left_result@, right_result@),
    {
        match (&left_result, &right_result) {
            (EvaluatorResult::Nil, EvaluatorResult::Nil) => true,
            (EvaluatorResult::Nil, _) => false,
            (EvaluatorResult::Numeric(left), EvaluatorResult::Numeric(right)) => eq_double(
                left.bits,
                right.bits,
            ),
            (EvaluatorResult::Boolean(left), EvaluatorResult::Boolean(right)) => left == right,
            (EvaluatorResult::String(left), EvaluatorResult::String(right)) => str_eq(
                left.as_str(),
                right.as_str(),
            ),
            _ => false,
        }
    }

    fn binary(
        &self,
        left_result: EvaluatorResult,
        operator: &Token,
        right_result: EvaluatorResult,
    ) -> (r: Result<EvaluatorResult, EvaluationError>)
        ensures
            ({
                let m = spec_binary_result(left_result@, operator.token_type, right_result@);
                match r {
                    Ok(v) => (m matches Ok(mv) && v@ == mv),
                    Err(e) => (m matches Err(me) && e == me),
                }
            }),
    {
        match (&left_result, &right_result, &operator.token_type) {
            (
                EvaluatorResult::Numeric(left),
                EvaluatorResult::Numeric(right),
                TokenType::Slash,
            ) => Ok(EvaluatorResult::Numeric(Number { bits: div_double(left.bits, right.bits) })),
            (_, _, TokenType::Slash) => Err(EvaluationError::NumericOperandsRequired),
            (EvaluatorResult::Numeric(left), EvaluatorResult::Numeric(right), TokenType::Star) =>
                Ok(EvaluatorResult::Numeric(Number { bits: mul_double(left.bits, right.bits) })),
            (_, _, TokenType::Star) => Err(EvaluationError::NumericOperandsRequired),
            (
                EvaluatorResult::Numeric(left),
                EvaluatorResult::Numeric(right),
                TokenType::Minus,
            ) => Ok(EvaluatorResult::Numeric(Number { bits: sub_double(left.bits, right.bits) })),
            (_, _, TokenType::Minus) => Err(EvaluationError::NumericOperandsRequired),
            (EvaluatorResult::Numeric(left), EvaluatorResult::Numeric(right), TokenType::Plus) =>
                Ok(EvaluatorResult::Numeric(Number { bits: add_double(left.bits, right.bits) })),
            (
                EvaluatorResult::Numeric(left),
                EvaluatorResult::Numeric(right),
                TokenType::Greater,
            ) => Ok(EvaluatorResult::Boolean(lt_double(right.bits, left.bits))),
            (_, _, TokenType::Greater) => Err(EvaluationError::NumericOperandsRequired),
            (
                EvaluatorResult::Numeric(left),
                EvaluatorResult::Numeric(right),
                TokenType::GreaterEqual,
            ) => Ok(EvaluatorResult::Boolean(le_double(right.bits, left.bits))),
            (_, _, TokenType::GreaterEqual) => Err(EvaluationError::NumericOperandsRequired),
            (EvaluatorResult::Numeric(left), EvaluatorResult::Numeric(right), TokenType::Less) =>
                Ok(EvaluatorResult::Boolean(lt_double(left.bits, right.bits))),
            (_, _, TokenType::Less) => Err(EvaluationError::NumericOperandsRequired),
            (
                EvaluatorResult::Numeric(left),
                EvaluatorResult::Numeric(right),
                TokenType::LessEqual,
            ) => Ok(EvaluatorResult::Boolean(le_double(left.bits, right.bits))),
            (_, _, TokenType::LessEqual) => Err(EvaluationError::NumericOperandsRequired),
            (left, right, TokenType::BangEqual) => Ok(
                EvaluatorResult::Boolean(!Self::is_equal(left, right)),
            ),
            (left, right, TokenType::EqualEqual) => Ok(
                EvaluatorResult::Boolean(Self::is_equal(left, right)),
            ),
            (EvaluatorResult::String(left), EvaluatorResult::String(right), TokenType::Plus) => {
                let mut joined = left.clone();
                joined.append(right.as_str());
                Ok(EvaluatorResult::String(joined))
            },
            (_, _, TokenType::Plus) => Err(EvaluationError::NumericOperandsRequired),
            _ => Err(EvaluationError::InvalidExpression),
        }
    }

    /// Evaluates one expression tree: exactly the value or error of the
    /// evaluation model `spec_eval`.
    pub fn evaluate_expression(&self, expression: &Expression) -> (r: Result<
        EvaluatorResult,
        EvaluationError,
    >)
        ensures
            ({
                let m = spec_eval(expression@);
                match r {
                    Ok(v) => (m matches Ok(mv) && v@ == mv),
                    Err(e) => (m matches Err(me) && e == me),
                }
            }),
        decreases expression,
    {
        match expression {
            Expression::StringLiteral { value } => self.string_literal(value.as_str()),
            Expression::NumericLiteral { value } => self.numeric_literal(*value),
            Expression::Grouping { expression: inner_expression } => self.evaluate_expression(
                inner_expression,
            ),
            Expression::Unary { operator, right } => {
                let right_result = match self.evaluate_expression(right) {
                    Ok(v) => v,
                    Err(e) => {
                        return Err(e);
                    },
                };
                self.unary(operator, right_result)
            },
            Expression::Binary { left, operator, right } => {
                let left_result = match self.evaluate_expression(left) {
                    Ok(v) => v,
                    Err(e) => {
                        return Err(e);
                    },
                };
                let right_result = match self.evaluate_expression(right) {
                    Ok(v) => v,
                    Err(e) => {
                        return Err(e);
                    },
                };
                self.binary(left_result, operator, right_result)
            },
        }
    }

    /// Evaluates the held expression and renders the result, as the
    /// evaluate mode prints it; with no expression held, the defensive
    /// error is returned.
    pub fn evaluate(&self) -> (r: Result<String, EvaluationError>)
        ensures
            ({
                match self.ast {
                    Some(ast) => match r {
                        Ok(s) => (spec_eval(ast@) matches Ok(v) && s@ == spec_value_display(v)),
                        Err(e) => (spec_eval(ast@) matches Err(me) && e == me),
                    },
                    None => r == Err::<String, EvaluationError>(
                        EvaluationError::InvalidExpression,
                    ),
                }
            }),
    {
        match &self.ast {
            Some(ast) => {
                let output = match self.evaluate_expression(ast) {
                    Ok(v) => v,
                    Err(e) => {
                        return Err(e);
                    },
                };
                Ok(output.display_text())
            },
            None => Err(EvaluationError::InvalidExpression),
        }
    }
}

} // verus!
