//! The abstract syntax tree: expressions, the two statement forms, and
//! the parenthesized prefix rendering of an expression.

use vstd::prelude::*;
use crate::numeric::Number;
use crate::numeric::spec_literal_text;
use crate::numeric::literal_text;
use crate::token::Token;
use crate::token::TokenV;
use crate::token::spec_data_name;

verus! {

/// One expression of the language.
#[derive(Debug)]
pub enum Expression {
    Binary { left: Box<Expression>, operator: Token, right: Box<Expression> },
    Unary { operator: Token, right: Box<Expression> },
    StringLiteral { value: String },
    NumericLiteral { value: Number },
    Grouping { expression: Box<Expression> },
}

/// The mathematical image of an expression.
pub enum ExprV {
    Binary { left: Box<ExprV>, operator: TokenV, right: Box<ExprV> },
    Unary { operator: TokenV, right: Box<ExprV> },
    StringLiteral { value: Seq<char> },
    NumericLiteral { value: u64 },
    Grouping { expression: Box<ExprV> },
}

/// The mathematical image of an expression tree.
pub open spec fn expr_view(e: Expression) -> ExprV
    decreases e,
{
    match e {
        Expression::Binary { left, operator, right } => ExprV::Binary {
            left: Box::new(expr_view(*left)),
            operator: operator@,
            right: Box::new(expr_view(*right)),
        },
        Expression::Unary { operator, right } => ExprV::Unary {
            operator: operator@,
            right: Box::new(expr_view(*right)),
        },
        Expression::StringLiteral { value } => ExprV::StringLiteral { value: value@ },
        Expression::NumericLiteral { value } => ExprV::NumericLiteral { value: value.bits },
        Expression::Grouping { expression } => ExprV::Grouping {
            expression: Box::new(expr_view(*expression)),
        },
    }
}

impl View for Expression {
    type V = ExprV;

    open spec fn view(&self) -> ExprV {
        expr_view(*self)
    }
}

/// The parenthesized prefix rendering of an expression: operator nodes
/// as `(<operator> <child>...)`, groupings as `(group <child>)`, and a
/// literal as its display text.
pub open spec fn spec_expr_text(e: ExprV) -> Seq<char>
    decreases e,
{
    match e {
        ExprV::Binary { left, operator, right } => "("@ + spec_data_name(operator.token_data)
            + " "@ + spec_expr_text(*left) + " "@ + spec_expr_text(*right) + ")"@,
        ExprV::Unary { operator, right } => "("@ + spec_data_name(operator.token_data) + " "@
            + spec_expr_text(*right) + ")"@,
        ExprV::StringLiteral { value } => value,
        ExprV::NumericLiteral { value } => spec_literal_text(value),
        ExprV::Grouping { expression } => "(group "@ + spec_expr_text(*expression) + ")"@,
    }
}

impl Expression {
    pub fn binary_from(left: Expression, operator: Token, right: Expression) -> (r: Self)
        ensures
            r@ == (ExprV::Binary {
                left: Box::new(left@),
                operator: operator@,
                right: Box::new(right@),
            }),
    {
        Expression::Binary { left: Box::new(left), operator, right: Box::new(right) }
    }

    pub fn unary_from(operator: Token, right: Expression) -> (r: Self)
        ensures
            r@ == (ExprV::Unary { operator: operator@, right: Box::new(right@) }),
    {
        Expression::Unary { operator, right: Box::new(right) }
    }

    pub fn string_literal_from(value: &str) -> (r: Self)
        ensures
            r@ == (ExprV::StringLiteral { value: value@ }),
    {
        Expression::StringLiteral { value: String::from_str(value) }
    }

    pub fn numeric_literal_from(value: Number) -> (r: Self)
        ensures
            r@ == (ExprV::NumericLiteral { value: value.bits }),
    {
        Expression::NumericLiteral { value }
    }

    pub fn grouping_from(expression: Expression) -> (r: Self)
        ensures
            r@ == (ExprV::Grouping { expression: Box::new(expression@) }),
    {
        Expression::Grouping { expression: Box::new(expression) }
    }

    /// The parenthesized prefix rendering, as the parse mode prints it.
    pub fn ast_text(&self) -> (r: String)
        ensures
            r@ == spec_expr_text(self@),
        decreases self,
    {
        match self {
            Expression::Binary { left, operator, right } => {
                let mut out = String::from_str("(");
                out.append(operator.get_name().as_str());
                out.append(" ");
                out.append(left.ast_text().as_str());
                out.append(" ");
                out.append(right.ast_text().as_str());
                out.append(")");
                proof {
                    assert(out@ =~= spec_expr_text(self@));
                }
                out
            },
            Expression::Unary { operator, right } => {
                let mut out = String::from_str("(");
                out.append(operator.get_name().as_str());
                out.append(" ");
                out.append(right.ast_text().as_str());
                out.append(")");
                proof {
                    assert(out@ =~= spec_expr_text(self@));
                }
                out
            },
            Expression::StringLiteral { value } => value.clone(),
            Expression::NumericLiteral { value } => literal_text(value.bits),
            Expression::Grouping { expression } => {
                let mut out = String::from_str("(group ");
                out.append(expression.ast_text().as_str());
                out.append(")");
                proof {
                    assert(out@ =~= spec_expr_text(self@));
                }
                out
            },
        }
    }
}

/// One statement: a print statement, or a bare expression statement.
#[derive(Debug)]
pub enum Statement {
    PrintStmt { expression: Expression },
    ExpressionStmt { expression: Expression },
}

/// The mathematical image of a statement.
pub enum StmtV {
    PrintStmt { expression: ExprV },
    ExpressionStmt { expression: ExprV },
}

impl View for Statement {
    type V = StmtV;

    open spec fn view(&self) -> StmtV {
        match self {
            Statement::PrintStmt { expression } => StmtV::PrintStmt { expression: expression@ },
            Statement::ExpressionStmt { expression } => StmtV::ExpressionStmt {
                expression: expression@,
            },
        }
    }
}

} // verus!
