//! The parser: recursive descent over the token sequence with the fixed
//! precedence ladder, producing one expression tree or a sequence of
//! statements; the first structural error aborts the parse.
//!
//! The grammar is stated as a functional model over token images
//! (`spec_expression`, `spec_statements`), and the executable parser is
//! proved to return exactly the model's tree or error.

use vstd::prelude::*;
use crate::expression::ExprV;
use crate::expression::Expression;
use crate::expression::Statement;
use crate::expression::StmtV;
use crate::token::Token;
use crate::token::TokenData;
use crate::token::TokenDataV;
use crate::token::TokenType;
use crate::token::TokenV;

verus! {

//// Parsing errors

/// A structural error: no expression where one was required, or an
/// unexpected token in place of a required one.
#[derive(Debug, Clone, Copy, PartialEq, Eq, Structural)]
pub enum ParsingError {
    ExpectedExpression,
    UnexpectedToken,
}

impl ParsingError {
    /// The one-line diagnostic for this error.
    pub fn message(&self) -> (r: String)
        ensures
            self == ParsingError::ExpectedExpression ==> r@ == "Expected expression."@,
            self == ParsingError::UnexpectedToken ==> r@ == "Unexpected token."@,
    {
        match self {
            ParsingError::ExpectedExpression => String::from_str("Expected expression."),
            ParsingError::UnexpectedToken => String::from_str("Unexpected token."),
        }
    }
}

//// The functional model of the grammar

/// A well-formed token sequence, as the scanner yields it: one terminal
/// token standing last, and every literal token carrying the matching
/// payload.
pub open spec fn spec_tokens_wf(toks: Seq<TokenV>) -> bool {
    &&& toks.len() >= 1
    &&& toks.last().token_type == TokenType::Eof
    &&& forall|i: int| 0 <= i < toks.len() - 1 ==> (#[trigger] toks[i]).token_type != TokenType::Eof
    &&& forall|i: int|
        0 <= i < toks.len() ==> ((#[trigger] toks[i]).token_type == TokenType::Number
            ==> toks[i].token_data is NumericLiteral)
    &&& forall|i: int|
        0 <= i < toks.len() ==> ((#[trigger] toks[i]).token_type == TokenType::String
            ==> toks[i].token_data is StringLiteral)
}

/// Whether the token at a position has the given kind; the terminal
/// token matches nothing.
pub open spec fn spec_check(toks: Seq<TokenV>, i: int, kind: TokenType) -> bool {
    &&& 0 <= i < toks.len()
    &&& toks[i].token_type != TokenType::Eof
    &&& toks[i].token_type == kind
}

/// A successful parse of one expression: the tree, and the index of the
/// first token after it.
pub struct ParseOk {
    pub e: ExprV,
    pub next: int,
}

/// A successful parse of one statement: the statement, and the index of
/// the first token after it.
pub struct StmtOk {
    pub stmt: StmtV,
    pub next: int,
}

pub open spec fn spec_primary(toks: Seq<TokenV>, i: int) -> Result<ParseOk, ParsingError>
    decreases toks.len() - i, 0int,
{
    if spec_check(toks, i, TokenType::False) {
        Ok(ParseOk { e: ExprV::StringLiteral { value: "false"@ }, next: i + 1 })
    } else if spec_check(toks, i, TokenType::True) {
        Ok(ParseOk { e: ExprV::StringLiteral { value: "true"@ }, next: i + 1 })
    } else if spec_check(toks, i, TokenType::Nil) {
        Ok(ParseOk { e: ExprV::StringLiteral { value: "nil"@ }, next: i + 1 })
    } else if spec_check(toks, i, TokenType::Number) || spec_check(toks, i, TokenType::String) {
        match toks[i].token_data {
            TokenDataV::StringLiteral { lexeme, literal } => Ok(
                ParseOk { e: ExprV::StringLiteral { value: literal }, next: i + 1 },
            ),
            TokenDataV::NumericLiteral { lexeme, literal } => Ok(
                ParseOk { e: ExprV::NumericLiteral { value: literal }, next: i + 1 },
            ),
            _ => Err(ParsingError::ExpectedExpression),
        }
    } else if spec_check(toks, i, TokenType::LeftParen) {
        match spec_expression(toks, i + 1) {
            Ok(inner) => if i + 1 < inner.next <= toks.len() {
                if spec_check(toks, inner.next, TokenType::RightParen) {
                    Ok(
                        ParseOk {
                            e: ExprV::Grouping { expression: Box::new(inner.e) },
                            next: inner.next + 1,
                        },
                    )
                } else {
                    Err(ParsingError::ExpectedExpression)
                }
            } else {
                Err(ParsingError::ExpectedExpression)
            },
            Err(pe) => Err(pe),
        }
    } else {
        Err(ParsingError::ExpectedExpression)
    }
}

pub open spec fn spec_unary(toks: Seq<TokenV>, i: int) -> Result<ParseOk, ParsingError>
    decreases toks.len() - i, 3int,
{
    if spec_check(toks, i, TokenType::Bang) || spec_check(toks, i, TokenType::Minus) {
        match spec_unary(toks, i + 1) {
            Ok(rhs) => Ok(
                ParseOk {
                    e: ExprV::Unary { operator: toks[i], right: Box::new(rhs.e) },
                    next: rhs.next,
                },
            ),
            Err(pe) => Err(pe),
        }
    } else {
        spec_primary(toks, i)
    }
}

pub open spec fn spec_factor(toks: Seq<TokenV>, i: int) -> Result<ParseOk, ParsingError>
    decreases toks.len() - i, 5int,
{
    match spec_unary(toks, i) {
        Ok(first) => if i < first.next <= toks.len() {
            spec_factor_tail(toks, first.next, first.e)
        } else {
            Ok(first)
        },
        Err(pe) => Err(pe),
    }
}

pub open spec fn spec_factor_tail(toks: Seq<TokenV>, i: int, left: ExprV) -> Result<
    ParseOk,
    ParsingError,
>
    decreases toks.len() - i, 4int,
{
    if spec_check(toks, i, TokenType::Slash) || spec_check(toks, i, TokenType::Star) {
        match spec_unary(toks, i + 1) {
            Ok(rhs) => if i + 1 < rhs.next <= toks.len() {
                spec_factor_tail(
                    toks,
                    rhs.next,
                    ExprV::Binary {
                        left: Box::new(left),
                        operator: toks[i],
                        right: Box::new(rhs.e),
                    },
                )
            } else {
                Ok(ParseOk { e: left, next: i })
            },
            Err(pe) => Err(pe),
        }
    } else {
        Ok(ParseOk { e: left, next: i })
    }
}

pub open spec fn spec_term(toks: Seq<TokenV>, i: int) -> Result<ParseOk, ParsingError>
    decreases toks.len() - i, 7int,
{
    match spec_factor(toks, i) {
        Ok(first) => if i < first.next <= toks.len() {
            spec_term_tail(toks, first.next, first.e)
        } else {
            Ok(first)
        },
        Err(pe) => Err(pe),
    }
}

pub open spec fn spec_term_tail(toks: Seq<TokenV>, i: int, left: ExprV) -> Result<
    ParseOk,
    ParsingError,
>
    decreases toks.len() - i, 6int,
{
    if spec_check(toks, i, TokenType::Minus) || spec_check(toks, i, TokenType::Plus) {
        match spec_factor(toks, i + 1) {
            Ok(rhs) => if i + 1 < rhs.next <= toks.len() {
                spec_term_tail(
                    toks,
                    rhs.next,
                    ExprV::Binary {
                        left: Box::new(left),
                        operator: toks[i],
                        right: Box::new(rhs.e),
                    },
                )
            } else {
                Ok(ParseOk { e: left, next: i })
            },
            Err(pe) => Err(pe),
        }
    } else {
        Ok(ParseOk { e: left, next: i })
    }
}

pub open spec fn spec_comparison(toks: Seq<TokenV>, i: int) -> Result<ParseOk, ParsingError>
    decreases toks.len() - i, 9int,
{
    match spec_term(toks, i) {
        Ok(first) => if i < first.next <= toks.len() {
            spec_comparison_tail(toks, first.next, first.e)
        } else {
            Ok(first)
        },
        Err(pe) => Err(pe),
    }
}

pub open spec fn spec_comparison_tail(toks: Seq<TokenV>, i: int, left: ExprV) -> Result<
    ParseOk,
    ParsingError,
>
    decreases toks.len() - i, 8int,
{
    if spec_check(toks, i, TokenType::Greater) || spec_check(toks, i, TokenType::GreaterEqual)
        || spec_check(toks, i, TokenType::Less) || spec_check(toks, i, TokenType::LessEqual) {
        match spec_term(toks, i + 1) {
            Ok(rhs) => if i + 1 < rhs.next <= toks.len() {
                spec_comparison_tail(
                    toks,
                    rhs.next,
                    ExprV::Binary {
                        left: Box::new(left),
                        operator: toks[i],
                        right: Box::new(rhs.e),
                    },
                )
            } else {
                Ok(ParseOk { e: left, next: i })
            },
            Err(pe) => Err(pe),
        }
    } else {
        Ok(ParseOk { e: left, next: i })
    }
}

pub open spec fn spec_equality(toks: Seq<TokenV>, i: int) -> Result<ParseOk, ParsingError>
    decreases toks.len() - i, 11int,
{
    match spec_comparison(toks, i) {
        Ok(first) => if i < first.next <= toks.len() {
            spec_equality_tail(toks, first.next, first.e)
        } else {
            Ok(first)
        },
        Err(pe) => Err(pe),
    }
}

pub open spec fn spec_equality_tail(toks: Seq<TokenV>, i: int, left: ExprV) -> Result<
    ParseOk,
    ParsingError,
>
    decreases toks.len() - i, 10int,
{
    if spec_check(toks, i, TokenType::BangEqual) || spec_check(toks, i, TokenType::EqualEqual) {
        match spec_comparison(toks, i + 1) {
            Ok(rhs) => if i + 1 < rhs.next <= toks.len() {
                spec_equality_tail(
                    toks,
                    rhs.next,
                    ExprV::Binary {
                        left: Box::new(left),
                        operator: toks[i],
                        right: Box::new(rhs.e),
                    },
                )
            } else {
                Ok(ParseOk { e: left, next: i })
            },
            Err(pe) => Err(pe),
        }
    } else {
        Ok(ParseOk { e: left, next: i })
    }
}

/// The whole expression grammar: its lowest precedence level.
pub open spec fn spec_expression(toks: Seq<TokenV>, i: int) -> Result<ParseOk, ParsingError>
    decreases toks.len() - i, 12int,
{
    spec_equality(toks, i)
}

/// One statement: the `print` keyword and an expression, or a bare
/// expression, each closed by a semicolon.
pub open spec fn spec_statement(toks: Seq<TokenV>, i: int) -> Result<StmtOk, ParsingError>
    decreases toks.len() - i, 13int,
{
    if spec_check(toks, i, TokenType::Print) {
        match spec_expression(toks, i + 1) {
            Ok(inner) => if i + 1 < inner.next <= toks.len() {
                if spec_check(toks, inner.next, TokenType::Semicolon) {
                    Ok(
                        StmtOk {
                            stmt: StmtV::PrintStmt { expression: inner.e },
                            next: inner.next + 1,
                        },
                    )
                } else {
                    Err(ParsingError::UnexpectedToken)
                }
            } else {
                Err(ParsingError::UnexpectedToken)
            },
            Err(pe) => Err(pe),
        }
    } else {
        match spec_expression(toks, i) {
            Ok(inner) => if i < inner.next <= toks.len() {
                if spec_check(toks, inner.next, TokenType::Semicolon) {
                    Ok(
                        StmtOk {
                            stmt: StmtV::ExpressionStmt { expression: inner.e },
                            next: inner.next + 1,
                        },
                    )
                } else {
                    Err(ParsingError::UnexpectedToken)
                }
            } else {
                Err(ParsingError::UnexpectedToken)
            },
            Err(pe) => Err(pe),
        }
    }
}

/// The statement sequence: one statement per iteration until the
/// terminal token.
pub open spec fn spec_statements(toks: Seq<TokenV>, i: int) -> Result<Seq<StmtV>, ParsingError>
    decreases toks.len() - i, 14int,
{
    if !(0 <= i < toks.len()) {
        Ok(Seq::empty())
    } else if toks[i].token_type == TokenType::Eof {
        Ok(Seq::empty())
    } else {
        match spec_statement(toks, i) {
            Ok(s) => if i < s.next <= toks.len() {
                match spec_statements(toks, s.next) {
                    Ok(rest) => Ok(seq![s.stmt] + rest),
                    Err(pe) => Err(pe),
                }
            } else {
                Ok(seq![s.stmt])
            },
            Err(pe) => Err(pe),
        }
    }
}

//// The token cursor

/// The parser's cursor over the token sequence.
pub struct Consumer<'a> {
    pub tokens: &'a Vec<Token>,
    pub current_index: usize,
}

impl<'a> Consumer<'a> {
    /// The images of the tokens the consumer walks.
    pub open spec fn toks(&self) -> Seq<TokenV> {
        self.tokens@.map_values(|t: Token| t@)
    }

    /// The token sequence is well formed and the cursor stands on a
    /// token.
    pub open spec fn wf(&self) -> bool {
        &&& spec_tokens_wf(self.toks())
        &&& self.current_index < self.toks().len()
    }

    pub fn new(tokens: &'a Vec<Token>) -> (r: Self)
        requires
            spec_tokens_wf(tokens@.map_values(|t: Token| t@)),
        ensures
            r.tokens == tokens,
            r.current_index == 0,
            r.wf(),
    {
        Consumer { tokens, current_index: 0 }
    }

    pub fn peek(&self) -> (r: &'a Token)
        requires
            self.wf(),
        ensures
            r@ == self.toks()[self.current_index as int],
    {
        &self.tokens[self.current_index]
    }

    pub fn previous(&self) -> (r: &'a Token)
        requires
            self.wf(),
            self.current_index >= 1,
        ensures
            r@ == self.toks()[self.current_index - 1],
    {
        &self.tokens[self.current_index - 1]
    }

    pub fn is_at_end(&self) -> (r: bool)
        requires
            self.wf(),
        ensures
            r == (self.toks()[self.current_index as int].token_type == TokenType::Eof),
    {
        self.peek().token_type == TokenType::Eof
    }

    pub fn advance(&mut self) -> (r: &'a Token)
        requires
            old(self).wf(),
            old(self).toks()[old(self).current_index as int].token_type != TokenType::Eof,
        ensures
            final(self).tokens == old(self).tokens,
            final(self).current_index == old(self).current_index + 1,
            final(self).wf(),
            r@ == old(self).toks()[old(self).current_index as int],
    {
        let n = self.tokens.len();
        proof {
            assert(self.toks().len() == n);
            assert(old(self).current_index < self.toks().len() - 1);
        }
        if !self.is_at_end() {
            self.current_index += 1;
        }
        self.previous()
    }

    pub fn check(&self, token_type: TokenType) -> (r: bool)
        requires
            self.wf(),
        ensures
            r == spec_check(self.toks(), self.current_index as int, token_type),
    {
        if self.is_at_end() {
            return false;
        }
        self.peek().token_type == token_type
    }

    pub fn match_token_type(&mut self, token_types: Vec<TokenType>) -> (r: bool)
        requires
            old(self).wf(),
        ensures
            final(self).tokens == old(self).tokens,
            final(self).wf(),
            r == (exists|k: int|
                0 <= k < token_types@.len() && spec_check(
                    old(self).toks(),
                    old(self).current_index as int,
                    token_types@[k],
                )),
            r ==> final(self).current_index == old(self).current_index + 1,
            !r ==> final(self).current_index == old(self).current_index,
    {
        let n = token_types.len();
        let mut k: usize = 0;
        while k < n
            invariant
                n == token_types@.len(),
                0 <= k <= n,
                self == old(self),
                self.wf(),
                forall|j: int|
                    0 <= j < k ==> !spec_check(
                        self.toks(),
                        self.current_index as int,
                        token_types@[j],
                    ),
            decreases n - k,
        {
            if self.check(token_types[k]) {
                self.advance();
                return true;
            }
            k += 1;
        }
        false
    }

    pub fn consume(&mut self, token_type: TokenType, message: &str) -> (r: Result<
        &'a Token,
        ParsingError,
    >)
        requires
            old(self).wf(),
        ensures
            final(self).tokens == old(self).tokens,
            final(self).wf(),
            if spec_check(old(self).toks(), old(self).current_index as int, token_type) {
                final(self).current_index == old(self).current_index + 1 && (r matches Ok(t)
                    && t@ == old(self).toks()[old(self).current_index as int])
            } else {
                final(self).current_index == old(self).current_index && r == Err::<
                    &'a Token,
                    ParsingError,
                >(ParsingError::UnexpectedToken)
            },
    {
        if self.check(token_type) {
            return Ok(self.advance());
        }
        Err(ParsingError::UnexpectedToken)
    }
}

//// The executable parser

/// The recursive-descent parser over one token sequence.
pub struct Parser {
    pub tokens: Vec<Token>,
}

impl Parser {
    /// The images of the tokens being parsed.
    pub open spec fn toks(&self) -> Seq<TokenV> {
        self.tokens@.map_values(|t: Token| t@)
    }

    pub fn new(tokens: Vec<Token>) -> (r: Self)
        ensures
            r.tokens == tokens,
    {
        Parser { tokens }
    }

    #[verifier::rlimit(100)]
    fn primary(&self, consumer: &mut Consumer) -> (r: Result<Expression, ParsingError>)
        requires
            old(consumer).tokens@ == self.tokens@,
            old(consumer).wf(),
        ensures
            final(consumer).tokens == old(consumer).tokens,
            final(consumer).wf(),
            ({
                let m = spec_primary(old(consumer).toks(), old(consumer).current_index as int);
                match r {
                    Ok(e) => (m matches Ok(ok) && e@ == ok.e && final(consumer).current_index
                        as int == ok.next && old(consumer).current_index < final(consumer).current_index),
                    Err(pe) => (m matches Err(mpe) && pe == mpe),
                }
            }),
        decreases self.tokens@.len() - consumer.current_index, 0int,
    {
        let ghost toks = consumer.toks();
        let ghost i0 = consumer.current_index as int;

        let mut kinds_false: Vec<TokenType> = Vec::new();
        kinds_false.push(TokenType::False);
        let ghost tv_false = kinds_false@;
        if consumer.match_token_type(kinds_false) {
            proof {
                let k = choose|k: int|
                    0 <= k < tv_false.len() && spec_check(toks, i0, tv_false[k]);
            }
            return Ok(Expression::string_literal_from("false"));
        }
        proof {
            if spec_check(toks, i0, TokenType::False) {
                assert(spec_check(toks, i0, tv_false[0]));
            }
        }

        let mut kinds_true: Vec<TokenType> = Vec::new();
        kinds_true.push(TokenType::True);
        let ghost tv_true = kinds_true@;
        if consumer.match_token_type(kinds_true) {
            proof {
                let k = choose|k: int| 0 <= k < tv_true.len() && spec_check(toks, i0, tv_true[k]);
            }
            return Ok(Expression::string_literal_from("true"));
        }
        proof {
            if spec_check(toks, i0, TokenType::True) {
                assert(spec_check(toks, i0, tv_true[0]));
            }
        }

        let mut kinds_nil: Vec<TokenType> = Vec::new();
        kinds_nil.push(TokenType::Nil);
        let ghost tv_nil = kinds_nil@;
        if consumer.match_token_type(kinds_nil) {
            proof {
                let k = choose|k: int| 0 <= k < tv_nil.len() && spec_check(toks, i0, tv_nil[k]);
            }
            return Ok(Expression::string_literal_from("nil"));
        }
        proof {
            if spec_check(toks, i0, TokenType::Nil) {
                assert(spec_check(toks, i0, tv_nil[0]));
            }
        }

        let mut kinds_lit: Vec<TokenType> = Vec::new();
        kinds_lit.push(TokenType::Number);
        kinds_lit.push(TokenType::String);
        let ghost tv_lit = kinds_lit@;
        if consumer.match_token_type(kinds_lit) {
            proof {
                let k = choose|k: int| 0 <= k < tv_lit.len() && spec_check(toks, i0, tv_lit[k]);
                assert(self.tokens@[i0]@ == toks[i0]);
            }
            let previous_token = &self.tokens[consumer.current_index - 1];

            return match &previous_token.token_data {
                TokenData::StringLiteral { lexeme: _, literal } => Ok(
                    Expression::string_literal_from(literal.as_str()),
                ),
                TokenData::NumericLiteral { lexeme: _, literal } => Ok(
                    Expression::numeric_literal_from(*literal),
                ),
                _ => vstd::pervasive::unreached(),
            };
        }
        proof {
            if spec_check(toks, i0, TokenType::Number) {
                assert(spec_check(toks, i0, tv_lit[0]));
            }
            if spec_check(toks, i0, TokenType::String) {
                assert(spec_check(toks, i0, tv_lit[1]));
            }
        }

        let mut kinds_paren: Vec<TokenType> = Vec::new();
        kinds_paren.push(TokenType::LeftParen);
        let ghost tv_paren = kinds_paren@;
        if consumer.match_token_type(kinds_paren) {
            proof {
                let k = choose|k: int|
                    0 <= k < tv_paren.len() && spec_check(toks, i0, tv_paren[k]);
            }
            let inner = match self.expression(consumer) {
                Ok(e) => e,
                Err(pe) => {
                    return Err(pe);
                },
            };

            return match consumer.consume(TokenType::RightParen, "Expect ')' after expression.") {
                Ok(_) => Ok(Expression::grouping_from(inner)),
                Err(_) => Err(ParsingError::ExpectedExpression),
            };
        }
        proof {
            if spec_check(toks, i0, TokenType::LeftParen) {
                assert(spec_check(toks, i0, tv_paren[0]));
            }
        }

        Err(ParsingError::ExpectedExpression)
    }

    #[verifier::rlimit(100)]
    fn unary(&self, consumer: &mut Consumer) -> (r: Result<Expression, ParsingError>)
        requires
            old(consumer).tokens@ == self.tokens@,
            old(consumer).wf(),
        ensures
            final(consumer).tokens == old(consumer).tokens,
            final(consumer).wf(),
            ({
                let m = spec_unary(old(consumer).toks(), old(consumer).current_index as int);
                match r {
                    Ok(e) => (m matches Ok(ok) && e@ == ok.e && final(consumer).current_index
                        as int == ok.next && old(consumer).current_index < final(consumer).current_index),
                    Err(pe) => (m matches Err(mpe) && pe == mpe),
                }
            }),
        decreases self.tokens@.len() - consumer.current_index, 3int,
    {
        let ghost toks = consumer.toks();
        let ghost i0 = consumer.current_index as int;

        let mut kinds: Vec<TokenType> = Vec::new();
        kinds.push(TokenType::Bang);
        kinds.push(TokenType::Minus);
        let ghost tv = kinds@;
        if consumer.match_token_type(kinds) {
            proof {
                let k = choose|k: int| 0 <= k < tv.len() && spec_check(toks, i0, tv[k]);
                assert(self.tokens@[i0]@ == toks[i0]);
            }
            let operator = self.tokens[consumer.current_index - 1].clone();
            let right = match self.unary(consumer) {
                Ok(e) => e,
                Err(pe) => {
                    return Err(pe);
                },
            };

            return Ok(Expression::unary_from(operator, right));
        }
        proof {
            if spec_check(toks, i0, TokenType::Bang) {
                assert(spec_check(toks, i0, tv[0]));
            }
            if spec_check(toks, i0, TokenType::Minus) {
                assert(spec_check(toks, i0, tv[1]));
            }
        }

        self.primary(consumer)
    }

    #[verifier::rlimit(100)]
    #[verifier::loop_isolation(false)]
    fn factor(&self, consumer: &mut Consumer) -> (r: Result<Expression, ParsingError>)
        requires
            old(consumer).tokens@ == self.tokens@,
            old(consumer).wf(),
        ensures
            final(consumer).tokens == old(consumer).tokens,
            final(consumer).wf(),
            ({
                let m = spec_factor(old(consumer).toks(), old(consumer).current_index as int);
                match r {
                    Ok(e) => (m matches Ok(ok) && e@ == ok.e && final(consumer).current_index
                        as int == ok.next && old(consumer).current_index < final(consumer).current_index),
                    Err(pe) => (m matches Err(mpe) && pe == mpe),
                }
            }),
        decreases self.tokens@.len() - consumer.current_index, 5int,
    {
        let ghost toks = consumer.toks();
        let ghost i0 = consumer.current_index as int;
        let ghost tref = consumer.tokens;

        let mut expression = match self.unary(consumer) {
            Ok(e) => e,
            Err(pe) => {
                return Err(pe);
            },
        };
        let ghost target = spec_factor(toks, i0);
        proof {
            assert(target == spec_factor_tail(toks, consumer.current_index as int, expression@));
        }

        loop
            invariant
                consumer.tokens == tref,
                consumer.tokens@ == self.tokens@,
                consumer.toks() == toks,
                consumer.wf(),
                i0 < consumer.current_index,
                target == spec_factor(toks, i0),
                spec_factor_tail(toks, consumer.current_index as int, expression@) == target,
            decreases self.tokens@.len() - consumer.current_index,
        {
            let ghost cur = consumer.current_index as int;
            let mut kinds: Vec<TokenType> = Vec::new();
            kinds.push(TokenType::Slash);
            kinds.push(TokenType::Star);
            let ghost tv = kinds@;
            if !consumer.match_token_type(kinds) {
                proof {
                    if spec_check(toks, cur, TokenType::Slash) {
                        assert(spec_check(toks, cur, tv[0]));
                    }
                    if spec_check(toks, cur, TokenType::Star) {
                        assert(spec_check(toks, cur, tv[1]));
                    }
                }
                return Ok(expression);
            }
            proof {
                let k = choose|k: int| 0 <= k < tv.len() && spec_check(toks, cur, tv[k]);
                assert(self.tokens@[cur]@ == toks[cur]);
            }
            let operator = self.tokens[consumer.current_index - 1].clone();
            let right = match self.unary(consumer) {
                Ok(e) => e,
                Err(pe) => {
                    return Err(pe);
                },
            };
            expression = Expression::binary_from(expression, operator, right);
        }
    }

    #[verifier::rlimit(100)]
    #[verifier::loop_isolation(false)]
    fn term(&self, consumer: &mut Consumer) -> (r: Result<Expression, ParsingError>)
        requires
            old(consumer).tokens@ == self.tokens@,
            old(consumer).wf(),
        ensures
            final(consumer).tokens == old(consumer).tokens,
            final(consumer).wf(),
            ({
                let m = spec_term(old(consumer).toks(), old(consumer).current_index as int);
                match r {
                    Ok(e) => (m matches Ok(ok) && e@ == ok.e && final(consumer).current_index
                        as int == ok.next && old(consumer).current_index < final(consumer).current_index),
                    Err(pe) => (m matches Err(mpe) && pe == mpe),
                }
            }),
        decreases self.tokens@.len() - consumer.current_index, 7int,
    {
        let ghost toks = consumer.toks();
        let ghost i0 = consumer.current_index as int;
        let ghost tref = consumer.tokens;

        let mut expression = match self.factor(consumer) {
            Ok(e) => e,
            Err(pe) => {
                return Err(pe);
            },
        };
        let ghost target = spec_term(toks, i0);
        proof {
            assert(target == spec_term_tail(toks, consumer.current_index as int, expression@));
        }

        loop
            invariant
                consumer.tokens == tref,
                consumer.tokens@ == self.tokens@,
                consumer.toks() == toks,
                consumer.wf(),
                i0 < consumer.current_index,
                target == spec_term(toks, i0),
                spec_term_tail(toks, consumer.current_index as int, expression@) == target,
            decreases self.tokens@.len() - consumer.current_index,
        {
            let ghost cur = consumer.current_index as int;
            let mut kinds: Vec<TokenType> = Vec::new();
            kinds.push(TokenType::Minus);
            kinds.push(TokenType::Plus);
            let ghost tv = kinds@;
            if !consumer.match_token_type(kinds) {
                proof {
                    if spec_check(toks, cur, TokenType::Minus) {
                        assert(spec_check(toks, cur, tv[0]));
                    }
                    if spec_check(toks, cur, TokenType::Plus) {
                        assert(spec_check(toks, cur, tv[1]));
                    }
                }
                return Ok(expression);
            }
            proof {
                let k = choose|k: int| 0 <= k < tv.len() && spec_check(toks, cur, tv[k]);
                assert(self.tokens@[cur]@ == toks[cur]);
            }
            let operator = self.tokens[consumer.current_index - 1].clone();
            let right = match self.factor(consumer) {
                Ok(e) => e,
                Err(pe) => {
                    return Err(pe);
                },
            };
            expression = Expression::binary_from(expression, operator, right);
        }
    }

    #[verifier::rlimit(100)]
    #[verifier::loop_isolation(false)]
    fn comparison(&self, consumer: &mut Consumer) -> (r: Result<Expression, ParsingError>)
        requires
            old(consumer).tokens@ == self.tokens@,
            old(consumer).wf(),
        ensures
            final(consumer).tokens == old(consumer).tokens,
            final(consumer).wf(),
            ({
                let m = spec_comparison(old(consumer).toks(), old(consumer).current_index as int);
                match r {
                    Ok(e) => (m matches Ok(ok) && e@ == ok.e && final(consumer).current_index
                        as int == ok.next && old(consumer).current_index < final(consumer).current_index),
                    Err(pe) => (m matches Err(mpe) && pe == mpe),
                }
            }),
        decreases self.tokens@.len() - consumer.current_index, 9int,
    {
        let ghost toks = consumer.toks();
        let ghost i0 = consumer.current_index as int;
        let ghost tref = consumer.tokens;

        let mut expression = match self.term(consumer) {
            Ok(e) => e,
            Err(pe) => {
                return Err(pe);
            },
        };
        let ghost target = spec_comparison(toks, i0);
        proof {
            assert(target == spec_comparison_tail(
                toks,
                consumer.current_index as int,
                expression@,
            ));
        }

        loop
            invariant
                consumer.tokens == tref,
                consumer.tokens@ == self.tokens@,
                consumer.toks() == toks,
                consumer.wf(),
                i0 < consumer.current_index,
                target == spec_comparison(toks, i0),
                spec_comparison_tail(toks, consumer.current_index as int, expression@) == target,
            decreases self.tokens@.len() - consumer.current_index,
        {
            let ghost cur = consumer.current_index as int;
            let mut kinds: Vec<TokenType> = Vec::new();
            kinds.push(TokenType::Greater);
            kinds.push(TokenType::GreaterEqual);
            kinds.push(TokenType::Less);
            kinds.push(TokenType::LessEqual);
            let ghost tv = kinds@;
            if !consumer.match_token_type(kinds) {
                proof {
                    if spec_check(toks, cur, TokenType::Greater) {
                        assert(spec_check(toks, cur, tv[0]));
                    }
                    if spec_check(toks, cur, TokenType::GreaterEqual) {
                        assert(spec_check(toks, cur, tv[1]));
                    }
                    if spec_check(toks, cur, TokenType::Less) {
                        assert(spec_check(toks, cur, tv[2]));
                    }
                    if spec_check(toks, cur, TokenType::LessEqual) {
                        assert(spec_check(toks, cur, tv[3]));
                    }
                }
                return Ok(expression);
            }
            proof {
                let k = choose|k: int| 0 <= k < tv.len() && spec_check(toks, cur, tv[k]);
                assert(self.tokens@[cur]@ == toks[cur]);
            }
            let operator = self.tokens[consumer.current_index - 1].clone();
            let right = match self.term(consumer) {
                Ok(e) => e,
                Err(pe) => {
                    return Err(pe);
                },
            };
            expression = Expression::binary_from(expression, operator, right);
        }
    }

    #[verifier::rlimit(100)]
    #[verifier::loop_isolation(false)]
    fn equality(&self, consumer: &mut Consumer) -> (r: Result<Expression, ParsingError>)
        requires
            old(consumer).tokens@ == self.tokens@,
            old(consumer).wf(),
        ensures
            final(consumer).tokens == old(consumer).tokens,
            final(consumer).wf(),
            ({
                let m = spec_equality(old(consumer).toks(), old(consumer).current_index as int);
                match r {
                    Ok(e) => (m matches Ok(ok) && e@ == ok.e && final(consumer).current_index
                        as int == ok.next && old(consumer).current_index < final(consumer).current_index),
                    Err(pe) => (m matches Err(mpe) && pe == mpe),
                }
            }),
        decreases self.tokens@.len() - consumer.current_index, 11int,
    {
        let ghost toks = consumer.toks();
        let ghost i0 = consumer.current_index as int;
        let ghost tref = consumer.tokens;

        let mut expression = match self.comparison(consumer) {
            Ok(e) => e,
            Err(pe) => {
                return Err(pe);
            },
        };
        let ghost target = spec_equality(toks, i0);
        proof {
            assert(target == spec_equality_tail(
                toks,
                consumer.current_index as int,
                expression@,
            ));
        }

        loop
            invariant
                consumer.tokens == tref,
                consumer.tokens@ == self.tokens@,
                consumer.toks() == toks,
                consumer.wf(),
                i0 < consumer.current_index,
                target == spec_equality(toks, i0),
                spec_equality_tail(toks, consumer.current_index as int, expression@) == target,
            decreases self.tokens@.len() - consumer.current_index,
        {
            let ghost cur = consumer.current_index as int;
            let mut kinds: Vec<TokenType> = Vec::new();
            kinds.push(TokenType::BangEqual);
            kinds.push(TokenType::EqualEqual);
            let ghost tv = kinds@;
            if !consumer.match_token_type(kinds) {
                proof {
                    if spec_check(toks, cur, TokenType::BangEqual) {
                        assert(spec_check(toks, cur, tv[0]));
                    }
                    if spec_check(toks, cur, TokenType::EqualEqual) {
                        assert(spec_check(toks, cur, tv[1]));
                    }
                }
                return Ok(expression);
            }
            proof {
                let k = choose|k: int| 0 <= k < tv.len() && spec_check(toks, cur, tv[k]);
                assert(self.tokens@[cur]@ == toks[cur]);
            }
            let operator = self.tokens[consumer.current_index - 1].clone();
            let right = match self.comparison(consumer) {
                Ok(e) => e,
                Err(pe) => {
                    return Err(pe);
                },
            };
            expression = Expression::binary_from(expression, operator, right);
        }
    }

    fn expression(&self, consumer: &mut Consumer) -> (r: Result<Expression, ParsingError>)
        requires
            old(consumer).tokens@ == self.tokens@,
            old(consumer).wf(),
        ensures
            final(consumer).tokens == old(consumer).tokens,
            final(consumer).wf(),
            ({
                let m = spec_expression(old(consumer).toks(), old(consumer).current_index as int);
                match r {
                    Ok(e) => (m matches Ok(ok) && e@ == ok.e && final(consumer).current_index
                        as int == ok.next && old(consumer).current_index < final(consumer).current_index),
                    Err(pe) => (m matches Err(mpe) && pe == mpe),
                }
            }),
        decreases self.tokens@.len() - consumer.current_index, 12int,
    {
        self.equality(consumer)
    }

    /// Parses the whole input as one expression, as the parse and
    /// evaluate modes do. The tree, or the first structural error, is
    /// exactly what the grammar model yields from the first token.
    pub fn parse_ast(&self) -> (r: Result<Expression, ParsingError>)
        requires
            spec_tokens_wf(self.toks()),
        ensures
            ({
                let m = spec_expression(self.toks(), 0);
                match r {
                    Ok(e) => (m matches Ok(ok) && e@ == ok.e),
                    Err(pe) => (m matches Err(mpe) && pe == mpe),
                }
            }),
    {
        let mut consumer = Consumer::new(&self.tokens);
        self.expression(&mut consumer)
    }

    #[verifier::rlimit(100)]
    fn statement(&self, consumer: &mut Consumer) -> (r: Result<Statement, ParsingError>)
        requires
            old(consumer).tokens@ == self.tokens@,
            old(consumer).wf(),
        ensures
            final(consumer).tokens == old(consumer).tokens,
            final(consumer).wf(),
            ({
                let m = spec_statement(old(consumer).toks(), old(consumer).current_index as int);
                match r {
                    Ok(s) => (m matches Ok(ok) && s@ == ok.stmt && final(consumer).current_index
                        as int == ok.next && old(consumer).current_index < final(consumer).current_index),
                    Err(pe) => (m matches Err(mpe) && pe == mpe),
                }
            }),
        decreases self.tokens@.len() - consumer.current_index, 13int,
    {
        let ghost toks = consumer.toks();
        let ghost i0 = consumer.current_index as int;

        let mut kinds: Vec<TokenType> = Vec::new();
        kinds.push(TokenType::Print);
        let ghost tv = kinds@;
        if consumer.match_token_type(kinds) {
            proof {
                let k = choose|k: int| 0 <= k < tv.len() && spec_check(toks, i0, tv[k]);
            }
            let inner = match self.expression(consumer) {
                Ok(e) => e,
                Err(pe) => {
                    return Err(pe);
                },
            };
            return match consumer.consume(TokenType::Semicolon, "Expect ';' after value.") {
                Ok(_) => Ok(Statement::PrintStmt { expression: inner }),
                Err(pe) => Err(pe),
            };
        }
        proof {
            if spec_check(toks, i0, TokenType::Print) {
                assert(spec_check(toks, i0, tv[0]));
            }
        }

        let inner = match self.expression(consumer) {
            Ok(e) => e,
            Err(pe) => {
                return Err(pe);
            },
        };
        match consumer.consume(TokenType::Semicolon, "Expect ';' after expression.") {
            Ok(_) => Ok(Statement::ExpressionStmt { expression: inner }),
            Err(pe) => Err(pe),
        }
    }

    /// Parses the whole input as a sequence of statements, one per
    /// iteration until the terminal token, as the interpret mode does.
    pub fn parse(&self) -> (r: Result<Vec<Statement>, ParsingError>)
        requires
            spec_tokens_wf(self.toks()),
        ensures
            ({
                let m = spec_statements(self.toks(), 0);
                match r {
                    Ok(statements) => (m matches Ok(ms) && statements@.map_values(
                        |s: Statement| s@,
                    ) == ms),
                    Err(pe) => (m matches Err(mpe) && pe == mpe),
                }
            }),
    {
        let ghost toks = self.toks();
        let mut statements: Vec<Statement> = Vec::new();
        let mut consumer = Consumer::new(&self.tokens);

        while !consumer.is_at_end()
            invariant
                toks == self.toks(),
                spec_tokens_wf(toks),
                consumer.tokens@ == self.tokens@,
                consumer.toks() == toks,
                consumer.wf(),
                ({
                    let rest = spec_statements(toks, consumer.current_index as int);
                    match rest {
                        Ok(ms) => spec_statements(toks, 0) == Ok::<Seq<StmtV>, ParsingError>(
                            statements@.map_values(|s: Statement| s@) + ms,
                        ),
                        Err(pe) => spec_statements(toks, 0) == Err::<Seq<StmtV>, ParsingError>(
                            pe,
                        ),
                    }
                }),
            decreases toks.len() - consumer.current_index,
        {
            let ghost cur = consumer.current_index as int;
            let ghost stmts0 = statements@;
            match self.statement(&mut consumer) {
                Ok(statement) => {
                    statements.push(statement);
                    proof {
                        assert(statements@.map_values(|s: Statement| s@) =~= stmts0.map_values(
                            |s: Statement| s@,
                        ) + seq![statement@]);
                        let rest0 = spec_statements(toks, cur);
                        let rest1 = spec_statements(toks, consumer.current_index as int);
                        if rest1 is Ok {
                            assert(stmts0.map_values(|s: Statement| s@) + (seq![statement@]
                                + rest1->Ok_0) =~= statements@.map_values(|s: Statement| s@)
                                + rest1->Ok_0);
                        }
                    }
                },
                Err(error) => {
                    return Err(error);
                },
            }
        }

        proof {
            assert(statements@.map_values(|s: Statement| s@) + Seq::<StmtV>::empty()
                =~= statements@.map_values(|s: Statement| s@));
        }
        Ok(statements)
    }
}

} // verus!
