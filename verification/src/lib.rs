//! Front end and evaluator of a small expression-oriented scripting
//! language: a scanner that turns source text into tokens, a
//! recursive-descent parser that builds an abstract syntax tree, and a
//! tree-walking evaluator and interpreter over that tree.

pub mod caret;
pub mod evaluator;
pub mod expression;
pub mod interpreter;
pub mod numeric;
pub mod parser;
pub mod scanner;
pub mod string_util;
pub mod token;

use vstd::prelude::*;
use crate::expression::ExprV;
use crate::expression::spec_expr_text;
use crate::parser::spec_expression;
use crate::parser::spec_tokens_wf;
use crate::parser::ParseOk;
use crate::parser::ParsingError;
use crate::scanner::ident_run_end;
use crate::scanner::lemma_rest_payloads;
use crate::scanner::lemma_terminal_last_and_unique;
use crate::scanner::spec_scan;
use crate::scanner::spec_scan_rest;
use crate::scanner::spec_scan_token;
use crate::token::TokenDataV;
use crate::token::TokenType;
use crate::token::TokenV;

verus! {

/// Law: the token sequence of every scan is well-formed input for the
/// parser — the one terminal token stands last, and every literal token
/// carries the payload its kind promises — so the scanner's output
/// always meets the parser's precondition.
pub proof fn lemma_scan_feeds_parser(src: Seq<char>)
    ensures
        spec_tokens_wf(spec_scan(src).tokens),
{
    lemma_terminal_last_and_unique(src);
    lemma_rest_payloads(src, 0, 1);
}

/// A source text that is one keyword lexeme among `true`, `false` and
/// `nil` scans to that keyword's token and the terminal.
proof fn lemma_keyword_source_scan(src: Seq<char>, kind: TokenType)
    requires
        (src == "true"@ && kind == TokenType::True) || (src == "false"@ && kind
            == TokenType::False) || (src == "nil"@ && kind == TokenType::Nil),
    ensures
        spec_scan(src).errors.len() == 0,
        spec_scan(src).tokens =~= seq![
            TokenV {
                line: 1,
                token_type: kind,
                token_data: TokenDataV::Reserved { lexeme: src },
            },
            TokenV { line: 1, token_type: TokenType::Eof, token_data: TokenDataV::Terminal },
        ],
{
    reveal_strlit("and");
    reveal_strlit("class");
    reveal_strlit("else");
    reveal_strlit("false");
    reveal_strlit("for");
    reveal_strlit("fun");
    reveal_strlit("if");
    reveal_strlit("nil");
    reveal_strlit("or");
    reveal_strlit("print");
    reveal_strlit("return");
    reveal_strlit("super");
    reveal_strlit("this");
    reveal_strlit("true");
    reveal_strlit("var");
    reveal_strlit("while");

    let n = src.len() as int;
    assert(ident_run_end(src, n) == n) by {
        reveal_with_fuel(ident_run_end, 1);
    }
    if src == "true"@ {
        assert(ident_run_end(src, 1) == n) by {
            reveal_with_fuel(ident_run_end, 5);
        }
    } else if src == "false"@ {
        assert(ident_run_end(src, 1) == n) by {
            reveal_with_fuel(ident_run_end, 6);
        }
    } else {
        assert(ident_run_end(src, 1) == n) by {
            reveal_with_fuel(ident_run_end, 4);
        }
    }
    assert(src.subrange(0, n) =~= src);

    let step = spec_scan_token(src, 0, 1);
    assert(step.outcome == (crate::scanner::ScanOutcome::Tok {
        t: TokenV { line: 1, token_type: kind, token_data: TokenDataV::Reserved { lexeme: src } },
    }) && step.next == n && step.line == 1);

    assert(spec_scan_rest(src, n, 1).tokens =~= Seq::<TokenV>::empty() && spec_scan_rest(
        src,
        n,
        1,
    ).errors =~= Seq::<crate::scanner::ScanningErrorV>::empty() && spec_scan_rest(src, n, 1).line
        == 1) by {
        reveal_with_fuel(spec_scan_rest, 1);
    }
    assert(spec_scan_rest(src, 0, 1).tokens =~= seq![
        TokenV { line: 1, token_type: kind, token_data: TokenDataV::Reserved { lexeme: src } },
    ] && spec_scan_rest(src, 0, 1).errors.len() == 0 && spec_scan_rest(src, 0, 1).line == 1) by {
        reveal_with_fuel(spec_scan_rest, 2);
    }
}

/// A token sequence of one keyword literal token and the terminal parses
/// to the literal expression carrying the keyword's text.
proof fn lemma_keyword_tokens_parse(toks: Seq<TokenV>, kind: TokenType, value: Seq<char>)
    requires
        (kind == TokenType::True && value == "true"@) || (kind == TokenType::False && value
            == "false"@) || (kind == TokenType::Nil && value == "nil"@),
        toks =~= seq![
            TokenV {
                line: 1,
                token_type: kind,
                token_data: TokenDataV::Reserved { lexeme: value },
            },
            TokenV { line: 1, token_type: TokenType::Eof, token_data: TokenDataV::Terminal },
        ],
    ensures
        spec_expression(toks, 0) == Ok::<ParseOk, ParsingError>(
            ParseOk { e: ExprV::StringLiteral { value }, next: 1 },
        ),
{
    assert(crate::parser::spec_primary(toks, 0) == Ok::<ParseOk, ParsingError>(
        ParseOk { e: ExprV::StringLiteral { value }, next: 1 },
    ));
    assert(crate::parser::spec_unary(toks, 0) == Ok::<ParseOk, ParsingError>(
        ParseOk { e: ExprV::StringLiteral { value }, next: 1 },
    ));
    assert(crate::parser::spec_factor_tail(toks, 1, ExprV::StringLiteral { value }) == Ok::<
        ParseOk,
        ParsingError,
    >(ParseOk { e: ExprV::StringLiteral { value }, next: 1 }));
    assert(crate::parser::spec_factor(toks, 0) == Ok::<ParseOk, ParsingError>(
        ParseOk { e: ExprV::StringLiteral { value }, next: 1 },
    ));
    assert(crate::parser::spec_term_tail(toks, 1, ExprV::StringLiteral { value }) == Ok::<
        ParseOk,
        ParsingError,
    >(ParseOk { e: ExprV::StringLiteral { value }, next: 1 }));
    assert(crate::parser::spec_term(toks, 0) == Ok::<ParseOk, ParsingError>(
        ParseOk { e: ExprV::StringLiteral { value }, next: 1 },
    ));
    assert(crate::parser::spec_comparison_tail(toks, 1, ExprV::StringLiteral { value }) == Ok::<
        ParseOk,
        ParsingError,
    >(ParseOk { e: ExprV::StringLiteral { value }, next: 1 }));
    assert(crate::parser::spec_comparison(toks, 0) == Ok::<ParseOk, ParsingError>(
        ParseOk { e: ExprV::StringLiteral { value }, next: 1 },
    ));
    assert(crate::parser::spec_equality_tail(toks, 1, ExprV::StringLiteral { value }) == Ok::<
        ParseOk,
        ParsingError,
    >(ParseOk { e: ExprV::StringLiteral { value }, next: 1 }));
    assert(crate::parser::spec_equality(toks, 0) == Ok::<ParseOk, ParsingError>(
        ParseOk { e: ExprV::StringLiteral { value }, next: 1 },
    ));
}

/// Law: rendering a keyword literal expression, scanning and re-parsing
/// the rendering, and rendering the parsed tree again gives the
/// identical text — the round trip is idempotent for the literals
/// `true`, `false` and `nil`.
pub proof fn lemma_keyword_literal_round_trip(value: Seq<char>)
    requires
        value == "true"@ || value == "false"@ || value == "nil"@,
    ensures
        ({
            let rendered = spec_expr_text(ExprV::StringLiteral { value });
            &&& rendered == value
            &&& spec_scan(rendered).errors.len() == 0
            &&& spec_expression(spec_scan(rendered).tokens, 0) matches Ok(ok) && spec_expr_text(
                ok.e,
            ) == rendered
        }),
{
    reveal_strlit("true");
    reveal_strlit("false");
    reveal_strlit("nil");
    let rendered = spec_expr_text(ExprV::StringLiteral { value });
    assert(rendered == value);
    let kind = if value == "true"@ {
        TokenType::True
    } else if value == "false"@ {
        TokenType::False
    } else {
        TokenType::Nil
    };
    lemma_keyword_source_scan(value, kind);
    lemma_keyword_tokens_parse(spec_scan(value).tokens, kind, value);
}

} // verus!
