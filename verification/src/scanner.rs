//! The scanner: it reads the source text left to right and produces the
//! ordered sequence of tokens, together with every lexical error it met
//! on the way — an error never stops the scan.
//!
//! What scanning yields is stated by a functional model over the
//! characters of the source (`spec_scan`), and the executable scanner is
//! proved to return exactly the model's tokens and errors.

use vstd::prelude::*;
use crate::caret::Caret;
use crate::numeric::Number;
use crate::numeric::all_digit_chars;
use crate::numeric::double_of_text;
use crate::numeric::is_digit_char;
use crate::numeric::is_number_lexeme;
use crate::numeric::parse_double;
use crate::string_util::join_lines;
use crate::string_util::push_char;
use crate::string_util::spec_join_lines;
use crate::string_util::spec_nat_text;
use crate::string_util::str_eq;
use crate::string_util::usize_text;
use crate::token::Token;
use crate::token::TokenData;
use crate::token::TokenDataV;
use crate::token::TokenType;
use crate::token::TokenV;
use crate::token::spec_token_text;

verus! {

//// Scanning errors

/// A lexical error: an unexpected character, or a string literal that is
/// still open at the end of the input.
#[derive(Debug, Clone)]
pub enum ScanningError {
    UnexpectedCharacter { line: usize, character: char },
    UnterminatedString { line: usize, input: String },
}

/// The mathematical image of a lexical error.
pub enum ScanningErrorV {
    UnexpectedCharacter { line: nat, character: char },
    UnterminatedString { line: nat, input: Seq<char> },
}

impl View for ScanningError {
    type V = ScanningErrorV;

    open spec fn view(&self) -> ScanningErrorV {
        match self {
            ScanningError::UnexpectedCharacter { line, character } => {
                ScanningErrorV::UnexpectedCharacter { line: *line as nat, character: *character }
            },
            ScanningError::UnterminatedString { line, input } => {
                ScanningErrorV::UnterminatedString { line: *line as nat, input: input@ }
            },
        }
    }
}

/// The one-line diagnostic for a lexical error.
pub open spec fn spec_error_text(e: ScanningErrorV) -> Seq<char> {
    match e {
        ScanningErrorV::UnexpectedCharacter { line, character } => "[line "@ + spec_nat_text(line)
            + "] Error: Unexpected character: "@ + seq![character],
        ScanningErrorV::UnterminatedString { line, input } => "[line "@ + spec_nat_text(line)
            + "] Error: Unterminated string."@,
    }
}

impl ScanningError {
    /// The one-line diagnostic for this error.
    pub fn message(&self) -> (r: String)
        ensures
            r@ == spec_error_text(self@),
    {
        match self {
            ScanningError::UnexpectedCharacter { line, character } => {
                let mut out = String::from_str("[line ");
                out.append(usize_text(*line).as_str());
                out.append("] Error: Unexpected character: ");
                push_char(&mut out, *character);
                proof {
                    assert(out@ =~= spec_error_text(self@));
                }
                out
            },
            ScanningError::UnterminatedString { line, input: _ } => {
                let mut out = String::from_str("[line ");
                out.append(usize_text(*line).as_str());
                out.append("] Error: Unterminated string.");
                proof {
                    assert(out@ =~= spec_error_text(self@));
                }
                out
            },
        }
    }
}

//// The functional model of one scanning step

/// What one step of the scanner produced: a token, or an error.
pub enum ScanOutcome {
    Tok { t: TokenV },
    Fail { e: ScanningErrorV },
}

/// One step of the scanner: its outcome, the index of the next unread
/// character, and the line it then stands on.
pub struct ScanStep {
    pub outcome: ScanOutcome,
    pub next: int,
    pub line: int,
}

pub open spec fn is_alpha_char(c: char) -> bool {
    ('a' <= c && c <= 'z') || ('A' <= c && c <= 'Z') || c == '_'
}

pub open spec fn is_alnum_char(c: char) -> bool {
    is_alpha_char(c) || is_digit_char(c)
}

/// The first index at or after `i` holding no decimal digit.
pub open spec fn digit_run_end(src: Seq<char>, i: int) -> int
    decreases src.len() - i,
{
    if 0 <= i < src.len() && is_digit_char(src[i]) {
        digit_run_end(src, i + 1)
    } else {
        i
    }
}

/// The first index at or after `i` holding no letter, digit or
/// underscore.
pub open spec fn ident_run_end(src: Seq<char>, i: int) -> int
    decreases src.len() - i,
{
    if 0 <= i < src.len() && is_alnum_char(src[i]) {
        ident_run_end(src, i + 1)
    } else {
        i
    }
}

/// The first index at or after `i` holding a newline, or the end of the
/// input.
pub open spec fn comment_run_end(src: Seq<char>, i: int) -> int
    decreases src.len() - i,
{
    if 0 <= i < src.len() && src[i] != '\n' {
        comment_run_end(src, i + 1)
    } else if 0 <= i < src.len() {
        i
    } else {
        src.len() as int
    }
}

/// Where a string literal's body ends: the index of the closing quote,
/// or the end of the input, together with the line reached after the
/// newlines passed on the way.
pub struct StringScan {
    pub close: int,
    pub line: int,
}

pub open spec fn string_scan(src: Seq<char>, i: int, line: int) -> StringScan
    decreases src.len() - i,
{
    if !(0 <= i < src.len()) {
        StringScan { close: src.len() as int, line }
    } else if src[i] == '"' {
        StringScan { close: i, line }
    } else if src[i] == '\n' {
        string_scan(src, i + 1, line + 1)
    } else {
        string_scan(src, i + 1, line)
    }
}

/// A one-lexeme reserved token covering `src[start .. end]`.
pub open spec fn reserved_step(
    src: Seq<char>,
    start: int,
    end: int,
    line: int,
    kind: TokenType,
) -> ScanStep {
    ScanStep {
        outcome: ScanOutcome::Tok {
            t: TokenV {
                line: line as nat,
                token_type: kind,
                token_data: TokenDataV::Reserved { lexeme: src.subrange(start, end) },
            },
        },
        next: end,
        line,
    }
}

/// A one- or two-character operator, by one character of lookahead.
pub open spec fn lookahead_step(
    src: Seq<char>,
    start: int,
    line: int,
    two: TokenType,
    one: TokenType,
) -> ScanStep {
    if start + 1 < src.len() && src[start + 1] == '=' {
        reserved_step(src, start, start + 2, line, two)
    } else {
        reserved_step(src, start, start + 1, line, one)
    }
}

/// The token kind of a keyword lexeme; every other lexeme is an
/// identifier.
pub open spec fn spec_keyword_kind(s: Seq<char>) -> TokenType {
    if s == "and"@ {
        TokenType::And
    } else if s == "class"@ {
        TokenType::Class
    } else if s == "else"@ {
        TokenType::Else
    } else if s == "false"@ {
        TokenType::False
    } else if s == "for"@ {
        TokenType::For
    } else if s == "fun"@ {
        TokenType::Fun
    } else if s == "if"@ {
        TokenType::If
    } else if s == "nil"@ {
        TokenType::Nil
    } else if s == "or"@ {
        TokenType::Or
    } else if s == "print"@ {
        TokenType::Print
    } else if s == "return"@ {
        TokenType::Return
    } else if s == "super"@ {
        TokenType::Super
    } else if s == "this"@ {
        TokenType::This
    } else if s == "true"@ {
        TokenType::True
    } else if s == "var"@ {
        TokenType::Var
    } else if s == "while"@ {
        TokenType::While
    } else {
        TokenType::Identifier
    }
}

/// One step of the scanner, dispatching on the character at `start`.
pub open spec fn spec_scan_token(src: Seq<char>, start: int, line: int) -> ScanStep
    recommends
        0 <= start < src.len(),
{
    let c = src[start];
    if c == '(' {
        reserved_step(src, start, start + 1, line, TokenType::LeftParen)
    } else if c == ')' {
        reserved_step(src, start, start + 1, line, TokenType::RightParen)
    } else if c == '{' {
        reserved_step(src, start, start + 1, line, TokenType::LeftBrace)
    } else if c == '}' {
        reserved_step(src, start, start + 1, line, TokenType::RightBrace)
    } else if c == ',' {
        reserved_step(src, start, start + 1, line, TokenType::Comma)
    } else if c == '.' {
        reserved_step(src, start, start + 1, line, TokenType::Dot)
    } else if c == '-' {
        reserved_step(src, start, start + 1, line, TokenType::Minus)
    } else if c == '+' {
        reserved_step(src, start, start + 1, line, TokenType::Plus)
    } else if c == ';' {
        reserved_step(src, start, start + 1, line, TokenType::Semicolon)
    } else if c == '*' {
        reserved_step(src, start, start + 1, line, TokenType::Star)
    } else if c == '!' {
        lookahead_step(src, start, line, TokenType::BangEqual, TokenType::Bang)
    } else if c == '=' {
        lookahead_step(src, start, line, TokenType::EqualEqual, TokenType::Equal)
    } else if c == '<' {
        lookahead_step(src, start, line, TokenType::LessEqual, TokenType::Less)
    } else if c == '>' {
        lookahead_step(src, start, line, TokenType::GreaterEqual, TokenType::Greater)
    } else if c == '/' && start + 1 < src.len() && src[start + 1] == '/' {
        ScanStep {
            outcome: ScanOutcome::Tok {
                t: TokenV {
                    line: line as nat,
                    token_type: TokenType::Comment,
                    token_data: TokenDataV::Comment,
                },
            },
            next: comment_run_end(src, start + 2),
            line,
        }
    } else if c == '/' {
        reserved_step(src, start, start + 1, line, TokenType::Slash)
    } else if c == ' ' || c == '\r' || c == '\t' {
        reserved_step(src, start, start + 1, line, TokenType::Whitespace)
    } else if c == '\n' {
        reserved_step(src, start, start + 1, line, TokenType::EndOfLine)
    } else if c == '"' {
        let body = string_scan(src, start + 1, line);
        if body.close >= src.len() {
            ScanStep {
                outcome: ScanOutcome::Fail {
                    e: ScanningErrorV::UnterminatedString {
                        line: body.line as nat,
                        input: src.subrange(start, src.len() as int),
                    },
                },
                next: src.len() as int,
                line: body.line,
            }
        } else {
            ScanStep {
                outcome: ScanOutcome::Tok {
                    t: TokenV {
                        line: body.line as nat,
                        token_type: TokenType::String,
                        token_data: TokenDataV::StringLiteral {
                            lexeme: src.subrange(start, body.close + 1),
                            literal: src.subrange(start + 1, body.close),
                        },
                    },
                },
                next: body.close + 1,
                line: body.line,
            }
        }
    } else if is_digit_char(c) {
        let whole_end = digit_run_end(src, start + 1);
        let end = if whole_end < src.len() && src[whole_end] == '.' && whole_end + 1 < src.len()
            && is_digit_char(src[whole_end + 1]) {
            digit_run_end(src, whole_end + 1)
        } else {
            whole_end
        };
        let lexeme = src.subrange(start, end);
        ScanStep {
            outcome: ScanOutcome::Tok {
                t: TokenV {
                    line: line as nat,
                    token_type: TokenType::Number,
                    token_data: TokenDataV::NumericLiteral {
                        lexeme,
                        literal: double_of_text(lexeme).unwrap(),
                    },
                },
            },
            next: end,
            line,
        }
    } else if is_alpha_char(c) {
        let end = ident_run_end(src, start + 1);
        reserved_step(src, start, end, line, spec_keyword_kind(src.subrange(start, end)))
    } else {
        ScanStep {
            outcome: ScanOutcome::Fail {
                e: ScanningErrorV::UnexpectedCharacter { line: line as nat, character: c },
            },
            next: start + 1,
            line,
        }
    }
}

//// The functional model of a whole scan

/// The tokens and errors that scanning yields from a position on, and
/// the line the scan then ends on.
pub struct ScanResultV {
    pub tokens: Seq<TokenV>,
    pub errors: Seq<ScanningErrorV>,
    pub line: int,
}

pub open spec fn spec_scan_rest(src: Seq<char>, i: int, line: int) -> ScanResultV
    decreases src.len() - i,
{
    if !(0 <= i < src.len()) {
        ScanResultV { tokens: Seq::empty(), errors: Seq::empty(), line }
    } else {
        let step = spec_scan_token(src, i, line);
        if step.next <= i || step.next > src.len() {
            ScanResultV { tokens: Seq::empty(), errors: Seq::empty(), line }
        } else {
            match step.outcome {
                ScanOutcome::Tok { t } => {
                    if t.token_type == TokenType::Whitespace || t.token_type
                        == TokenType::Comment {
                        spec_scan_rest(src, step.next, step.line)
                    } else if t.token_type == TokenType::EndOfLine {
                        spec_scan_rest(src, step.next, step.line + 1)
                    } else {
                        let rest = spec_scan_rest(src, step.next, step.line);
                        ScanResultV {
                            tokens: seq![t] + rest.tokens,
                            errors: rest.errors,
                            line: rest.line,
                        }
                    }
                },
                ScanOutcome::Fail { e } => {
                    let rest = spec_scan_rest(src, step.next, step.line);
                    ScanResultV {
                        tokens: rest.tokens,
                        errors: seq![e] + rest.errors,
                        line: rest.line,
                    }
                },
            }
        }
    }
}

/// The whole scan of a source text: the tokens it yields, ended by the
/// one terminal token, and every lexical error met on the way.
pub open spec fn spec_scan(src: Seq<char>) -> ScanResultV {
    let rest = spec_scan_rest(src, 0, 1);
    ScanResultV {
        tokens: rest.tokens.push(
            TokenV {
                line: rest.line as nat,
                token_type: TokenType::Eof,
                token_data: TokenDataV::Terminal,
            },
        ),
        errors: rest.errors,
        line: rest.line,
    }
}

//// Lemmas about the model

pub proof fn lemma_digit_run(src: Seq<char>, i: int)
    requires
        0 <= i <= src.len(),
    ensures
        i <= digit_run_end(src, i) <= src.len(),
        forall|j: int| i <= j < digit_run_end(src, i) ==> is_digit_char(#[trigger] src[j]),
        digit_run_end(src, i) == src.len() || !is_digit_char(src[digit_run_end(src, i)]),
    decreases src.len() - i,
{
    if 0 <= i < src.len() && is_digit_char(src[i]) {
        lemma_digit_run(src, i + 1);
    }
}

pub proof fn lemma_ident_run(src: Seq<char>, i: int)
    requires
        0 <= i <= src.len(),
    ensures
        i <= ident_run_end(src, i) <= src.len(),
        forall|j: int| i <= j < ident_run_end(src, i) ==> is_alnum_char(#[trigger] src[j]),
        ident_run_end(src, i) == src.len() || !is_alnum_char(src[ident_run_end(src, i)]),
    decreases src.len() - i,
{
    if 0 <= i < src.len() && is_alnum_char(src[i]) {
        lemma_ident_run(src, i + 1);
    }
}

pub proof fn lemma_comment_run(src: Seq<char>, i: int)
    requires
        0 <= i <= src.len(),
    ensures
        i <= comment_run_end(src, i) <= src.len(),
        comment_run_end(src, i) == src.len() || src[comment_run_end(src, i)] == '\n',
    decreases src.len() - i,
{
    if 0 <= i < src.len() && src[i] != '\n' {
        lemma_comment_run(src, i + 1);
    }
}

pub proof fn lemma_string_scan(src: Seq<char>, i: int, line: int)
    requires
        0 <= i <= src.len(),
    ensures
        i <= string_scan(src, i, line).close <= src.len(),
        string_scan(src, i, line).close < src.len() ==> src[string_scan(src, i, line).close]
            == '"',
        line <= string_scan(src, i, line).line <= line + (string_scan(src, i, line).close - i),
    decreases src.len() - i,
{
    if 0 <= i < src.len() && src[i] != '"' {
        lemma_string_scan(src, i + 1, if src[i] == '\n' {
            line + 1
        } else {
            line
        });
    }
}

/// One scanning step always moves forward and stays inside the text.
pub proof fn lemma_step_bounds(src: Seq<char>, start: int, line: int)
    requires
        0 <= start < src.len(),
    ensures
        start < spec_scan_token(src, start, line).next <= src.len(),
        spec_scan_token(src, start, line).line >= line,
{
    let c = src[start];
    if c == '/' && start + 1 < src.len() && src[start + 1] == '/' {
        lemma_comment_run(src, start + 2);
    } else if c == '"' && !(c == '(' || c == ')' || c == '{' || c == '}' || c == ',' || c == '.'
        || c == '-' || c == '+' || c == ';' || c == '*' || c == '!' || c == '=' || c == '<' || c
        == '>' || c == '/') {
        lemma_string_scan(src, start + 1, line);
    } else if is_digit_char(c) {
        lemma_digit_run(src, start + 1);
        let whole_end = digit_run_end(src, start + 1);
        if whole_end < src.len() && src[whole_end] == '.' && whole_end + 1 < src.len()
            && is_digit_char(src[whole_end + 1]) {
            lemma_digit_run(src, whole_end + 1);
        }
    } else if is_alpha_char(c) && !is_digit_char(c) {
        lemma_ident_run(src, start + 1);
    }
}

/// No scanning step yields a terminal token, so the terminal appended at
/// the end of the scan is the only one, and stands last.
pub proof fn lemma_rest_no_terminal(src: Seq<char>, i: int, line: int)
    ensures
        forall|k: int|
            0 <= k < spec_scan_rest(src, i, line).tokens.len()
                ==> #[trigger] spec_scan_rest(src, i, line).tokens[k].token_type
                != TokenType::Eof,
    decreases src.len() - i,
{
    if 0 <= i < src.len() {
        let step = spec_scan_token(src, i, line);
        if i < step.next <= src.len() {
            match step.outcome {
                ScanOutcome::Tok { t } => {
                    if t.token_type == TokenType::Whitespace || t.token_type
                        == TokenType::Comment {
                        lemma_rest_no_terminal(src, step.next, step.line);
                    } else if t.token_type == TokenType::EndOfLine {
                        lemma_rest_no_terminal(src, step.next, step.line + 1);
                    } else {
                        lemma_rest_no_terminal(src, step.next, step.line);
                        assert(t.token_type != TokenType::Eof);
                    }
                },
                ScanOutcome::Fail { e } => {
                    lemma_rest_no_terminal(src, step.next, step.line);
                },
            }
        }
    }
}

/// Every token a scanning step yields carries the payload its kind
/// promises: a number token a numeric literal, a string token a string
/// literal.
pub proof fn lemma_rest_payloads(src: Seq<char>, i: int, line: int)
    ensures
        forall|k: int|
            0 <= k < spec_scan_rest(src, i, line).tokens.len() ==> {
                let t = #[trigger] spec_scan_rest(src, i, line).tokens[k];
                &&& (t.token_type == TokenType::Number ==> t.token_data is NumericLiteral)
                &&& (t.token_type == TokenType::String ==> t.token_data is StringLiteral)
            },
    decreases src.len() - i,
{
    if 0 <= i < src.len() {
        let step = spec_scan_token(src, i, line);
        if i < step.next <= src.len() {
            match step.outcome {
                ScanOutcome::Tok { t } => {
                    if t.token_type == TokenType::Whitespace || t.token_type
                        == TokenType::Comment {
                        lemma_rest_payloads(src, step.next, step.line);
                    } else if t.token_type == TokenType::EndOfLine {
                        lemma_rest_payloads(src, step.next, step.line + 1);
                    } else {
                        lemma_rest_payloads(src, step.next, step.line);
                    }
                },
                ScanOutcome::Fail { e } => {
                    lemma_rest_payloads(src, step.next, step.line);
                },
            }
        }
    }
}

/// Law: for every input, the scan's token sequence ends with the
/// terminal token, and holds no other terminal — whether or not lexical
/// errors occurred.
pub proof fn lemma_terminal_last_and_unique(src: Seq<char>)
    ensures
        spec_scan(src).tokens.len() >= 1,
        spec_scan(src).tokens.last().token_type == TokenType::Eof,
        forall|k: int|
            0 <= k < spec_scan(src).tokens.len() - 1
                ==> #[trigger] spec_scan(src).tokens[k].token_type != TokenType::Eof,
{
    lemma_rest_no_terminal(src, 0, 1);
}


//// The executable scanner

/// Whether a lexeme is taken whole, or with its first and last
/// characters (a string literal's quotes) trimmed away.
enum Trim {
    Nothing,
    Both,
}

fn keyword_kind(lexeme: &str) -> (r: TokenType)
    ensures
        r == spec_keyword_kind(lexeme@),
{
    if str_eq(lexeme, "and") {
        TokenType::And
    } else if str_eq(lexeme, "class") {
        TokenType::Class
    } else if str_eq(lexeme, "else") {
        TokenType::Else
    } else if str_eq(lexeme, "false") {
        TokenType::False
    } else if str_eq(lexeme, "for") {
        TokenType::For
    } else if str_eq(lexeme, "fun") {
        TokenType::Fun
    } else if str_eq(lexeme, "if") {
        TokenType::If
    } else if str_eq(lexeme, "nil") {
        TokenType::Nil
    } else if str_eq(lexeme, "or") {
        TokenType::Or
    } else if str_eq(lexeme, "print") {
        TokenType::Print
    } else if str_eq(lexeme, "return") {
        TokenType::Return
    } else if str_eq(lexeme, "super") {
        TokenType::Super
    } else if str_eq(lexeme, "this") {
        TokenType::This
    } else if str_eq(lexeme, "true") {
        TokenType::True
    } else if str_eq(lexeme, "var") {
        TokenType::Var
    } else if str_eq(lexeme, "while") {
        TokenType::While
    } else {
        TokenType::Identifier
    }
}

/// The scanner over one source text. The keyword table of the language
/// is the fixed mapping `spec_keyword_kind`.
pub struct Scanner {
    pub source: String,
}

impl Scanner {
    pub fn new(source: String) -> (r: Self)
        ensures
            r.source@ == source@,
    {
        Scanner { source }
    }

    fn get_current_lexeme<'s>(&'s self, trim: Trim, caret: &Caret) -> (r: &'s str)
        requires
            caret.src() == self.source@,
            match trim {
                Trim::Nothing => caret.start_car <= caret.current_char <= self.source@.len(),
                Trim::Both => caret.start_car + 1 <= caret.current_char - 1 && caret.current_char
                    <= self.source@.len(),
            },
        ensures
            r@ == match trim {
                Trim::Nothing => self.source@.subrange(
                    caret.start_car as int,
                    caret.current_char as int,
                ),
                Trim::Both => self.source@.subrange(caret.start_car + 1, caret.current_char - 1),
            },
    {
        match trim {
            Trim::Nothing => self.source.as_str().substring_char(
                caret.start_car,
                caret.current_char,
            ),
            Trim::Both => self.source.as_str().substring_char(
                caret.start_car + 1,
                caret.current_char - 1,
            ),
        }
    }

    fn build_token(&self, token_type: TokenType, token_data: TokenData, caret: &Caret) -> (r:
        Token)
        ensures
            r@ == (TokenV {
                line: caret.current_line as nat,
                token_type,
                token_data: token_data@,
            }),
    {
        Token::new(caret.current_line, token_type, token_data)
    }

    fn build_terminal_token(&self, caret: &Caret) -> (r: Token)
        ensures
            r@ == (TokenV {
                line: caret.current_line as nat,
                token_type: TokenType::Eof,
                token_data: TokenDataV::Terminal,
            }),
    {
        self.build_token(TokenType::Eof, TokenData::new_terminal(), caret)
    }

    fn build_comment_token(&self, caret: &mut Caret) -> (r: Token)
        requires
            old(caret).src() == self.source@,
            old(caret).wf(),
        ensures
            final(caret).src() == old(caret).src(),
            final(caret).start_car == old(caret).start_car,
            final(caret).current_line == old(caret).current_line,
            final(caret).current_char == comment_run_end(
                old(caret).src(),
                old(caret).current_char as int,
            ),
            final(caret).wf(),
            r@ == (TokenV {
                line: old(caret).current_line as nat,
                token_type: TokenType::Comment,
                token_data: TokenDataV::Comment,
            }),
    {
        let ghost src = caret.src();
        let ghost start0 = caret.start_car;
        let ghost line0 = caret.current_line;
        let ghost cur0 = caret.current_char;
        while caret.peek() != '\n' && !caret.is_at_end_of_input()
            invariant
                caret.src() == src,
                caret.start_car == start0,
                caret.current_line == line0,
                caret.wf(),
                comment_run_end(src, caret.current_char as int) == comment_run_end(
                    src,
                    cur0 as int,
                ),
            decreases src.len() - caret.current_char,
        {
            caret.advance();
        }
        proof {
            lemma_comment_run(src, caret.current_char as int);
        }
        self.build_token(TokenType::Comment, TokenData::Comment, caret)
    }

    fn build_reserved_token(&self, token_type: TokenType, caret: &Caret) -> (r: Token)
        requires
            caret.src() == self.source@,
            caret.start_car <= caret.current_char <= self.source@.len(),
        ensures
            r@ == (TokenV {
                line: caret.current_line as nat,
                token_type,
                token_data: TokenDataV::Reserved {
                    lexeme: caret.src().subrange(
                        caret.start_car as int,
                        caret.current_char as int,
                    ),
                },
            }),
    {
        self.build_token(
            token_type,
            TokenData::new_reserved(self.get_current_lexeme(Trim::Nothing, caret)),
            caret,
        )
    }

    fn build_reserved_token_using_lookahead(
        &self,
        expected_char: char,
        match_token_type: TokenType,
        else_token_type: TokenType,
        caret: &mut Caret,
    ) -> (r: Token)
        requires
            old(caret).src() == self.source@,
            old(caret).wf(),
            old(caret).start_car + 1 == old(caret).current_char,
            expected_char == '=',
        ensures
            final(caret).src() == old(caret).src(),
            final(caret).start_car == old(caret).start_car,
            final(caret).current_line == old(caret).current_line,
            final(caret).wf(),
            ({
                let step = lookahead_step(
                    old(caret).src(),
                    old(caret).start_car as int,
                    old(caret).current_line as int,
                    match_token_type,
                    else_token_type,
                );
                final(caret).current_char as int == step.next && step.outcome
                    == (ScanOutcome::Tok { t: r@ })
            }),
    {
        let is_match = caret.match_char(expected_char);
        self.build_reserved_token(
            if is_match {
                match_token_type
            } else {
                else_token_type
            },
            caret,
        )
    }

    fn build_string_literal_token(&self, caret: &mut Caret) -> (r: Result<Token, ScanningError>)
        requires
            old(caret).src() == self.source@,
            old(caret).wf(),
            old(caret).start_car + 1 == old(caret).current_char,
            old(caret).src().len() < usize::MAX,
        ensures
            final(caret).src() == old(caret).src(),
            final(caret).start_car == old(caret).start_car,
            final(caret).wf(),
            ({
                let body = string_scan(
                    old(caret).src(),
                    old(caret).current_char as int,
                    old(caret).current_line as int,
                );
                final(caret).current_line as int == body.line && if body.close >= old(
                    caret,
                ).src().len() {
                    final(caret).current_char == old(caret).src().len() && (r matches Err(e)
                        && e@ == (ScanningErrorV::UnterminatedString {
                        line: body.line as nat,
                        input: old(caret).src().subrange(
                            old(caret).start_car as int,
                            old(caret).src().len() as int,
                        ),
                    }))
                } else {
                    final(caret).current_char as int == body.close + 1 && (r matches Ok(t) && t@
                        == (TokenV {
                        line: body.line as nat,
                        token_type: TokenType::String,
                        token_data: TokenDataV::StringLiteral {
                            lexeme: old(caret).src().subrange(
                                old(caret).start_car as int,
                                body.close + 1,
                            ),
                            literal: old(caret).src().subrange(
                                old(caret).current_char as int,
                                body.close,
                            ),
                        },
                    }))
                }
            }),
    {
        let ghost src = caret.src();
        let ghost start0 = caret.start_car;
        let ghost line0 = caret.current_line;
        let ghost cur0 = caret.current_char;
        while caret.peek() != '"' && !caret.is_at_end_of_input()
            invariant
                caret.src() == src,
                caret.start_car == start0,
                caret.wf(),
                src.len() < usize::MAX,
                cur0 <= caret.current_char,
                string_scan(src, caret.current_char as int, caret.current_line as int)
                    == string_scan(src, cur0 as int, line0 as int),
            decreases src.len() - caret.current_char,
        {
            if caret.peek() == '\n' {
                caret.current_line = caret.current_line + 1;
            }
            caret.advance();
        }
        proof {
            lemma_string_scan(src, caret.current_char as int, caret.current_line as int);
        }

        if caret.is_at_end_of_input() {
            return Err(
                ScanningError::UnterminatedString {
                    line: caret.current_line,
                    input: String::from_str(self.get_current_lexeme(Trim::Nothing, caret)),
                },
            );
        }

        caret.advance();
        Ok(
            self.build_token(
                TokenType::String,
                TokenData::new_string_literal(
                    self.get_current_lexeme(Trim::Nothing, caret),
                    self.get_current_lexeme(Trim::Both, caret),
                ),
                caret,
            ),
        )
    }

    fn build_numeric_literal_token(&self, caret: &mut Caret) -> (r: Token)
        requires
            old(caret).src() == self.source@,
            old(caret).wf(),
            old(caret).start_car + 1 == old(caret).current_char,
            is_digit_char(old(caret).src()[old(caret).start_car as int]),
        ensures
            final(caret).src() == old(caret).src(),
            final(caret).start_car == old(caret).start_car,
            final(caret).current_line == old(caret).current_line,
            final(caret).wf(),
            ({
                let src = old(caret).src();
                let start = old(caret).start_car as int;
                let whole_end = digit_run_end(src, start + 1);
                let end = if whole_end < src.len() && src[whole_end] == '.' && whole_end + 1
                    < src.len() && is_digit_char(src[whole_end + 1]) {
                    digit_run_end(src, whole_end + 1)
                } else {
                    whole_end
                };
                final(caret).current_char as int == end && r@ == (TokenV {
                    line: old(caret).current_line as nat,
                    token_type: TokenType::Number,
                    token_data: TokenDataV::NumericLiteral {
                        lexeme: src.subrange(start, end),
                        literal: double_of_text(src.subrange(start, end)).unwrap(),
                    },
                })
            }),
    {
        let ghost src = caret.src();
        let ghost start = caret.start_car as int;
        let ghost line0 = caret.current_line;
        let ghost cur0 = caret.current_char;
        loop
            invariant
                caret.src() == src,
                caret.start_car as int == start,
                caret.current_line == line0,
                caret.wf(),
                cur0 <= caret.current_char,
                digit_run_end(src, caret.current_char as int) == digit_run_end(src, start + 1),
            ensures
                caret.src() == src,
                caret.start_car as int == start,
                caret.current_line == line0,
                caret.wf(),
                cur0 <= caret.current_char,
                caret.current_char as int == digit_run_end(src, start + 1),
            decreases src.len() - caret.current_char,
        {
            let p = caret.peek();
            if !('0' <= p && p <= '9') {
                break ;
            }
            caret.advance();
        }
        let ghost whole_end = digit_run_end(src, start + 1);
        proof {
            lemma_digit_run(src, start + 1);
        }

        let dot = caret.peek();
        let after = caret.peek_next();
        if dot == '.' && ('0' <= after && after <= '9') {
            caret.advance();
            loop
                invariant
                    caret.src() == src,
                    caret.start_car as int == start,
                    caret.current_line == line0,
                    caret.wf(),
                    whole_end + 1 <= caret.current_char,
                    digit_run_end(src, caret.current_char as int) == digit_run_end(
                        src,
                        whole_end + 1,
                    ),
                ensures
                    caret.src() == src,
                    caret.start_car as int == start,
                    caret.current_line == line0,
                    caret.wf(),
                    whole_end + 1 <= caret.current_char,
                    caret.current_char as int == digit_run_end(src, whole_end + 1),
                decreases src.len() - caret.current_char,
            {
                let p = caret.peek();
                if !('0' <= p && p <= '9') {
                    break ;
                }
                caret.advance();
            }
            proof {
                lemma_digit_run(src, whole_end + 1);
            }
        }

        let lexeme = self.get_current_lexeme(Trim::Nothing, caret);
        proof {
            let end = caret.current_char as int;
            if end == whole_end {
                assert(all_digit_chars(lexeme@)) by {
                    assert forall|j: int| 0 <= j < lexeme@.len() implies is_digit_char(
                        #[trigger] lexeme@[j],
                    ) by {
                        assert(lexeme@[j] == src[start + j]);
                    }
                }
            } else {
                let k = whole_end - start;
                assert(lexeme@[k] == src[whole_end]);
                assert(all_digit_chars(lexeme@.subrange(0, k))) by {
                    assert forall|j: int| 0 <= j < k implies is_digit_char(
                        #[trigger] lexeme@.subrange(0, k)[j],
                    ) by {
                        assert(lexeme@.subrange(0, k)[j] == src[start + j]);
                    }
                }
                assert(all_digit_chars(lexeme@.subrange(k + 1, lexeme@.len() as int))) by {
                    assert forall|j: int| 0 <= j < lexeme@.len() - (k + 1) implies is_digit_char(
                        #[trigger] lexeme@.subrange(k + 1, lexeme@.len() as int)[j],
                    ) by {
                        assert(lexeme@.subrange(k + 1, lexeme@.len() as int)[j] == src[whole_end
                            + 1 + j]);
                    }
                }
                assert(1 <= k < lexeme@.len() - 1 && lexeme@[k] == '.');
            }
            assert(is_number_lexeme(lexeme@));
        }

        let parsed = parse_double(lexeme);
        match parsed {
            Some(bits) => self.build_token(
                TokenType::Number,
                TokenData::new_numeric_literal(lexeme, Number { bits }),
                caret,
            ),
            None => vstd::pervasive::unreached(),
        }
    }

    fn build_keyword_or_identifier_token(&self, caret: &mut Caret) -> (r: Token)
        requires
            old(caret).src() == self.source@,
            old(caret).wf(),
            old(caret).start_car + 1 == old(caret).current_char,
        ensures
            final(caret).src() == old(caret).src(),
            final(caret).start_car == old(caret).start_car,
            final(caret).current_line == old(caret).current_line,
            final(caret).wf(),
            ({
                let src = old(caret).src();
                let start = old(caret).start_car as int;
                let end = ident_run_end(src, start + 1);
                final(caret).current_char as int == end && r@ == (TokenV {
                    line: old(caret).current_line as nat,
                    token_type: spec_keyword_kind(src.subrange(start, end)),
                    token_data: TokenDataV::Reserved { lexeme: src.subrange(start, end) },
                })
            }),
    {
        let ghost src = caret.src();
        let ghost start = caret.start_car as int;
        let ghost line0 = caret.current_line;
        let ghost cur0 = caret.current_char;
        loop
            invariant
                caret.src() == src,
                caret.start_car as int == start,
                caret.current_line == line0,
                caret.wf(),
                cur0 <= caret.current_char,
                ident_run_end(src, caret.current_char as int) == ident_run_end(src, start + 1),
            ensures
                caret.src() == src,
                caret.start_car as int == start,
                caret.current_line == line0,
                caret.wf(),
                caret.current_char as int == ident_run_end(src, start + 1),
            decreases src.len() - caret.current_char,
        {
            let p = caret.peek();
            let alnum = ('a' <= p && p <= 'z') || ('A' <= p && p <= 'Z') || ('0' <= p && p <= '9')
                || p == '_';
            if !alnum {
                break ;
            }
            caret.advance();
        }
        proof {
            lemma_ident_run(src, start + 1);
        }

        let lexeme = self.get_current_lexeme(Trim::Nothing, caret);
        let token_type = keyword_kind(lexeme);
        self.build_reserved_token(token_type, caret)
    }

    fn build_error(&self, current_char: char, caret: &Caret) -> (r: ScanningError)
        ensures
            r@ == (ScanningErrorV::UnexpectedCharacter {
                line: caret.current_line as nat,
                character: current_char,
            }),
    {
        ScanningError::UnexpectedCharacter { line: caret.current_line, character: current_char }
    }

    fn scan_token(&self, caret: &mut Caret) -> (r: Result<Token, ScanningError>)
        requires
            old(caret).src() == self.source@,
            old(caret).wf(),
            old(caret).start_car == old(caret).current_char,
            old(caret).current_char < old(caret).src().len(),
            old(caret).src().len() < usize::MAX,
        ensures
            final(caret).src() == old(caret).src(),
            final(caret).start_car == old(caret).start_car,
            final(caret).wf(),
            old(caret).current_char < final(caret).current_char,
            ({
                let step = spec_scan_token(
                    old(caret).src(),
                    old(caret).current_char as int,
                    old(caret).current_line as int,
                );
                final(caret).current_char as int == step.next && final(caret).current_line as int
                    == step.line && match r {
                    Ok(t) => step.outcome == (ScanOutcome::Tok { t: t@ }),
                    Err(e) => step.outcome == (ScanOutcome::Fail { e: e@ }),
                }
            }),
    {
        proof {
            lemma_step_bounds(caret.src(), caret.current_char as int, caret.current_line as int);
        }
        let current_char = caret.advance();

        match current_char {
            '(' => Ok(self.build_reserved_token(TokenType::LeftParen, caret)),
            ')' => Ok(self.build_reserved_token(TokenType::RightParen, caret)),
            '{' => Ok(self.build_reserved_token(TokenType::LeftBrace, caret)),
            '}' => Ok(self.build_reserved_token(TokenType::RightBrace, caret)),
            ',' => Ok(self.build_reserved_token(TokenType::Comma, caret)),
            '.' => Ok(self.build_reserved_token(TokenType::Dot, caret)),
            '-' => Ok(self.build_reserved_token(TokenType::Minus, caret)),
            '+' => Ok(self.build_reserved_token(TokenType::Plus, caret)),
            ';' => Ok(self.build_reserved_token(TokenType::Semicolon, caret)),
            '*' => Ok(self.build_reserved_token(TokenType::Star, caret)),
            '!' => Ok(
                self.build_reserved_token_using_lookahead(
                    '=',
                    TokenType::BangEqual,
                    TokenType::Bang,
                    caret,
                ),
            ),
            '=' => Ok(
                self.build_reserved_token_using_lookahead(
                    '=',
                    TokenType::EqualEqual,
                    TokenType::Equal,
                    caret,
                ),
            ),
            '<' => Ok(
                self.build_reserved_token_using_lookahead(
                    '=',
                    TokenType::LessEqual,
                    TokenType::Less,
                    caret,
                ),
            ),
            '>' => Ok(
                self.build_reserved_token_using_lookahead(
                    '=',
                    TokenType::GreaterEqual,
                    TokenType::Greater,
                    caret,
                ),
            ),
            '/' => {
                if caret.match_char('/') {
                    Ok(self.build_comment_token(caret))
                } else {
                    Ok(self.build_reserved_token(TokenType::Slash, caret))
                }
            },
            ' ' | '\r' | '\t' => Ok(self.build_reserved_token(TokenType::Whitespace, caret)),
            '\n' => Ok(self.build_reserved_token(TokenType::EndOfLine, caret)),
            '"' => Ok(self.build_string_literal_token(caret)?),
            '0'..='9' => Ok(self.build_numeric_literal_token(caret)),
            'a'..='z' | 'A'..='Z' | '_' => Ok(self.build_keyword_or_identifier_token(caret)),
            _ => Err(self.build_error(current_char, caret)),
        }
    }
}

//// The scan summary and the whole scan

/// What a failed scan reports: the tokens produced anyway, for
/// diagnostic display, and the collected lexical errors.
#[derive(Debug)]
pub struct ScanningErrorSummary {
    pub tokens: Vec<Token>,
    pub errors: Vec<ScanningError>,
}

/// The rendered token lines of a summary.
pub open spec fn spec_summary_output(s: ScanningErrorSummary) -> Seq<char> {
    spec_join_lines(s.tokens@.map_values(|t: Token| spec_token_text(t@)))
}

/// The rendered error lines of a summary.
pub open spec fn spec_summary_errors(s: ScanningErrorSummary) -> Seq<char> {
    spec_join_lines(s.errors@.map_values(|e: ScanningError| spec_error_text(e@)))
}

impl ScanningErrorSummary {
    pub fn new(tokens: Vec<Token>, errors: Vec<ScanningError>) -> (r: Self)
        ensures
            r.tokens == tokens,
            r.errors == errors,
    {
        ScanningErrorSummary { tokens, errors }
    }

    /// The tokens produced before and between the errors, one rendered
    /// line each.
    pub fn get_output(&self) -> (r: Option<String>)
        ensures
            r matches Some(s) && s@ == spec_summary_output(*self),
    {
        let mut lines: Vec<String> = Vec::new();
        let mut i: usize = 0;
        while i < self.tokens.len()
            invariant
                0 <= i <= self.tokens.len(),
                lines@.len() == i,
                forall|j: int|
                    0 <= j < i ==> (#[trigger] lines@[j])@ == spec_token_text(
                        self.tokens@[j]@,
                    ),
            decreases self.tokens.len() - i,
        {
            lines.push(self.tokens[i].display_text());
            i += 1;
        }
        proof {
            assert(lines.deep_view() =~~= self.tokens@.map_values(
                |t: Token| spec_token_text(t@),
            ));
        }
        Some(join_lines(&lines))
    }

    /// The collected errors, one rendered line each.
    pub fn get_error_details(&self) -> (r: Option<String>)
        ensures
            r matches Some(s) && s@ == spec_summary_errors(*self),
    {
        let mut lines: Vec<String> = Vec::new();
        let mut i: usize = 0;
        while i < self.errors.len()
            invariant
                0 <= i <= self.errors.len(),
                lines@.len() == i,
                forall|j: int|
                    0 <= j < i ==> (#[trigger] lines@[j])@ == spec_error_text(
                        self.errors@[j]@,
                    ),
            decreases self.errors.len() - i,
        {
            lines.push(self.errors[i].message());
            i += 1;
        }
        proof {
            assert(lines.deep_view() =~~= self.errors@.map_values(
                |e: ScanningError| spec_error_text(e@),
            ));
        }
        Some(join_lines(&lines))
    }
}

impl ScanningErrorSummary {
    /// The whole summary on one screen: the error lines first, then the
    /// rendered tokens.
    pub fn message(&self) -> (r: String)
        ensures
            r@ == spec_join_lines(
                self.errors@.map_values(|e: ScanningError| spec_error_text(e@))
                    + self.tokens@.map_values(|t: Token| spec_token_text(t@)),
            ),
    {
        let mut lines: Vec<String> = Vec::new();
        let mut i: usize = 0;
        while i < self.errors.len()
            invariant
                0 <= i <= self.errors.len(),
                lines@.len() == i,
                forall|j: int|
                    0 <= j < i ==> (#[trigger] lines@[j])@ == spec_error_text(
                        self.errors@[j]@,
                    ),
            decreases self.errors.len() - i,
        {
            lines.push(self.errors[i].message());
            i += 1;
        }
        let mut k: usize = 0;
        while k < self.tokens.len()
            invariant
                0 <= k <= self.tokens.len(),
                lines@.len() == self.errors@.len() + k,
                forall|j: int|
                    0 <= j < self.errors@.len() ==> (#[trigger] lines@[j])@ == spec_error_text(
                        self.errors@[j]@,
                    ),
                forall|j: int|
                    self.errors@.len() <= j < self.errors@.len() + k ==> (
                    #[trigger] lines@[j])@ == spec_token_text(
                        self.tokens@[j - self.errors@.len()]@,
                    ),
            decreases self.tokens.len() - k,
        {
            lines.push(self.tokens[k].display_text());
            k += 1;
        }
        proof {
            assert(lines.deep_view() =~~= self.errors@.map_values(
                |e: ScanningError| spec_error_text(e@),
            ) + self.tokens@.map_values(|t: Token| spec_token_text(t@)));
        }
        join_lines(&lines)
    }
}

impl Scanner {
    /// Scans the whole source text. Succeeds with the token sequence
    /// when no lexical error occurred; otherwise hands back the summary
    /// holding every token produced and every error met. Either way the
    /// tokens and errors are exactly those of the scanning model
    /// `spec_scan`, so the token sequence always ends with the one
    /// terminal token.
    pub fn scan_tokens(&mut self) -> (r: Result<Vec<Token>, ScanningErrorSummary>)
        requires
            old(self).source@.len() < usize::MAX,
        ensures
            final(self).source@ == old(self).source@,
            ({
                let m = spec_scan(old(self).source@);
                match r {
                    Ok(tokens) => m.errors.len() == 0 && tokens@.map_values(|t: Token| t@)
                        == m.tokens,
                    Err(summary) => m.errors.len() > 0 && summary.tokens@.map_values(
                        |t: Token| t@,
                    ) == m.tokens && summary.errors@.map_values(|e: ScanningError| e@)
                        == m.errors,
                }
            }),
    {
        let ghost src = self.source@;
        let mut tokens: Vec<Token> = Vec::new();
        let mut errors: Vec<ScanningError> = Vec::new();
        let source = self.source.clone();
        let mut caret = Caret::new(source.as_str());

        while !caret.is_at_end_of_input()
            invariant
                self.source@ == src,
                source@ == src,
                src.len() < usize::MAX,
                caret.src() == src,
                caret.wf(),
                caret.current_line <= caret.current_char + 1,
                spec_scan_rest(src, 0, 1).tokens =~= tokens@.map_values(|t: Token| t@)
                    + spec_scan_rest(
                    src,
                    caret.current_char as int,
                    caret.current_line as int,
                ).tokens,
                spec_scan_rest(src, 0, 1).errors =~= errors@.map_values(|e: ScanningError| e@)
                    + spec_scan_rest(
                    src,
                    caret.current_char as int,
                    caret.current_line as int,
                ).errors,
                spec_scan_rest(src, 0, 1).line == spec_scan_rest(
                    src,
                    caret.current_char as int,
                    caret.current_line as int,
                ).line,
            decreases src.len() - caret.current_char,
        {
            caret.start_car = caret.current_char;
            let ghost cur0 = caret.current_char as int;
            let ghost line0 = caret.current_line as int;
            let ghost tokens0 = tokens@;
            let ghost errors0 = errors@;
            let ghost step = spec_scan_token(src, cur0, line0);

            match self.scan_token(&mut caret) {
                Ok(token) => match token.token_type {
                    TokenType::Whitespace | TokenType::Comment => {
                        proof {
                            assert(spec_scan_rest(src, cur0, line0) == spec_scan_rest(
                                src,
                                step.next,
                                step.line,
                            ));
                        }
                    },
                    TokenType::EndOfLine => {
                        caret.current_line = caret.current_line + 1;
                        proof {
                            assert(spec_scan_rest(src, cur0, line0) == spec_scan_rest(
                                src,
                                step.next,
                                step.line + 1,
                            ));
                        }
                    },
                    _ => {
                        tokens.push(token);
                        proof {
                            let rest = spec_scan_rest(src, step.next, step.line);
                            assert(spec_scan_rest(src, cur0, line0).tokens == seq![token@]
                                + rest.tokens);
                            assert(tokens@.map_values(|t: Token| t@) =~= tokens0.map_values(
                                |t: Token| t@,
                            ) + seq![token@]);
                        }
                    },
                },
                Err(error) => {
                    errors.push(error);
                    proof {
                        let rest = spec_scan_rest(src, step.next, step.line);
                        assert(spec_scan_rest(src, cur0, line0).errors == seq![error@]
                            + rest.errors);
                        assert(errors@.map_values(|e: ScanningError| e@) =~= errors0.map_values(
                            |e: ScanningError| e@,
                        ) + seq![error@]);
                    }
                },
            }
        }

        tokens.push(self.build_terminal_token(&caret));
        proof {
            assert(tokens@.map_values(|t: Token| t@) =~= spec_scan(src).tokens);
        }

        if errors.len() == 0 {
            proof {
                assert(errors@.map_values(|e: ScanningError| e@) =~= spec_scan(src).errors);
            }
            Ok(tokens)
        } else {
            proof {
                assert(errors@.map_values(|e: ScanningError| e@) =~= spec_scan(src).errors);
            }
            Err(ScanningErrorSummary::new(tokens, errors))
        }
    }
}

} // verus!
