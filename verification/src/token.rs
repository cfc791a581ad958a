//! The token model: one lexical unit, with its kind, source line and
//! payload.

use vstd::prelude::*;
use crate::numeric::Number;
use crate::numeric::spec_literal_text;
use crate::numeric::literal_text;
use crate::string_util::spec_upper_snake;
use crate::string_util::regex_found;
use crate::string_util::regex_compiles;
use crate::string_util::pascal_to_upper_case_snake;

verus! {

/// The kind of a lexical token.
#[derive(Debug, Clone, Copy, PartialEq, Eq, Structural)]
pub enum TokenType {
    LeftParen,
    RightParen,
    LeftBrace,
    RightBrace,
    Comma,
    Dot,
    Minus,
    Plus,
    Semicolon,
    Star,
    Slash,
    Bang,
    BangEqual,
    Equal,
    EqualEqual,
    Less,
    LessEqual,
    Greater,
    GreaterEqual,
    String,
    Number,
    Eof,
    And,
    Or,
    If,
    Else,
    True,
    False,
    Nil,
    For,
    While,
    Class,
    Fun,
    Var,
    This,
    Super,
    Return,
    Print,
    Identifier,
    Whitespace,
    EndOfLine,
    Comment,
}

/// The Pascal-case name of a token kind.
pub open spec fn spec_kind_name(t: TokenType) -> Seq<char> {
    match t {
        TokenType::LeftParen => "LeftParen"@,
        TokenType::RightParen => "RightParen"@,
        TokenType::LeftBrace => "LeftBrace"@,
        TokenType::RightBrace => "RightBrace"@,
        TokenType::Comma => "Comma"@,
        TokenType::Dot => "Dot"@,
        TokenType::Minus => "Minus"@,
        TokenType::Plus => "Plus"@,
        TokenType::Semicolon => "Semicolon"@,
        TokenType::Star => "Star"@,
        TokenType::Slash => "Slash"@,
        TokenType::Bang => "Bang"@,
        TokenType::BangEqual => "BangEqual"@,
        TokenType::Equal => "Equal"@,
        TokenType::EqualEqual => "EqualEqual"@,
        TokenType::Less => "Less"@,
        TokenType::LessEqual => "LessEqual"@,
        TokenType::Greater => "Greater"@,
        TokenType::GreaterEqual => "GreaterEqual"@,
        TokenType::String => "String"@,
        TokenType::Number => "Number"@,
        TokenType::Eof => "Eof"@,
        TokenType::And => "And"@,
        TokenType::Or => "Or"@,
        TokenType::If => "If"@,
        TokenType::Else => "Else"@,
        TokenType::True => "True"@,
        TokenType::False => "False"@,
        TokenType::Nil => "Nil"@,
        TokenType::For => "For"@,
        TokenType::While => "While"@,
        TokenType::Class => "Class"@,
        TokenType::Fun => "Fun"@,
        TokenType::Var => "Var"@,
        TokenType::This => "This"@,
        TokenType::Super => "Super"@,
        TokenType::Return => "Return"@,
        TokenType::Print => "Print"@,
        TokenType::Identifier => "Identifier"@,
        TokenType::Whitespace => "Whitespace"@,
        TokenType::EndOfLine => "EndOfLine"@,
        TokenType::Comment => "Comment"@,
    }
}

/// The display name of a token kind: its Pascal-case name converted to
/// upper snake case, for example `LEFT_BRACE` for `LeftBrace`.
pub open spec fn spec_kind_display(t: TokenType) -> Seq<char> {
    if regex_compiles("[A-Z][a-z]+"@) {
        spec_upper_snake(regex_found("[A-Z][a-z]+"@, spec_kind_name(t)))
    } else {
        spec_kind_name(t)
    }
}

fn kind_name(t: TokenType) -> (r: String)
    ensures
        r@ == spec_kind_name(t),
{
    match t {
        TokenType::LeftParen => String::from_str("LeftParen"),
        TokenType::RightParen => String::from_str("RightParen"),
        TokenType::LeftBrace => String::from_str("LeftBrace"),
        TokenType::RightBrace => String::from_str("RightBrace"),
        TokenType::Comma => String::from_str("Comma"),
        TokenType::Dot => String::from_str("Dot"),
        TokenType::Minus => String::from_str("Minus"),
        TokenType::Plus => String::from_str("Plus"),
        TokenType::Semicolon => String::from_str("Semicolon"),
        TokenType::Star => String::from_str("Star"),
        TokenType::Slash => String::from_str("Slash"),
        TokenType::Bang => String::from_str("Bang"),
        TokenType::BangEqual => String::from_str("BangEqual"),
        TokenType::Equal => String::from_str("Equal"),
        TokenType::EqualEqual => String::from_str("EqualEqual"),
        TokenType::Less => String::from_str("Less"),
        TokenType::LessEqual => String::from_str("LessEqual"),
        TokenType::Greater => String::from_str("Greater"),
        TokenType::GreaterEqual => String::from_str("GreaterEqual"),
        TokenType::String => String::from_str("String"),
        TokenType::Number => String::from_str("Number"),
        TokenType::Eof => String::from_str("Eof"),
        TokenType::And => String::from_str("And"),
        TokenType::Or => String::from_str("Or"),
        TokenType::If => String::from_str("If"),
        TokenType::Else => String::from_str("Else"),
        TokenType::True => String::from_str("True"),
        TokenType::False => String::from_str("False"),
        TokenType::Nil => String::from_str("Nil"),
        TokenType::For => String::from_str("For"),
        TokenType::While => String::from_str("While"),
        TokenType::Class => String::from_str("Class"),
        TokenType::Fun => String::from_str("Fun"),
        TokenType::Var => String::from_str("Var"),
        TokenType::This => String::from_str("This"),
        TokenType::Super => String::from_str("Super"),
        TokenType::Return => String::from_str("Return"),
        TokenType::Print => String::from_str("Print"),
        TokenType::Identifier => String::from_str("Identifier"),
        TokenType::Whitespace => String::from_str("Whitespace"),
        TokenType::EndOfLine => String::from_str("EndOfLine"),
        TokenType::Comment => String::from_str("Comment"),
    }
}

impl TokenType {
    /// The display name of this kind, in upper snake case.
    pub fn display_name(&self) -> (r: String)
        ensures
            r@ == spec_kind_display(*self),
    {
        pascal_to_upper_case_snake(&kind_name(*self))
    }
}

/// The payload of a token.
#[derive(Debug)]
pub enum TokenData {
    Reserved { lexeme: String },
    StringLiteral { lexeme: String, literal: String },
    NumericLiteral { lexeme: String, literal: Number },
    Terminal,
    Comment,
}

/// The mathematical image of a token payload.
pub enum TokenDataV {
    Reserved { lexeme: Seq<char> },
    StringLiteral { lexeme: Seq<char>, literal: Seq<char> },
    NumericLiteral { lexeme: Seq<char>, literal: u64 },
    Terminal,
    Comment,
}

impl View for TokenData {
    type V = TokenDataV;

    open spec fn view(&self) -> TokenDataV {
        match self {
            TokenData::Reserved { lexeme } => TokenDataV::Reserved { lexeme: lexeme@ },
            TokenData::StringLiteral { lexeme, literal } => TokenDataV::StringLiteral {
                lexeme: lexeme@,
                literal: literal@,
            },
            TokenData::NumericLiteral { lexeme, literal } => TokenDataV::NumericLiteral {
                lexeme: lexeme@,
                literal: literal.bits,
            },
            TokenData::Terminal => TokenDataV::Terminal,
            TokenData::Comment => TokenDataV::Comment,
        }
    }
}

impl Clone for TokenData {
    fn clone(&self) -> (r: Self)
        ensures
            r == *self,
    {
        match self {
            TokenData::Reserved { lexeme } => TokenData::Reserved { lexeme: lexeme.clone() },
            TokenData::StringLiteral { lexeme, literal } => TokenData::StringLiteral {
                lexeme: lexeme.clone(),
                literal: literal.clone(),
            },
            TokenData::NumericLiteral { lexeme, literal } => TokenData::NumericLiteral {
                lexeme: lexeme.clone(),
                literal: *literal,
            },
            TokenData::Terminal => TokenData::Terminal,
            TokenData::Comment => TokenData::Comment,
        }
    }
}

impl TokenData {
    pub fn new_reserved(lexeme: &str) -> (r: Self)
        ensures
            r@ == (TokenDataV::Reserved { lexeme: lexeme@ }),
    {
        TokenData::Reserved { lexeme: String::from_str(lexeme) }
    }

    pub fn new_string_literal(lexeme: &str, literal: &str) -> (r: Self)
        ensures
            r@ == (TokenDataV::StringLiteral { lexeme: lexeme@, literal: literal@ }),
    {
        TokenData::StringLiteral {
            lexeme: String::from_str(lexeme),
            literal: String::from_str(literal),
        }
    }

    pub fn new_numeric_literal(lexeme: &str, literal: Number) -> (r: Self)
        ensures
            r@ == (TokenDataV::NumericLiteral { lexeme: lexeme@, literal: literal.bits }),
    {
        TokenData::NumericLiteral { lexeme: String::from_str(lexeme), literal }
    }

    pub fn new_terminal() -> (r: Self)
        ensures
            r@ == TokenDataV::Terminal,
    {
        TokenData::Terminal
    }
}

/// One lexical token: kind, source line, payload.
#[derive(Debug)]
pub struct Token {
    pub line: usize,
    pub token_type: TokenType,
    pub token_data: TokenData,
}

/// The mathematical image of a token.
pub struct TokenV {
    pub line: nat,
    pub token_type: TokenType,
    pub token_data: TokenDataV,
}

impl View for Token {
    type V = TokenV;

    open spec fn view(&self) -> TokenV {
        TokenV { line: self.line as nat, token_type: self.token_type, token_data: self.token_data@ }
    }
}

/// The lexeme carried by a token payload; empty for the terminal and for
/// comments.
pub open spec fn spec_data_name(d: TokenDataV) -> Seq<char> {
    match d {
        TokenDataV::Reserved { lexeme } => lexeme,
        TokenDataV::StringLiteral { lexeme, literal } => lexeme,
        TokenDataV::NumericLiteral { lexeme, literal } => lexeme,
        TokenDataV::Terminal => Seq::empty(),
        TokenDataV::Comment => Seq::empty(),
    }
}

/// The one-line rendering of a token: display name, lexeme, and literal
/// (`null` when the token carries none).
pub open spec fn spec_token_text(t: TokenV) -> Seq<char> {
    match t.token_data {
        TokenDataV::Reserved { lexeme } => spec_kind_display(t.token_type) + " "@ + lexeme
            + " null"@,
        TokenDataV::StringLiteral { lexeme, literal } => spec_kind_display(t.token_type) + " "@
            + lexeme + " "@ + literal,
        TokenDataV::NumericLiteral { lexeme, literal } => spec_kind_display(t.token_type) + " "@
            + lexeme + " "@ + spec_literal_text(literal),
        TokenDataV::Terminal => spec_kind_display(t.token_type) + "  null"@,
        TokenDataV::Comment => spec_kind_display(t.token_type) + "  null"@,
    }
}

impl Clone for Token {
    fn clone(&self) -> (r: Self)
        ensures
            r == *self,
    {
        Token {
            line: self.line,
            token_type: self.token_type,
            token_data: self.token_data.clone(),
        }
    }
}

impl Token {
    pub fn new(line: usize, token_type: TokenType, token: TokenData) -> (r: Self)
        ensures
            r@ == (TokenV { line: line as nat, token_type, token_data: token@ }),
    {
        Token { line, token_type, token_data: token }
    }

    /// The lexeme of this token; empty for the terminal and for comments.
    pub fn get_name(&self) -> (r: String)
        ensures
            r@ == spec_data_name(self@.token_data),
    {
        match &self.token_data {
            TokenData::Reserved { lexeme } => lexeme.clone(),
            TokenData::StringLiteral { lexeme, literal: _ } => lexeme.clone(),
            TokenData::NumericLiteral { lexeme, literal: _ } => lexeme.clone(),
            TokenData::Terminal => String::new(),
            TokenData::Comment => String::new(),
        }
    }

    /// The one-line rendering of this token, as the tokenize mode prints
    /// it.
    pub fn display_text(&self) -> (r: String)
        ensures
            r@ == spec_token_text(self@),
    {
        let kind = self.token_type.display_name();
        match &self.token_data {
            TokenData::Reserved { lexeme } => {
                let r = kind.concat(" ").concat(lexeme.as_str()).concat(" null");
                proof {
                    assert(r@ =~= spec_token_text(self@));
                }
                r
            },
            TokenData::StringLiteral { lexeme, literal } => {
                let r = kind.concat(" ").concat(lexeme.as_str()).concat(" ").concat(
                    literal.as_str(),
                );
                proof {
                    assert(r@ =~= spec_token_text(self@));
                }
                r
            },
            TokenData::NumericLiteral { lexeme, literal } => {
                let value = literal_text(literal.bits);
                let r = kind.concat(" ").concat(lexeme.as_str()).concat(" ").concat(
                    value.as_str(),
                );
                proof {
                    assert(r@ =~= spec_token_text(self@));
                }
                r
            },
            TokenData::Terminal => {
                let r = kind.concat("  null");
                proof {
                    assert(r@ =~= spec_token_text(self@));
                }
                r
            },
            TokenData::Comment => {
                let r = kind.concat("  null");
                proof {
                    assert(r@ =~= spec_token_text(self@));
                }
                r
            },
        }
    }
}

} // verus!
