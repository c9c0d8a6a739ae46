//! Tokens produced by the lexer: a kind, the source text of the token, an
//! optional typed literal payload, and the source line it came from.

use vstd::prelude::*;

verus! {

/// The kind of a token. Equality on kinds is what the parser matches on.
#[derive(Clone, Copy, Debug, PartialEq, Eq, Structural)]
pub enum TokenType {
    // Single-character tokens.
    LeftParen,
    RightParen,
    LeftBrace,
    RightBrace,
    Comma,
    Dot,
    Minus,
    Plus,
    SemiColon,
    Slash,
    Star,
    // One or two character tokens.
    Bang,
    BangEqual,
    Equal,
    EqualEqual,
    Greater,
    GreaterEqual,
    Less,
    LessEqual,
    // Literals.
    Identifier,
    String,
    Integer,
    Float,
    // Keywords.
    And,
    Class,
    Else,
    False,
    Fun,
    Fn,
    For,
    If,
    Nil,
    Or,
    Print,
    Return,
    Super,
    This,
    True,
    Var,
    While,
    // Trivia and end of input.
    SingleLineComment,
    Whitespace,
    Eof,
}

/// A typed literal payload. Numbers are kept exact: an integer literal holds
/// its value, a fractional literal holds its whole part, its fraction digits
/// read as an integer, and how many fraction digits there are.
#[derive(Clone, Debug, PartialEq)]
pub enum TokenLiteral {
    String(std::string::String),
    Integer(i64),
    Float(i64, u64, u64),
    Bool(bool),
    Nil,
}

/// Mathematical model of a literal payload.
#[verifier::ext_equal]
pub enum LiteralModel {
    Str(Seq<char>),
    Int(int),
    Float(int, nat, nat),
    Bool(bool),
    Nil,
}

impl View for TokenLiteral {
    type V = LiteralModel;

    open spec fn view(&self) -> LiteralModel {
        match self {
            TokenLiteral::String(s) => LiteralModel::Str(s@),
            TokenLiteral::Integer(i) => LiteralModel::Int(*i as int),
            TokenLiteral::Float(w, f, l) => LiteralModel::Float(*w as int, *f as nat, *l as nat),
            TokenLiteral::Bool(b) => LiteralModel::Bool(*b),
            TokenLiteral::Nil => LiteralModel::Nil,
        }
    }
}

/// A single token. Immutable once produced.
#[derive(Clone, Debug)]
pub struct Token {
    pub token_type: TokenType,
    pub lexeme: std::string::String,
    pub literal: Option<TokenLiteral>,
    pub line: i32,
}

/// Mathematical model of a token.
#[verifier::ext_equal]
pub struct TokenModel {
    pub token_type: TokenType,
    pub lexeme: Seq<char>,
    pub literal: Option<LiteralModel>,
    pub line: int,
}

impl View for Token {
    type V = TokenModel;

    open spec fn view(&self) -> TokenModel {
        TokenModel {
            token_type: self.token_type,
            lexeme: self.lexeme@,
            literal: match &self.literal {
                Option::None => Option::None,
                Option::Some(l) => Option::Some(l@),
            },
            line: self.line as int,
        }
    }
}

impl PartialEq for Token {
    /// Equality for parsing purposes: only the kind is compared.
    fn eq(&self, other: &Self) -> (r: bool) {
        self.token_type == other.token_type
    }
}

impl vstd::std_specs::cmp::PartialEqSpecImpl for Token {
    open spec fn obeys_eq_spec() -> bool {
        true
    }

    open spec fn eq_spec(&self, other: &Token) -> bool {
        self.token_type == other.token_type
    }
}

impl Token {
    /// An explicit deep copy; the copy has the same model as the original.
    pub fn duplicate(&self) -> (r: Token)
        ensures
            r@ == self@,
    {
        let lit = match &self.literal {
            Option::None => Option::None,
            Option::Some(TokenLiteral::String(s)) => {
                Option::Some(TokenLiteral::String(s.clone()))
            },
            Option::Some(TokenLiteral::Integer(i)) => Option::Some(TokenLiteral::Integer(*i)),
            Option::Some(TokenLiteral::Float(w, f, l)) => {
                Option::Some(TokenLiteral::Float(*w, *f, *l))
            },
            Option::Some(TokenLiteral::Bool(b)) => Option::Some(TokenLiteral::Bool(*b)),
            Option::Some(TokenLiteral::Nil) => Option::Some(TokenLiteral::Nil),
        };
        let r = Token {
            token_type: self.token_type,
            lexeme: self.lexeme.clone(),
            literal: lit,
            line: self.line,
        };
        assert(r@ =~= self@);
        r
    }
}

} // verus!
