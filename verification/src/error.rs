//! The three error families of the interpreter: lexical, syntactic and
//! runtime. Each family is its own type, and each error renders as
//! `[line N] <category>: <message>`.

use vstd::prelude::*;
use crate::text::int_text;
use crate::value::{LoxType, type_text};

verus! {

/// An error found while turning characters into tokens.
#[derive(Clone, Debug, PartialEq)]
pub enum LexError {
    /// A character that cannot begin any token, with its line and its text.
    UnexpectedToken(i32, std::string::String),
    /// A string literal still open when the input ended.
    UnterminatedString(i32),
    /// A numeric literal that does not denote a number this interpreter
    /// can hold, with its line and a message.
    UnparsableNumber(i32, std::string::String),
}

/// Mathematical model of a lexical error.
#[verifier::ext_equal]
pub enum LexErrorModel {
    UnexpectedToken(int, Seq<char>),
    UnterminatedString(int),
    UnparsableNumber(int, Seq<char>),
}

impl View for LexError {
    type V = LexErrorModel;

    open spec fn view(&self) -> LexErrorModel {
        match self {
            LexError::UnexpectedToken(line, s) => {
                LexErrorModel::UnexpectedToken(*line as int, s@)
            },
            LexError::UnterminatedString(line) => LexErrorModel::UnterminatedString(*line as int),
            LexError::UnparsableNumber(line, s) => {
                LexErrorModel::UnparsableNumber(*line as int, s@)
            },
        }
    }
}

/// An error found while parsing tokens into syntax.
#[derive(Clone, Debug, PartialEq)]
pub enum ParseError {
    /// A token that cannot stand where it was found, with its line and a
    /// description of what stood there.
    UnexpectedToken(i32, std::string::String),
    /// A token of the wrong kind: the line, the text found, and the text
    /// that was expected.
    WrongTokenType(i32, std::string::String, std::string::String),
    /// The input ended where more tokens were needed.
    UnexpectedEof(i32),
    /// The left side of an `=` does not name a variable: the line and the
    /// rendering of the offending expression.
    InvalidAssignmentTarget(i32, std::string::String),
}

/// Mathematical model of a parse error.
#[verifier::ext_equal]
pub enum ParseErrorModel {
    UnexpectedToken(int, Seq<char>),
    WrongTokenType(int, Seq<char>, Seq<char>),
    UnexpectedEof(int),
    InvalidAssignmentTarget(int, Seq<char>),
}

impl View for ParseError {
    type V = ParseErrorModel;

    open spec fn view(&self) -> ParseErrorModel {
        match self {
            ParseError::UnexpectedToken(line, s) => {
                ParseErrorModel::UnexpectedToken(*line as int, s@)
            },
            ParseError::WrongTokenType(line, found, expected) => {
                ParseErrorModel::WrongTokenType(*line as int, found@, expected@)
            },
            ParseError::UnexpectedEof(line) => ParseErrorModel::UnexpectedEof(*line as int),
            ParseError::InvalidAssignmentTarget(line, s) => {
                ParseErrorModel::InvalidAssignmentTarget(*line as int, s@)
            },
        }
    }
}

/// An error found while evaluating syntax.
#[derive(Clone, Debug, PartialEq)]
pub enum RuntimeError {
    /// An operand of the wrong type: the line, the rendered expression, the
    /// type found and the type expected.
    WrongType(i32, std::string::String, LoxType, LoxType),
    /// Two operands whose types do not fit together: the line, the rendered
    /// expression, and the two types.
    IncompatibleTypes(i32, std::string::String, LoxType, LoxType),
    /// An operator applied to types it never supports: the line, the
    /// rendered expression, the supported types, and the two types found.
    InoperableTypes(i32, std::string::String, Vec<LoxType>, LoxType, LoxType),
    /// A name that is bound in no enclosing scope.
    UndefinedVariable(i32, std::string::String),
    /// Any other runtime failure, such as division by zero: the line, the
    /// rendered expression, and a message.
    RuntimeError(i32, std::string::String, std::string::String),
}

/// Mathematical model of a runtime error.
#[verifier::ext_equal]
pub enum RuntimeErrorModel {
    WrongType(int, Seq<char>, LoxType, LoxType),
    IncompatibleTypes(int, Seq<char>, LoxType, LoxType),
    InoperableTypes(int, Seq<char>, Seq<LoxType>, LoxType, LoxType),
    UndefinedVariable(int, Seq<char>),
    RuntimeError(int, Seq<char>, Seq<char>),
}

impl View for RuntimeError {
    type V = RuntimeErrorModel;

    open spec fn view(&self) -> RuntimeErrorModel {
        match self {
            RuntimeError::WrongType(line, e, actual, expected) => {
                RuntimeErrorModel::WrongType(*line as int, e@, *actual, *expected)
            },
            RuntimeError::IncompatibleTypes(line, e, l, r) => {
                RuntimeErrorModel::IncompatibleTypes(*line as int, e@, *l, *r)
            },
            RuntimeError::InoperableTypes(line, e, supported, l, r) => {
                RuntimeErrorModel::InoperableTypes(*line as int, e@, supported@, *l, *r)
            },
            RuntimeError::UndefinedVariable(line, name) => {
                RuntimeErrorModel::UndefinedVariable(*line as int, name@)
            },
            RuntimeError::RuntimeError(line, e, msg) => {
                RuntimeErrorModel::RuntimeError(*line as int, e@, msg@)
            },
        }
    }
}

/// The `[line N] ` prefix every rendered error starts with.
pub open spec fn line_prefix(line: int) -> Seq<char> {
    "[line "@ + int_text(line) + "] "@
}

fn render_line_prefix(line: i32) -> (s: String)
    ensures
        s@ == line_prefix(line as int),
{
    let mut s = String::from_str("[line ");
    let n = crate::text::i64_to_string(line as i64);
    s.append(n.as_str());
    s.append("] ");
    assert(s@ =~= line_prefix(line as int));
    s
}

/// The rendering of a lexical error.
pub open spec fn lex_error_text(e: LexErrorModel) -> Seq<char> {
    match e {
        LexErrorModel::UnexpectedToken(line, tok) => {
            line_prefix(line) + "Error: Unexpected token "@ + tok + "."@
        },
        LexErrorModel::UnterminatedString(line) => {
            line_prefix(line) + "Error: Unterminated string literal."@
        },
        LexErrorModel::UnparsableNumber(line, msg) => {
            line_prefix(line) + "Error: "@ + msg + "."@
        },
    }
}

impl LexError {
    /// Renders this error as `lex_error_text` describes.
    pub fn render(&self) -> (s: String)
        ensures
            s@ == lex_error_text(self@),
    {
        match self {
            LexError::UnexpectedToken(line, tok) => {
                let mut s = render_line_prefix(*line);
                s.append("Error: Unexpected token ");
                s.append(tok.as_str());
                s.append(".");
                assert(s@ =~= lex_error_text(self@));
                s
            },
            LexError::UnterminatedString(line) => {
                let mut s = render_line_prefix(*line);
                s.append("Error: Unterminated string literal.");
                assert(s@ =~= lex_error_text(self@));
                s
            },
            LexError::UnparsableNumber(line, msg) => {
                let mut s = render_line_prefix(*line);
                s.append("Error: ");
                s.append(msg.as_str());
                s.append(".");
                assert(s@ =~= lex_error_text(self@));
                s
            },
        }
    }
}

/// The rendering of a parse error.
pub open spec fn parse_error_text(e: ParseErrorModel) -> Seq<char> {
    match e {
        ParseErrorModel::UnexpectedToken(line, tok) => {
            line_prefix(line) + "Error: Unexpected token "@ + tok + "."@
        },
        ParseErrorModel::WrongTokenType(line, found, expected) => {
            line_prefix(line) + "Error: Expected token type "@ + expected + ", found "@ + found
        },
        ParseErrorModel::UnexpectedEof(line) => line_prefix(line) + "Error: Unexpected EOF."@,
        ParseErrorModel::InvalidAssignmentTarget(line, target) => {
            line_prefix(line) + "Error: Invalid Assignment Target: "@ + target + "."@
        },
    }
}

impl ParseError {
    /// Renders this error as `parse_error_text` describes.
    pub fn render(&self) -> (s: String)
        ensures
            s@ == parse_error_text(self@),
    {
        match self {
            ParseError::UnexpectedToken(line, tok) => {
                let mut s = render_line_prefix(*line);
                s.append("Error: Unexpected token ");
                s.append(tok.as_str());
                s.append(".");
                assert(s@ =~= parse_error_text(self@));
                s
            },
            ParseError::WrongTokenType(line, found, expected) => {
                let mut s = render_line_prefix(*line);
                s.append("Error: Expected token type ");
                s.append(expected.as_str());
                s.append(", found ");
                s.append(found.as_str());
                assert(s@ =~= parse_error_text(self@));
                s
            },
            ParseError::UnexpectedEof(line) => {
                let mut s = render_line_prefix(*line);
                s.append("Error: Unexpected EOF.");
                assert(s@ =~= parse_error_text(self@));
                s
            },
            ParseError::InvalidAssignmentTarget(line, target) => {
                let mut s = render_line_prefix(*line);
                s.append("Error: Invalid Assignment Target: ");
                s.append(target.as_str());
                s.append(".");
                assert(s@ =~= parse_error_text(self@));
                s
            },
        }
    }
}

/// The comma-separated names of a list of types.
pub open spec fn type_list_text(ts: Seq<LoxType>) -> Seq<char>
    decreases ts.len(),
{
    if ts.len() == 0 {
        Seq::empty()
    } else if ts.len() == 1 {
        type_text(ts[0])
    } else {
        type_text(ts[0]) + ", "@ + type_list_text(ts.skip(1))
    }
}

fn render_type_list_from(ts: &Vec<LoxType>, i: usize) -> (s: String)
    requires
        i <= ts@.len(),
    ensures
        s@ == type_list_text(ts@.skip(i as int)),
    decreases ts@.len() - i,
{
    if i >= ts.len() {
        let s = String::new();
        assert(s@ =~= type_list_text(ts@.skip(i as int)));
        s
    } else if i + 1 == ts.len() {
        let s = ts[i].name();
        proof {
            assert(ts@.skip(i as int)[0] == ts@[i as int]);
            assert(ts@.skip(i as int).len() == 1);
        }
        s
    } else {
        let mut s = ts[i].name();
        s.append(", ");
        let rest = render_type_list_from(ts, i + 1);
        s.append(rest.as_str());
        proof {
            assert(ts@.skip(i as int)[0] == ts@[i as int]);
            assert(ts@.skip(i as int).skip(1) =~= ts@.skip(i + 1));
            assert(s@ =~= type_list_text(ts@.skip(i as int)));
        }
        s
    }
}

/// The rendering of a runtime error.
pub open spec fn runtime_error_text(e: RuntimeErrorModel) -> Seq<char> {
    match e {
        RuntimeErrorModel::WrongType(line, expr, actual, expected) => {
            line_prefix(line) + "Error in expression: "@ + expr + ": Expected type "@ + type_text(
                expected,
            ) + ", found "@ + type_text(actual)
        },
        RuntimeErrorModel::IncompatibleTypes(line, expr, l, r) => {
            line_prefix(line) + "Incompatible types in expression: "@ + expr + ": "@ + type_text(l)
                + ", "@ + type_text(r)
        },
        RuntimeErrorModel::InoperableTypes(line, expr, supported, l, r) => {
            line_prefix(line) + "Operator cannot be used on types in expression: "@ + expr + ": "@
                + type_text(l) + ", "@ + type_text(r) + ". Supported types: "@ + type_list_text(
                supported,
            )
        },
        RuntimeErrorModel::UndefinedVariable(line, name) => {
            line_prefix(line) + "Undefined variable: "@ + name
        },
        RuntimeErrorModel::RuntimeError(line, expr, msg) => {
            line_prefix(line) + "Error in expression: "@ + expr + ": "@ + msg
        },
    }
}

impl RuntimeError {
    /// Renders this error as `runtime_error_text` describes.
    pub fn render(&self) -> (s: String)
        ensures
            s@ == runtime_error_text(self@),
    {
        match self {
            RuntimeError::WrongType(line, expr, actual, expected) => {
                let mut s = render_line_prefix(*line);
                s.append("Error in expression: ");
                s.append(expr.as_str());
                s.append(": Expected type ");
                let en = expected.name();
                s.append(en.as_str());
                s.append(", found ");
                let an = actual.name();
                s.append(an.as_str());
                assert(s@ =~= runtime_error_text(self@));
                s
            },
            RuntimeError::IncompatibleTypes(line, expr, l, r) => {
                let mut s = render_line_prefix(*line);
                s.append("Incompatible types in expression: ");
                s.append(expr.as_str());
                s.append(": ");
                let ln = l.name();
                s.append(ln.as_str());
                s.append(", ");
                let rn = r.name();
                s.append(rn.as_str());
                assert(s@ =~= runtime_error_text(self@));
                s
            },
            RuntimeError::InoperableTypes(line, expr, supported, l, r) => {
                let mut s = render_line_prefix(*line);
                s.append("Operator cannot be used on types in expression: ");
                s.append(expr.as_str());
                s.append(": ");
                let ln = l.name();
                s.append(ln.as_str());
                s.append(", ");
                let rn = r.name();
                s.append(rn.as_str());
                s.append(". Supported types: ");
                let list = render_type_list_from(supported, 0);
                s.append(list.as_str());
                proof {
                    assert(supported@.skip(0) =~= supported@);
                    assert(s@ =~= runtime_error_text(self@));
                }
                s
            },
            RuntimeError::UndefinedVariable(line, name) => {
                let mut s = render_line_prefix(*line);
                s.append("Undefined variable: ");
                s.append(name.as_str());
                assert(s@ =~= runtime_error_text(self@));
                s
            },
            RuntimeError::RuntimeError(line, expr, msg) => {
                let mut s = render_line_prefix(*line);
                s.append("Error in expression: ");
                s.append(expr.as_str());
                s.append(": ");
                s.append(msg.as_str());
                assert(s@ =~= runtime_error_text(self@));
                s
            },
        }
    }
}

} // verus!
