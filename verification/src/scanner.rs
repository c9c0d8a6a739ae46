//! The lexer. It consumes the full source text, one character at a time with
//! one character of lookahead, and produces an ordered sequence of results
//! terminated by exactly one `Eof` token. A bad character or literal yields an
//! error result for that position and scanning continues.
//!
//! The spec functions in this module are the mathematical description of the
//! lexer; every executable function is proved to return exactly what its spec
//! function says.

use vstd::prelude::*;
use crate::token::{Token, TokenType, TokenLiteral, TokenModel, LiteralModel};
use crate::error::{LexError, LexErrorModel};

verus! {

/// One scanning step: the token or error produced, the position after it,
/// and the line counter after it.
pub type ScanStep = (Result<TokenModel, LexErrorModel>, int, int);

/// Whether `c` is a decimal digit.
pub open spec fn is_digit(c: char) -> bool {
    '0' <= c && c <= '9'
}

/// Whether `c` may begin an identifier or keyword.
pub open spec fn is_alpha(c: char) -> bool {
    ('a' <= c && c <= 'z') || ('A' <= c && c <= 'Z') || c == '_'
}

/// Whether `c` may continue an identifier or keyword.
pub open spec fn is_alnum(c: char) -> bool {
    is_alpha(c) || is_digit(c)
}

/// The numeric value of a digit character.
pub open spec fn digit_val(c: char) -> int {
    c as int - '0' as int
}

/// The model of the `Eof` token emitted at line `line`.
pub open spec fn eof_model(line: int) -> TokenModel {
    TokenModel {
        token_type: TokenType::Eof,
        lexeme: seq!['\0'],
        literal: Option::None,
        line: line,
    }
}

/// A one-character token of kind `k` at `pos`.
pub open spec fn single_step(s: Seq<char>, k: TokenType, pos: int, line: int) -> ScanStep {
    (
        Result::Ok(
            TokenModel {
                token_type: k,
                lexeme: seq![s[pos]],
                literal: Option::None,
                line: line,
            },
        ),
        pos + 1,
        line,
    )
}

/// A one- or two-character token: kind `two` when `=` follows, else `one`.
pub open spec fn pair_step(
    s: Seq<char>,
    two: TokenType,
    one: TokenType,
    pos: int,
    line: int,
) -> ScanStep {
    if pos + 1 < s.len() && s[pos + 1] == '=' {
        (
            Result::Ok(
                TokenModel {
                    token_type: two,
                    lexeme: seq![s[pos], '='],
                    literal: Option::None,
                    line: line,
                },
            ),
            pos + 2,
            line,
        )
    } else {
        single_step(s, one, pos, line)
    }
}

/// Scanning the tail of a `//` comment: everything up to and including the
/// next newline (or the end of input) is consumed, and the line advances.
pub open spec fn scan_comment(s: Seq<char>, pos: int, line: int, acc: Seq<char>) -> ScanStep
    recommends
        pos <= s.len(),
    decreases s.len() - pos,
{
    if pos >= s.len() {
        (
            Result::Ok(
                TokenModel {
                    token_type: TokenType::SingleLineComment,
                    lexeme: acc,
                    literal: Option::None,
                    line: line,
                },
            ),
            pos,
            line + 1,
        )
    } else if s[pos] == '\n' {
        (
            Result::Ok(
                TokenModel {
                    token_type: TokenType::SingleLineComment,
                    lexeme: acc,
                    literal: Option::None,
                    line: line,
                },
            ),
            pos + 1,
            line + 1,
        )
    } else {
        scan_comment(s, pos + 1, line, acc.push(s[pos]))
    }
}

/// Scanning the body of a string literal, after the opening quote. Embedded
/// newlines advance the line counter and stay in the literal; reaching the
/// end of input first is an unterminated-string error.
pub open spec fn scan_string(s: Seq<char>, pos: int, line: int, acc: Seq<char>) -> ScanStep
    recommends
        pos <= s.len(),
    decreases s.len() - pos,
{
    if pos >= s.len() {
        (Result::Err(LexErrorModel::UnterminatedString(line)), pos, line)
    } else if s[pos] == '"' {
        (
            Result::Ok(
                TokenModel {
                    token_type: TokenType::String,
                    lexeme: seq!['"'] + acc + seq!['"'],
                    literal: Option::Some(LiteralModel::Str(acc)),
                    line: line,
                },
            ),
            pos + 1,
            line,
        )
    } else if s[pos] == '\n' {
        scan_string(s, pos + 1, line + 1, acc.push('\n'))
    } else {
        scan_string(s, pos + 1, line, acc.push(s[pos]))
    }
}

/// The message of a numeric literal with two decimal points.
pub open spec fn invalid_float_msg() -> Seq<char> {
    "invalid float literal"@
}

/// The message of a numeric literal whose parts do not fit the machine.
pub open spec fn out_of_range_msg() -> Seq<char> {
    "number out of range"@
}

/// Scanning a numeric literal: digits with at most one decimal point. The
/// whole part, the fraction digits and the fraction length are accumulated
/// exactly; a literal whose parts do not fit the machine integers is an
/// error, as is a second decimal point.
pub open spec fn scan_number(
    s: Seq<char>,
    pos: int,
    line: int,
    lex: Seq<char>,
    whole: int,
    frac: int,
    frac_len: int,
    is_dec: bool,
) -> ScanStep
    recommends
        pos <= s.len(),
    decreases s.len() - pos,
{
    if pos < s.len() && is_digit(s[pos]) {
        if is_dec {
            scan_number(
                s,
                pos + 1,
                line,
                lex.push(s[pos]),
                whole,
                frac * 10 + digit_val(s[pos]),
                frac_len + 1,
                true,
            )
        } else {
            scan_number(s, pos + 1, line, lex.push(s[pos]), whole * 10 + digit_val(s[pos]), frac, frac_len, false)
        }
    } else if pos < s.len() && s[pos] == '.' {
        if is_dec {
            (Result::Err(LexErrorModel::UnparsableNumber(line, invalid_float_msg())), pos, line)
        } else {
            scan_number(s, pos + 1, line, lex.push('.'), whole, frac, frac_len, true)
        }
    } else {
        if !is_dec {
            if whole > i64::MAX {
                (
                    Result::Err(LexErrorModel::UnparsableNumber(line, out_of_range_msg())),
                    pos,
                    line,
                )
            } else {
                (
                    Result::Ok(
                        TokenModel {
                            token_type: TokenType::Integer,
                            lexeme: lex,
                            literal: Option::Some(LiteralModel::Int(whole)),
                            line: line,
                        },
                    ),
                    pos,
                    line,
                )
            }
        } else {
            if whole > i64::MAX || frac > u64::MAX {
                (
                    Result::Err(LexErrorModel::UnparsableNumber(line, out_of_range_msg())),
                    pos,
                    line,
                )
            } else {
                (
                    Result::Ok(
                        TokenModel {
                            token_type: TokenType::Float,
                            lexeme: lex,
                            literal: Option::Some(
                                LiteralModel::Float(whole, frac as nat, frac_len as nat),
                            ),
                            line: line,
                        },
                    ),
                    pos,
                    line,
                )
            }
        }
    }
}

/// The token kind of an identifier lexeme: a keyword kind for the fixed
/// keyword table, otherwise a plain identifier.
pub open spec fn keyword_kind(a: Seq<char>) -> TokenType {
    if a == "and"@ {
        TokenType::And
    } else if a == "class"@ {
        TokenType::Class
    } else if a == "else"@ {
        TokenType::Else
    } else if a == "false"@ {
        TokenType::False
    } else if a == "for"@ {
        TokenType::For
    } else if a == "fun"@ {
        TokenType::Fun
    } else if a == "if"@ {
        TokenType::If
    } else if a == "nil"@ {
        TokenType::Nil
    } else if a == "or"@ {
        TokenType::Or
    } else if a == "print"@ {
        TokenType::Print
    } else if a == "return"@ {
        TokenType::Return
    } else if a == "super"@ {
        TokenType::Super
    } else if a == "this"@ {
        TokenType::This
    } else if a == "true"@ {
        TokenType::True
    } else if a == "var"@ {
        TokenType::Var
    } else if a == "while"@ {
        TokenType::While
    } else {
        TokenType::Identifier
    }
}

/// The literal payload of a finished identifier or keyword lexeme.
pub open spec fn keyword_literal(k: TokenType) -> Option<LiteralModel> {
    if k == TokenType::True {
        Option::Some(LiteralModel::Bool(true))
    } else if k == TokenType::False {
        Option::Some(LiteralModel::Bool(false))
    } else if k == TokenType::Nil {
        Option::Some(LiteralModel::Nil)
    } else {
        Option::None
    }
}

/// Scanning an identifier or keyword: a maximal run of alphanumeric or
/// underscore characters.
pub open spec fn scan_ident(s: Seq<char>, pos: int, line: int, acc: Seq<char>) -> ScanStep
    recommends
        pos <= s.len(),
    decreases s.len() - pos,
{
    if pos < s.len() && is_alnum(s[pos]) {
        scan_ident(s, pos + 1, line, acc.push(s[pos]))
    } else {
        (
            Result::Ok(
                TokenModel {
                    token_type: keyword_kind(acc),
                    lexeme: acc,
                    literal: keyword_literal(keyword_kind(acc)),
                    line: line,
                },
            ),
            pos,
            line,
        )
    }
}

/// One step of the lexer: the token or error starting at `pos`, and the
/// position and line after it. At the end of input it yields the `Eof` token
/// without advancing.
pub open spec fn next_token(s: Seq<char>, pos: int, line: int) -> ScanStep
    recommends
        0 <= pos <= s.len(),
{
    if pos >= s.len() {
        (Result::Ok(eof_model(line)), pos, line)
    } else {
        let c = s[pos];
        if c == '(' {
            single_step(s, TokenType::LeftParen, pos, line)
        } else if c == ')' {
            single_step(s, TokenType::RightParen, pos, line)
        } else if c == '{' {
            single_step(s, TokenType::LeftBrace, pos, line)
        } else if c == '}' {
            single_step(s, TokenType::RightBrace, pos, line)
        } else if c == '.' {
            single_step(s, TokenType::Dot, pos, line)
        } else if c == ',' {
            single_step(s, TokenType::Comma, pos, line)
        } else if c == '-' {
            single_step(s, TokenType::Minus, pos, line)
        } else if c == '+' {
            single_step(s, TokenType::Plus, pos, line)
        } else if c == ';' {
            single_step(s, TokenType::SemiColon, pos, line)
        } else if c == '*' {
            single_step(s, TokenType::Star, pos, line)
        } else if c == '!' {
            pair_step(s, TokenType::BangEqual, TokenType::Bang, pos, line)
        } else if c == '=' {
            pair_step(s, TokenType::EqualEqual, TokenType::Equal, pos, line)
        } else if c == '<' {
            pair_step(s, TokenType::LessEqual, TokenType::Less, pos, line)
        } else if c == '>' {
            pair_step(s, TokenType::GreaterEqual, TokenType::Greater, pos, line)
        } else if c == '/' {
            if pos + 1 < s.len() && s[pos + 1] == '/' {
                scan_comment(s, pos + 2, line, seq!['/', '/'])
            } else {
                single_step(s, TokenType::Slash, pos, line)
            }
        } else if c == ' ' || c == '\r' || c == '\t' {
            single_step(s, TokenType::Whitespace, pos, line)
        } else if c == '\n' {
            (
                Result::Ok(
                    TokenModel {
                        token_type: TokenType::Whitespace,
                        lexeme: seq!['\n'],
                        literal: Option::None,
                        line: line + 1,
                    },
                ),
                pos + 1,
                line + 1,
            )
        } else if c == '"' {
            scan_string(s, pos + 1, line, Seq::empty())
        } else if is_digit(c) {
            scan_number(s, pos + 1, line, seq![c], digit_val(c), 0, 0, false)
        } else if is_alpha(c) {
            scan_ident(s, pos + 1, line, seq![c])
        } else {
            (Result::Err(LexErrorModel::UnexpectedToken(line, seq![c])), pos + 1, line)
        }
    }
}

/// Bounds of `scan_comment`: it stays inside the input, moves the line
/// counter forward by exactly one, and consumes no more than the rest.
proof fn lemma_scan_comment_bounds(s: Seq<char>, pos: int, line: int, acc: Seq<char>)
    requires
        0 <= pos <= s.len(),
    ensures
        pos <= scan_comment(s, pos, line, acc).1 <= s.len(),
        scan_comment(s, pos, line, acc).2 == line + 1,
    decreases s.len() - pos,
{
    if pos >= s.len() {
    } else if s[pos] == '\n' {
    } else {
        lemma_scan_comment_bounds(s, pos + 1, line, acc.push(s[pos]));
    }
}

/// Bounds of `scan_string`: it stays inside the input and advances the line
/// counter by at most the number of characters it consumes.
proof fn lemma_scan_string_bounds(s: Seq<char>, pos: int, line: int, acc: Seq<char>)
    requires
        0 <= pos <= s.len(),
    ensures
        pos <= scan_string(s, pos, line, acc).1 <= s.len(),
        line <= scan_string(s, pos, line, acc).2 <= line + (scan_string(s, pos, line, acc).1 - pos),
    decreases s.len() - pos,
{
    if pos >= s.len() {
    } else if s[pos] == '"' {
    } else if s[pos] == '\n' {
        lemma_scan_string_bounds(s, pos + 1, line + 1, acc.push('\n'));
    } else {
        lemma_scan_string_bounds(s, pos + 1, line, acc.push(s[pos]));
    }
}

/// Bounds of `scan_number`: it stays inside the input and never moves the
/// line counter.
proof fn lemma_scan_number_bounds(
    s: Seq<char>,
    pos: int,
    line: int,
    lex: Seq<char>,
    whole: int,
    frac: int,
    frac_len: int,
    is_dec: bool,
)
    requires
        0 <= pos <= s.len(),
    ensures
        pos <= scan_number(s, pos, line, lex, whole, frac, frac_len, is_dec).1 <= s.len(),
        scan_number(s, pos, line, lex, whole, frac, frac_len, is_dec).2 == line,
    decreases s.len() - pos,
{
    if pos < s.len() && is_digit(s[pos]) {
        if is_dec {
            lemma_scan_number_bounds(
                s,
                pos + 1,
                line,
                lex.push(s[pos]),
                whole,
                frac * 10 + digit_val(s[pos]),
                frac_len + 1,
                true,
            );
        } else {
            lemma_scan_number_bounds(
                s,
                pos + 1,
                line,
                lex.push(s[pos]),
                whole * 10 + digit_val(s[pos]),
                frac,
                frac_len,
                false,
            );
        }
    } else if pos < s.len() && s[pos] == '.' && !is_dec {
        lemma_scan_number_bounds(s, pos + 1, line, lex.push('.'), whole, frac, frac_len, true);
    }
}

/// Bounds of `scan_ident`: it stays inside the input and never moves the
/// line counter.
proof fn lemma_scan_ident_bounds(s: Seq<char>, pos: int, line: int, acc: Seq<char>)
    requires
        0 <= pos <= s.len(),
    ensures
        pos <= scan_ident(s, pos, line, acc).1 <= s.len(),
        scan_ident(s, pos, line, acc).2 == line,
    decreases s.len() - pos,
{
    if pos < s.len() && is_alnum(s[pos]) {
        lemma_scan_ident_bounds(s, pos + 1, line, acc.push(s[pos]));
    }
}

/// Bounds of a lexer step: on unconsumed input it strictly advances, it stays
/// inside the input, and the line counter grows by at most the number of
/// characters consumed.
pub proof fn lemma_next_token_bounds(s: Seq<char>, pos: int, line: int)
    requires
        0 <= pos <= s.len(),
    ensures
        pos <= next_token(s, pos, line).1 <= s.len(),
        pos < s.len() ==> next_token(s, pos, line).1 > pos,
        line <= next_token(s, pos, line).2 <= line + (next_token(s, pos, line).1 - pos),
{
    if pos < s.len() {
        let c = s[pos];
        if c == '/' && pos + 1 < s.len() && s[pos + 1] == '/' {
            lemma_scan_comment_bounds(s, pos + 2, line, seq!['/', '/']);
        } else if c == '"' {
            lemma_scan_string_bounds(s, pos + 1, line, Seq::empty());
        } else if is_digit(c) {
            lemma_scan_number_bounds(s, pos + 1, line, seq![c], digit_val(c), 0, 0, false);
        } else if is_alpha(c) {
            lemma_scan_ident_bounds(s, pos + 1, line, seq![c]);
        }
    }
}

/// The whole token stream from `pos` on: scan tokens until the input is
/// exhausted, then exactly one `Eof` token.
pub open spec fn token_stream(s: Seq<char>, pos: int, line: int) -> Seq<
    Result<TokenModel, LexErrorModel>,
>
    recommends
        0 <= pos <= s.len(),
    decreases s.len() - pos,
{
    if pos >= s.len() {
        seq![Result::Ok(eof_model(line))]
    } else {
        let (t, p, l) = next_token(s, pos, line);
        let p2 = if p <= pos {
            pos + 1
        } else if p > s.len() {
            s.len() as int
        } else {
            p
        };
        seq![t] + token_stream(s, p2, l)
    }
}

/// The model of a produced token-or-error result.
pub open spec fn scan_result_view(r: Result<Token, LexError>) -> Result<TokenModel, LexErrorModel> {
    match r {
        Result::Ok(t) => Result::Ok(t@),
        Result::Err(e) => Result::Err(e@),
    }
}

/// The models of a sequence of produced results.
pub open spec fn scan_results_view(v: Seq<Result<Token, LexError>>) -> Seq<
    Result<TokenModel, LexErrorModel>,
> {
    v.map_values(|r: Result<Token, LexError>| scan_result_view(r))
}

fn ch_is_digit(c: char) -> (r: bool)
    ensures
        r == is_digit(c),
{
    '0' <= c && c <= '9'
}

fn ch_is_alpha(c: char) -> (r: bool)
    ensures
        r == is_alpha(c),
{
    ('a' <= c && c <= 'z') || ('A' <= c && c <= 'Z') || c == '_'
}

fn ch_is_alnum(c: char) -> (r: bool)
    ensures
        r == is_alnum(c),
{
    ch_is_alpha(c) || ch_is_digit(c)
}

fn lexeme_of(s: &str, start: usize, end: usize) -> (r: String)
    requires
        start <= end <= s@.len(),
    ensures
        r@ == s@.subrange(start as int, end as int),
{
    s.substring_char(start, end).to_owned()
}

/// Whether `a` has exactly the characters of the literal `lit`.
fn str_is(a: &String, lit: &str) -> (r: bool)
    ensures
        r == (a@ == lit@),
{
    let b: String = lit.to_owned();
    *a == b
}

fn keyword_of(lex: &String) -> (k: TokenType)
    ensures
        k == keyword_kind(lex@),
{
    if str_is(lex, "and") {
        TokenType::And
    } else if str_is(lex, "class") {
        TokenType::Class
    } else if str_is(lex, "else") {
        TokenType::Else
    } else if str_is(lex, "false") {
        TokenType::False
    } else if str_is(lex, "for") {
        TokenType::For
    } else if str_is(lex, "fun") {
        TokenType::Fun
    } else if str_is(lex, "if") {
        TokenType::If
    } else if str_is(lex, "nil") {
        TokenType::Nil
    } else if str_is(lex, "or") {
        TokenType::Or
    } else if str_is(lex, "print") {
        TokenType::Print
    } else if str_is(lex, "return") {
        TokenType::Return
    } else if str_is(lex, "super") {
        TokenType::Super
    } else if str_is(lex, "this") {
        TokenType::This
    } else if str_is(lex, "true") {
        TokenType::True
    } else if str_is(lex, "var") {
        TokenType::Var
    } else if str_is(lex, "while") {
        TokenType::While
    } else {
        TokenType::Identifier
    }
}

fn scan_comment_at(s: &str, n: usize, start: usize, p: usize, line: i32) -> (r: (
    Result<Token, LexError>,
    usize,
    i32,
))
    requires
        n == s@.len(),
        start + 2 <= p <= n,
        1 <= line < i32::MAX,
    ensures
        scan_result_view(r.0) == scan_comment(s@, p as int, line as int, s@.subrange(start as int, p as int)).0,
        r.1 as int == scan_comment(s@, p as int, line as int, s@.subrange(start as int, p as int)).1,
        r.2 as int == scan_comment(s@, p as int, line as int, s@.subrange(start as int, p as int)).2,
    decreases n - p,
{
    if p >= n {
        let t = Token {
            token_type: TokenType::SingleLineComment,
            lexeme: lexeme_of(s, start, p),
            literal: Option::None,
            line,
        };
        (Result::Ok(t), p, line + 1)
    } else {
        let c = s.get_char(p);
        if c == '\n' {
            let t = Token {
                token_type: TokenType::SingleLineComment,
                lexeme: lexeme_of(s, start, p),
                literal: Option::None,
                line,
            };
            (Result::Ok(t), p + 1, line + 1)
        } else {
            proof {
                assert(s@.subrange(start as int, p as int + 1) =~= s@.subrange(
                    start as int,
                    p as int,
                ).push(s@[p as int]));
            }
            scan_comment_at(s, n, start, p + 1, line)
        }
    }
}

fn scan_string_at(s: &str, n: usize, start: usize, p: usize, line: i32) -> (r: (
    Result<Token, LexError>,
    usize,
    i32,
))
    requires
        n == s@.len(),
        start < p <= n,
        s@[start as int] == '"',
        1 <= line,
        line + (n - p) < i32::MAX,
    ensures
        scan_result_view(r.0) == scan_string(s@, p as int, line as int, s@.subrange(start as int + 1, p as int)).0,
        r.1 as int == scan_string(s@, p as int, line as int, s@.subrange(start as int + 1, p as int)).1,
        r.2 as int == scan_string(s@, p as int, line as int, s@.subrange(start as int + 1, p as int)).2,
    decreases n - p,
{
    if p >= n {
        (Result::Err(LexError::UnterminatedString(line)), p, line)
    } else {
        let c = s.get_char(p);
        if c == '"' {
            let content = lexeme_of(s, start + 1, p);
            let lexeme = lexeme_of(s, start, p + 1);
            let t = Token {
                token_type: TokenType::String,
                lexeme,
                literal: Option::Some(TokenLiteral::String(content)),
                line,
            };
            proof {
                assert(s@.subrange(start as int, p as int + 1) =~= seq!['"'] + s@.subrange(
                    start as int + 1,
                    p as int,
                ) + seq!['"']);
            }
            (Result::Ok(t), p + 1, line)
        } else if c == '\n' {
            proof {
                assert(s@.subrange(start as int + 1, p as int + 1) =~= s@.subrange(
                    start as int + 1,
                    p as int,
                ).push('\n'));
            }
            scan_string_at(s, n, start, p + 1, line + 1)
        } else {
            proof {
                assert(s@.subrange(start as int + 1, p as int + 1) =~= s@.subrange(
                    start as int + 1,
                    p as int,
                ).push(s@[p as int]));
            }
            scan_string_at(s, n, start, p + 1, line)
        }
    }
}

#[verifier::rlimit(30)]
fn scan_number_at(
    s: &str,
    n: usize,
    start: usize,
    p: usize,
    line: i32,
    whole: i64,
    whole_big: bool,
    Ghost(whole_s): Ghost<int>,
    frac: u64,
    frac_big: bool,
    Ghost(frac_s): Ghost<int>,
    frac_len: usize,
    is_dec: bool,
) -> (r: (Result<Token, LexError>, usize, i32))
    requires
        n == s@.len(),
        start < p <= n,
        1 <= line,
        whole_s >= 0,
        frac_s >= 0,
        !whole_big ==> whole >= 0 && whole_s == whole as int,
        whole_big ==> whole_s > i64::MAX,
        !frac_big ==> frac_s == frac as int,
        frac_big ==> frac_s > u64::MAX,
        frac_len <= p,
    ensures
        scan_result_view(r.0) == scan_number(
            s@,
            p as int,
            line as int,
            s@.subrange(start as int, p as int),
            whole_s,
            frac_s,
            frac_len as int,
            is_dec,
        ).0,
        r.1 as int == scan_number(
            s@,
            p as int,
            line as int,
            s@.subrange(start as int, p as int),
            whole_s,
            frac_s,
            frac_len as int,
            is_dec,
        ).1,
        r.2 as int == scan_number(
            s@,
            p as int,
            line as int,
            s@.subrange(start as int, p as int),
            whole_s,
            frac_s,
            frac_len as int,
            is_dec,
        ).2,
    decreases n - p,
{
    let (more, c) = if p < n {
        (true, s.get_char(p))
    } else {
        (false, '\0')
    };
    if more && ch_is_digit(c) {
        let d: u64 = (c as u32 - '0' as u32) as u64;
        proof {
            assert(d as int == digit_val(s@[p as int]));
            assert(s@.subrange(start as int, p as int + 1) =~= s@.subrange(
                start as int,
                p as int,
            ).push(s@[p as int]));
        }
        if is_dec {
            if frac_big || frac > (u64::MAX - d) / 10 {
                proof {
                    if !frac_big {
                        assert((u64::MAX - d) / 10 * 10 + (u64::MAX - d) % 10 == u64::MAX - d);
                        assert(frac_s * 10 + d > u64::MAX);
                    } else {
                        assert(frac_s * 10 + d > u64::MAX);
                    }
                }
                scan_number_at(
                    s,
                    n,
                    start,
                    p + 1,
                    line,
                    whole,
                    whole_big,
                    Ghost(whole_s),
                    frac,
                    true,
                    Ghost(frac_s * 10 + d),
                    frac_len + 1,
                    true,
                )
            } else {
                proof {
                    assert((u64::MAX - d) / 10 * 10 + (u64::MAX - d) % 10 == u64::MAX - d);
                    assert(frac * 10 + d <= u64::MAX);
                }
                scan_number_at(
                    s,
                    n,
                    start,
                    p + 1,
                    line,
                    whole,
                    whole_big,
                    Ghost(whole_s),
                    frac * 10 + d,
                    false,
                    Ghost(frac_s * 10 + d),
                    frac_len + 1,
                    true,
                )
            }
        } else {
            if whole_big || whole > (i64::MAX - d as i64) / 10 {
                proof {
                    if !whole_big {
                        assert((i64::MAX - d) / 10 * 10 + (i64::MAX - d) % 10 == i64::MAX - d);
                        assert(whole_s * 10 + d > i64::MAX);
                    } else {
                        assert(whole_s * 10 + d > i64::MAX);
                    }
                }
                scan_number_at(
                    s,
                    n,
                    start,
                    p + 1,
                    line,
                    whole,
                    true,
                    Ghost(whole_s * 10 + d),
                    frac,
                    frac_big,
                    Ghost(frac_s),
                    frac_len,
                    false,
                )
            } else {
                proof {
                    assert((i64::MAX - d) / 10 * 10 + (i64::MAX - d) % 10 == i64::MAX - d);
                    assert(whole * 10 + d <= i64::MAX);
                }
                scan_number_at(
                    s,
                    n,
                    start,
                    p + 1,
                    line,
                    whole * 10 + d as i64,
                    false,
                    Ghost(whole_s * 10 + d),
                    frac,
                    frac_big,
                    Ghost(frac_s),
                    frac_len,
                    false,
                )
            }
        }
    } else if more && c == '.' {
        if is_dec {
            let msg: String = "invalid float literal".to_owned();
            (Result::Err(LexError::UnparsableNumber(line, msg)), p, line)
        } else {
            proof {
                assert(s@.subrange(start as int, p as int + 1) =~= s@.subrange(
                    start as int,
                    p as int,
                ).push('.'));
            }
            scan_number_at(
                s,
                n,
                start,
                p + 1,
                line,
                whole,
                whole_big,
                Ghost(whole_s),
                frac,
                frac_big,
                Ghost(frac_s),
                frac_len,
                true,
            )
        }
    } else {
        if !is_dec {
            if whole_big {
                let msg: String = "number out of range".to_owned();
                (Result::Err(LexError::UnparsableNumber(line, msg)), p, line)
            } else {
                let t = Token {
                    token_type: TokenType::Integer,
                    lexeme: lexeme_of(s, start, p),
                    literal: Option::Some(TokenLiteral::Integer(whole)),
                    line,
                };
                (Result::Ok(t), p, line)
            }
        } else {
            if whole_big || frac_big {
                let msg: String = "number out of range".to_owned();
                (Result::Err(LexError::UnparsableNumber(line, msg)), p, line)
            } else {
                let t = Token {
                    token_type: TokenType::Float,
                    lexeme: lexeme_of(s, start, p),
                    literal: Option::Some(TokenLiteral::Float(whole, frac, frac_len as u64)),
                    line,
                };
                (Result::Ok(t), p, line)
            }
        }
    }
}

fn scan_ident_at(s: &str, n: usize, start: usize, p: usize, line: i32) -> (r: (
    Result<Token, LexError>,
    usize,
    i32,
))
    requires
        n == s@.len(),
        start < p <= n,
        1 <= line,
    ensures
        scan_result_view(r.0) == scan_ident(s@, p as int, line as int, s@.subrange(start as int, p as int)).0,
        r.1 as int == scan_ident(s@, p as int, line as int, s@.subrange(start as int, p as int)).1,
        r.2 as int == scan_ident(s@, p as int, line as int, s@.subrange(start as int, p as int)).2,
    decreases n - p,
{
    let (more, c) = if p < n {
        (true, s.get_char(p))
    } else {
        (false, '\0')
    };
    if more && ch_is_alnum(c) {
        proof {
            assert(s@.subrange(start as int, p as int + 1) =~= s@.subrange(
                start as int,
                p as int,
            ).push(s@[p as int]));
        }
        scan_ident_at(s, n, start, p + 1, line)
    } else {
        let lexeme = lexeme_of(s, start, p);
        let k = keyword_of(&lexeme);
        let lit = if k == TokenType::True {
            Option::Some(TokenLiteral::Bool(true))
        } else if k == TokenType::False {
            Option::Some(TokenLiteral::Bool(false))
        } else if k == TokenType::Nil {
            Option::Some(TokenLiteral::Nil)
        } else {
            Option::None
        };
        let t = Token { token_type: k, lexeme, literal: lit, line };
        (Result::Ok(t), p, line)
    }
}

fn next_token_at(s: &str, n: usize, pos: usize, line: i32) -> (r: (
    Result<Token, LexError>,
    usize,
    i32,
))
    requires
        n == s@.len(),
        pos <= n,
        1 <= line,
        line + (n - pos) < i32::MAX,
    ensures
        scan_result_view(r.0) == next_token(s@, pos as int, line as int).0,
        r.1 as int == next_token(s@, pos as int, line as int).1,
        r.2 as int == next_token(s@, pos as int, line as int).2,
{
    if pos >= n {
        proof {
            reveal_strlit("\0");
        }
        let lexeme: String = "\0".to_owned();
        assert(lexeme@ =~= seq!['\0']);
        let t = Token { token_type: TokenType::Eof, lexeme, literal: Option::None, line };
        return (Result::Ok(t), pos, line);
    }
    let c = s.get_char(pos);
    proof {
        assert(s@.subrange(pos as int, pos as int + 1) =~= seq![s@[pos as int]]);
    }
    if c == '(' || c == ')' || c == '{' || c == '}' || c == '.' || c == ',' || c == '-' || c == '+'
        || c == ';' || c == '*' {
        let k = if c == '(' {
            TokenType::LeftParen
        } else if c == ')' {
            TokenType::RightParen
        } else if c == '{' {
            TokenType::LeftBrace
        } else if c == '}' {
            TokenType::RightBrace
        } else if c == '.' {
            TokenType::Dot
        } else if c == ',' {
            TokenType::Comma
        } else if c == '-' {
            TokenType::Minus
        } else if c == '+' {
            TokenType::Plus
        } else if c == ';' {
            TokenType::SemiColon
        } else {
            TokenType::Star
        };
        let t = Token {
            token_type: k,
            lexeme: lexeme_of(s, pos, pos + 1),
            literal: Option::None,
            line,
        };
        (Result::Ok(t), pos + 1, line)
    } else if c == '!' || c == '=' || c == '<' || c == '>' {
        let (two, one) = if c == '!' {
            (TokenType::BangEqual, TokenType::Bang)
        } else if c == '=' {
            (TokenType::EqualEqual, TokenType::Equal)
        } else if c == '<' {
            (TokenType::LessEqual, TokenType::Less)
        } else {
            (TokenType::GreaterEqual, TokenType::Greater)
        };
        if pos + 1 < n && s.get_char(pos + 1) == '=' {
            proof {
                assert(s@.subrange(pos as int, pos as int + 2) =~= seq![
                    s@[pos as int],
                    s@[pos as int + 1],
                ]);
            }
            let t = Token {
                token_type: two,
                lexeme: lexeme_of(s, pos, pos + 2),
                literal: Option::None,
                line,
            };
            (Result::Ok(t), pos + 2, line)
        } else {
            let t = Token {
                token_type: one,
                lexeme: lexeme_of(s, pos, pos + 1),
                literal: Option::None,
                line,
            };
            (Result::Ok(t), pos + 1, line)
        }
    } else if c == '/' {
        if pos + 1 < n && s.get_char(pos + 1) == '/' {
            proof {
                assert(s@.subrange(pos as int, pos as int + 2) =~= seq!['/', '/']);
            }
            scan_comment_at(s, n, pos, pos + 2, line)
        } else {
            let t = Token {
                token_type: TokenType::Slash,
                lexeme: lexeme_of(s, pos, pos + 1),
                literal: Option::None,
                line,
            };
            (Result::Ok(t), pos + 1, line)
        }
    } else if c == ' ' || c == '\r' || c == '\t' {
        let t = Token {
            token_type: TokenType::Whitespace,
            lexeme: lexeme_of(s, pos, pos + 1),
            literal: Option::None,
            line,
        };
        (Result::Ok(t), pos + 1, line)
    } else if c == '\n' {
        let t = Token {
            token_type: TokenType::Whitespace,
            lexeme: lexeme_of(s, pos, pos + 1),
            literal: Option::None,
            line: line + 1,
        };
        (Result::Ok(t), pos + 1, line + 1)
    } else if c == '"' {
        assert(s@.subrange(pos as int + 1, pos as int + 1) =~= Seq::<char>::empty());
        scan_string_at(s, n, pos, pos + 1, line)
    } else if ch_is_digit(c) {
        let d: u64 = (c as u32 - '0' as u32) as u64;
        proof {
            assert(d as int == digit_val(s@[pos as int]));
        }
        scan_number_at(
            s,
            n,
            pos,
            pos + 1,
            line,
            d as i64,
            false,
            Ghost(digit_val(s@[pos as int])),
            0,
            false,
            Ghost(0),
            0,
            false,
        )
    } else if ch_is_alpha(c) {
        scan_ident_at(s, n, pos, pos + 1, line)
    } else {
        let text = lexeme_of(s, pos, pos + 1);
        (Result::Err(LexError::UnexpectedToken(line, text)), pos + 1, line)
    }
}

/// A lexer with its position state: the source text, the position of the
/// next character, and the current line.
pub struct Scanner {
    pub source: String,
    pub pos: usize,
    pub line: i32,
}

impl Scanner {
    /// The scanner is inside its source and its line counter cannot
    /// overflow while scanning the rest.
    pub open spec fn wf(&self) -> bool {
        self.pos <= self.source@.len() && 1 <= self.line && self.line + (self.source@.len()
            - self.pos) < i32::MAX
    }

    /// A fresh scanner over `source`, at the start, on line 1.
    pub fn new(source: &String) -> (r: Scanner)
        requires
            source@.len() + 1 < i32::MAX,
        ensures
            r.source@ == source@,
            r.pos == 0,
            r.line == 1,
            r.wf(),
    {
        Scanner { source: source.clone(), pos: 0, line: 1 }
    }

    /// Whether the whole source has been consumed.
    pub fn is_at_end(&self) -> (r: bool)
        ensures
            r == (self.pos >= self.source@.len()),
    {
        let n = self.source.as_str().unicode_len();
        self.pos >= n
    }

    fn scan_token(&mut self) -> (r: Result<Token, LexError>)
        requires
            old(self).wf(),
        ensures
            final(self).wf(),
            final(self).source@ == old(self).source@,
            scan_result_view(r) == next_token(old(self).source@, old(self).pos as int, old(self).line as int).0,
            final(self).pos as int == next_token(old(self).source@, old(self).pos as int, old(self).line as int).1,
            final(self).line as int == next_token(old(self).source@, old(self).pos as int, old(self).line as int).2,
    {
        let n = self.source.as_str().unicode_len();
        proof {
            lemma_next_token_bounds(self.source@, self.pos as int, self.line as int);
        }
        let (r, p, l) = next_token_at(self.source.as_str(), n, self.pos, self.line);
        self.pos = p;
        self.line = l;
        r
    }

    /// Scans the rest of the source into an ordered sequence of results,
    /// terminated by exactly one `Eof` token, as `token_stream` describes.
    pub fn scan_tokens(&mut self) -> (r: Vec<Result<Token, LexError>>)
        requires
            old(self).wf(),
        ensures
            scan_results_view(r@) == token_stream(
                old(self).source@,
                old(self).pos as int,
                old(self).line as int,
            ),
    {
        let mut out: Vec<Result<Token, LexError>> = Vec::new();
        let n = self.source.as_str().unicode_len();
        while self.pos < n
            invariant
                self.wf(),
                n == self.source@.len(),
                self.source@ == old(self).source@,
                scan_results_view(out@) + token_stream(
                    self.source@,
                    self.pos as int,
                    self.line as int,
                ) == token_stream(old(self).source@, old(self).pos as int, old(self).line as int),
            decreases n - self.pos,
        {
            let ghost pos0 = self.pos as int;
            let ghost line0 = self.line as int;
            let ghost out0 = out@;
            proof {
                lemma_next_token_bounds(self.source@, pos0, line0);
            }
            let t = self.scan_token();
            out.push(t);
            proof {
                assert(scan_results_view(out@) =~= scan_results_view(out0).push(
                    scan_result_view(t),
                ));
                assert(token_stream(self.source@, pos0, line0) == seq![
                    scan_result_view(t),
                ] + token_stream(self.source@, self.pos as int, self.line as int));
                assert(scan_results_view(out@) + token_stream(
                    self.source@,
                    self.pos as int,
                    self.line as int,
                ) =~= (scan_results_view(out0) + token_stream(self.source@, pos0, line0)));
            }
        }
        proof {
            reveal_strlit("\0");
        }
        let lexeme: String = "\0".to_owned();
        assert(lexeme@ =~= seq!['\0']);
        let t = Token { token_type: TokenType::Eof, lexeme, literal: Option::None, line: self.line };
        out.push(Result::Ok(t));
        proof {
            assert(token_stream(self.source@, self.pos as int, self.line as int) =~= seq![
                Result::<TokenModel, LexErrorModel>::Ok(eof_model(self.line as int)),
            ]);
            assert(scan_results_view(out@) =~= token_stream(
                old(self).source@,
                old(self).pos as int,
                old(self).line as int,
            ));
        }
        out
    }
}

impl Token {
    /// Lexes the whole of `source` from its start: every token and lexical
    /// error in order, terminated by exactly one `Eof` token.
    pub fn tokenize(source: String) -> (r: Vec<Result<Token, LexError>>)
        requires
            source@.len() + 1 < i32::MAX,
        ensures
            scan_results_view(r@) == token_stream(source@, 0, 1),
    {
        let mut scanner = Scanner::new(&source);
        scanner.scan_tokens()
    }
}

} // verus!
