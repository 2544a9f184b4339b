//! The scanner: source text to tokens.
//!
//! `scan_spec` is the mathematical scanner: a recursive function over the
//! character sequence giving the exact token and error lists. `scan_tokens`
//! is the executable scanner, proved to return precisely `scan_spec`'s
//! result.

use vstd::prelude::*;
use vstd::string::StrSliceExecFns;
use vstd::string::StringExecFns;
use crate::error::Error;
use crate::error::ErrorDetail;
use crate::error::ErrorDetailView;
use crate::error::ErrorView;
use crate::error::details_view;
use crate::number::bits_of_decimal;
use crate::number::is_number_lexeme;
use crate::text::is_alnum;
use crate::text::is_alpha;
use crate::text::is_digit;
use crate::token::Literal;
use crate::token::LiteralView;
use crate::token::Token;
use crate::token::TokenType;
use crate::token::TokenView;
use crate::token::tokens_view;

verus! {

/// The first position at or after `i` that is not a decimal digit.
pub open spec fn end_digits(s: Seq<char>, i: int) -> int
    decreases s.len() - i,
{
    if 0 <= i < s.len() && is_digit(s[i]) {
        end_digits(s, i + 1)
    } else {
        i
    }
}

/// The first position at or after `i` that cannot continue an identifier.
pub open spec fn end_alnum(s: Seq<char>, i: int) -> int
    decreases s.len() - i,
{
    if 0 <= i < s.len() && is_alnum(s[i]) {
        end_alnum(s, i + 1)
    } else {
        i
    }
}

/// The first position at or after `i` holding `c`, or the length.
pub open spec fn find_char(s: Seq<char>, i: int, c: char) -> int
    decreases s.len() - i,
{
    if 0 <= i < s.len() {
        if s[i] == c {
            i
        } else {
            find_char(s, i + 1, c)
        }
    } else {
        s.len() as int
    }
}

/// How many newlines `s` holds in positions `[i, j)`.
pub open spec fn count_nl(s: Seq<char>, i: int, j: int) -> nat
    decreases j - i,
{
    if i < j && 0 <= i < s.len() {
        (if s[i] == '\n' {
            1nat
        } else {
            0nat
        }) + count_nl(s, i + 1, j)
    } else {
        0
    }
}

/// A line counter advanced by `k`, saturating at the largest line number.
pub open spec fn sat_line(line: u32, k: nat) -> u32 {
    if line + k > 0xffff_ffff {
        0xffff_ffffu32
    } else {
        (line + k) as u32
    }
}

pub proof fn lemma_end_digits(s: Seq<char>, i: int)
    requires
        0 <= i <= s.len(),
    ensures
        i <= end_digits(s, i) <= s.len(),
        forall|k: int| i <= k < end_digits(s, i) ==> is_digit(s[k]),
        end_digits(s, i) < s.len() ==> !is_digit(s[end_digits(s, i)]),
        i < s.len() && is_digit(s[i]) ==> end_digits(s, i) > i,
    decreases s.len() - i,
{
    if i < s.len() && is_digit(s[i]) {
        lemma_end_digits(s, i + 1);
    }
}

pub proof fn lemma_end_alnum(s: Seq<char>, i: int)
    requires
        0 <= i <= s.len(),
    ensures
        i <= end_alnum(s, i) <= s.len(),
        forall|k: int| i <= k < end_alnum(s, i) ==> is_alnum(s[k]),
        end_alnum(s, i) < s.len() ==> !is_alnum(s[end_alnum(s, i)]),
        i < s.len() && is_alnum(s[i]) ==> end_alnum(s, i) > i,
    decreases s.len() - i,
{
    if i < s.len() && is_alnum(s[i]) {
        lemma_end_alnum(s, i + 1);
    }
}

pub proof fn lemma_find_char(s: Seq<char>, i: int, c: char)
    requires
        0 <= i <= s.len(),
    ensures
        i <= find_char(s, i, c) <= s.len(),
        forall|k: int| i <= k < find_char(s, i, c) ==> s[k] != c,
        find_char(s, i, c) < s.len() ==> s[find_char(s, i, c)] == c,
    decreases s.len() - i,
{
    if i < s.len() && s[i] != c {
        lemma_find_char(s, i + 1, c);
    }
}

pub proof fn lemma_count_nl_step(s: Seq<char>, a: int, k: int)
    requires
        0 <= a <= k < s.len(),
    ensures
        count_nl(s, a, k + 1) == count_nl(s, a, k) + (if s[k] == '\n' {
            1nat
        } else {
            0nat
        }),
    decreases k - a,
{
    if a < k {
        lemma_count_nl_step(s, a + 1, k);
    } else {
        assert(count_nl(s, k, k) == 0);
        assert(count_nl(s, k + 1, k + 1) == 0);
    }
}

/// The token kind of an identifier lexeme: a keyword's kind, or `Identifier`.
pub open spec fn keyword_ty(lex: Seq<char>) -> TokenType {
    if lex == "and"@ {
        TokenType::And
    } else if lex == "class"@ {
        TokenType::Class
    } else if lex == "else"@ {
        TokenType::Else
    } else if lex == "false"@ {
        TokenType::False
    } else if lex == "for"@ {
        TokenType::For
    } else if lex == "fun"@ {
        TokenType::Fun
    } else if lex == "if"@ {
        TokenType::If
    } else if lex == "nil"@ {
        TokenType::Nil
    } else if lex == "or"@ {
        TokenType::Or
    } else if lex == "print"@ {
        TokenType::Print
    } else if lex == "return"@ {
        TokenType::Return
    } else if lex == "super"@ {
        TokenType::Super
    } else if lex == "this"@ {
        TokenType::This
    } else if lex == "true"@ {
        TokenType::True
    } else if lex == "var"@ {
        TokenType::Var
    } else if lex == "while"@ {
        TokenType::While
    } else {
        TokenType::Identifier
    }
}

/// A token without a literal payload.
pub open spec fn tokv(ty: TokenType, lex: Seq<char>, line: u32) -> TokenView {
    TokenView { ty, lexeme: lex, literal: None, line }
}

/// Prepends a token to a scan result.
pub open spec fn cons_tok(
    t: TokenView,
    rest: (Seq<TokenView>, Seq<ErrorDetailView>),
) -> (Seq<TokenView>, Seq<ErrorDetailView>) {
    (seq![t] + rest.0, rest.1)
}

/// Prepends an error to a scan result.
pub open spec fn cons_err(
    e: ErrorDetailView,
    rest: (Seq<TokenView>, Seq<ErrorDetailView>),
) -> (Seq<TokenView>, Seq<ErrorDetailView>) {
    (rest.0, seq![e] + rest.1)
}

/// The tokens and errors that scanning `s` from position `i` at line `line`
/// yields, ending with the end-of-input token. An unterminated string stops
/// the scan.
pub open spec fn scan_spec(s: Seq<char>, i: int, line: u32) -> (Seq<TokenView>, Seq<
    ErrorDetailView,
>)
    decreases s.len() - i,
    when 0 <= i <= s.len()
    via scan_spec_dec
{
    if i >= s.len() {
        (
            seq![tokv(TokenType::Eof, Seq::<char>::empty(), line)],
            Seq::<ErrorDetailView>::empty(),
        )
    } else {
        let c = s[i];
        if c == '(' {
            cons_tok(tokv(TokenType::LeftParen, s.subrange(i, i + 1), line), scan_spec(s, i + 1, line))
        } else if c == ')' {
            cons_tok(tokv(TokenType::RightParen, s.subrange(i, i + 1), line), scan_spec(s, i + 1, line))
        } else if c == '{' {
            cons_tok(tokv(TokenType::LeftBrace, s.subrange(i, i + 1), line), scan_spec(s, i + 1, line))
        } else if c == '}' {
            cons_tok(tokv(TokenType::RightBrace, s.subrange(i, i + 1), line), scan_spec(s, i + 1, line))
        } else if c == ',' {
            cons_tok(tokv(TokenType::Comma, s.subrange(i, i + 1), line), scan_spec(s, i + 1, line))
        } else if c == '.' {
            cons_tok(tokv(TokenType::Dot, s.subrange(i, i + 1), line), scan_spec(s, i + 1, line))
        } else if c == '-' {
            cons_tok(tokv(TokenType::Minus, s.subrange(i, i + 1), line), scan_spec(s, i + 1, line))
        } else if c == '+' {
            cons_tok(tokv(TokenType::Plus, s.subrange(i, i + 1), line), scan_spec(s, i + 1, line))
        } else if c == ';' {
            cons_tok(tokv(TokenType::Semicolon, s.subrange(i, i + 1), line), scan_spec(s, i + 1, line))
        } else if c == '*' {
            cons_tok(tokv(TokenType::Star, s.subrange(i, i + 1), line), scan_spec(s, i + 1, line))
        } else if c == '!' {
            if i + 1 < s.len() && s[i + 1] == '=' {
                cons_tok(tokv(TokenType::BangEqual, s.subrange(i, i + 2), line), scan_spec(s, i + 2, line))
            } else {
                cons_tok(tokv(TokenType::Bang, s.subrange(i, i + 1), line), scan_spec(s, i + 1, line))
            }
        } else if c == '=' {
            if i + 1 < s.len() && s[i + 1] == '=' {
                cons_tok(
                    tokv(TokenType::EqualEqual, s.subrange(i, i + 2), line),
                    scan_spec(s, i + 2, line),
                )
            } else {
                cons_tok(tokv(TokenType::Equal, s.subrange(i, i + 1), line), scan_spec(s, i + 1, line))
            }
        } else if c == '<' {
            if i + 1 < s.len() && s[i + 1] == '=' {
                cons_tok(tokv(TokenType::LessEqual, s.subrange(i, i + 2), line), scan_spec(s, i + 2, line))
            } else {
                cons_tok(tokv(TokenType::Less, s.subrange(i, i + 1), line), scan_spec(s, i + 1, line))
            }
        } else if c == '>' {
            if i + 1 < s.len() && s[i + 1] == '=' {
                cons_tok(
                    tokv(TokenType::GreaterEqual, s.subrange(i, i + 2), line),
                    scan_spec(s, i + 2, line),
                )
            } else {
                cons_tok(tokv(TokenType::Greater, s.subrange(i, i + 1), line), scan_spec(s, i + 1, line))
            }
        } else if c == '/' {
            if i + 1 < s.len() && s[i + 1] == '/' {
                scan_spec(s, find_char(s, i + 2, '\n'), line)
            } else {
                cons_tok(tokv(TokenType::Slash, s.subrange(i, i + 1), line), scan_spec(s, i + 1, line))
            }
        } else if c == ' ' || c == '\r' || c == '\t' {
            scan_spec(s, i + 1, line)
        } else if c == '\n' {
            scan_spec(s, i + 1, sat_line(line, 1))
        } else if c == '"' {
            let close = find_char(s, i + 1, '"');
            let line2 = sat_line(line, count_nl(s, i + 1, close));
            if close >= s.len() {
                (
                    seq![tokv(TokenType::Eof, Seq::<char>::empty(), line2)],
                    seq![
                        ErrorDetailView { line: line2, message: "Unterminated string."@ },
                    ],
                )
            } else {
                let content = s.subrange(i + 1, close);
                cons_tok(
                    TokenView {
                        ty: TokenType::String,
                        lexeme: content,
                        literal: Some(LiteralView::Str(content)),
                        line: line2,
                    },
                    scan_spec(s, close + 1, line2),
                )
            }
        } else if is_digit(c) {
            let e1 = end_digits(s, i);
            let e2 = if e1 + 1 < s.len() && s[e1] == '.' && is_digit(s[e1 + 1]) {
                end_digits(s, e1 + 1)
            } else {
                e1
            };
            let lex = s.subrange(i, e2);
            cons_tok(
                TokenView {
                    ty: TokenType::Number,
                    lexeme: lex,
                    literal: Some(LiteralView::Number(bits_of_decimal(lex))),
                    line,
                },
                scan_spec(s, e2, line),
            )
        } else if is_alpha(c) {
            let e = end_alnum(s, i);
            let lex = s.subrange(i, e);
            cons_tok(tokv(keyword_ty(lex), lex, line), scan_spec(s, e, line))
        } else {
            cons_err(
                ErrorDetailView { line, message: "Unexpected character: "@ + seq![c] + "."@ },
                scan_spec(s, i + 1, line),
            )
        }
    }
}

#[via_fn]
proof fn scan_spec_dec(s: Seq<char>, i: int, line: u32) {
    if 0 <= i && i < s.len() {
        if i + 2 <= s.len() {
            lemma_find_char(s, i + 2, '\n');
        }
        lemma_find_char(s, i + 1, '"');
        if is_digit(s[i]) {
            lemma_end_digits(s, i);
            let e1 = end_digits(s, i);
            if e1 + 1 < s.len() && s[e1] == '.' && is_digit(s[e1 + 1]) {
                lemma_end_digits(s, e1 + 1);
            }
        }
        if is_alpha(s[i]) {
            lemma_end_alnum(s, i);
        }
    }
}

/// The position after the run of digits starting at `from`.
fn scan_digits(source: &str, from: usize) -> (r: usize)
    requires
        from <= source@.len(),
    ensures
        r == end_digits(source@, from as int),
        from <= r <= source@.len(),
    decreases source@.len() - from,
{
    proof {
        lemma_end_digits(source@, from as int);
    }
    if from < source.unicode_len() {
        let c = source.get_char(from);
        if crate::text::digit(c) {
            return scan_digits(source, from + 1);
        }
    }
    from
}

/// The position after the run of identifier characters starting at `from`.
fn scan_alnum(source: &str, from: usize) -> (r: usize)
    requires
        from <= source@.len(),
    ensures
        r == end_alnum(source@, from as int),
        from <= r <= source@.len(),
    decreases source@.len() - from,
{
    proof {
        lemma_end_alnum(source@, from as int);
    }
    if from < source.unicode_len() {
        let c = source.get_char(from);
        if crate::text::alnum(c) {
            return scan_alnum(source, from + 1);
        }
    }
    from
}

/// The first position at or after `from` holding `target`, or the length.
fn scan_to_char(source: &str, from: usize, target: char) -> (r: usize)
    requires
        from <= source@.len(),
    ensures
        r == find_char(source@, from as int, target),
        from <= r <= source@.len(),
    decreases source@.len() - from,
{
    proof {
        lemma_find_char(source@, from as int, target);
    }
    if from < source.unicode_len() {
        if source.get_char(from) != target {
            return scan_to_char(source, from + 1, target);
        }
        return from;
    }
    source.unicode_len()
}

/// The kind of an identifier lexeme.
fn lookup_keyword(lex: &str) -> (r: TokenType)
    ensures
        r == keyword_ty(lex@),
{
    if crate::text::str_eq(lex, "and") {
        TokenType::And
    } else if crate::text::str_eq(lex, "class") {
        TokenType::Class
    } else if crate::text::str_eq(lex, "else") {
        TokenType::Else
    } else if crate::text::str_eq(lex, "false") {
        TokenType::False
    } else if crate::text::str_eq(lex, "for") {
        TokenType::For
    } else if crate::text::str_eq(lex, "fun") {
        TokenType::Fun
    } else if crate::text::str_eq(lex, "if") {
        TokenType::If
    } else if crate::text::str_eq(lex, "nil") {
        TokenType::Nil
    } else if crate::text::str_eq(lex, "or") {
        TokenType::Or
    } else if crate::text::str_eq(lex, "print") {
        TokenType::Print
    } else if crate::text::str_eq(lex, "return") {
        TokenType::Return
    } else if crate::text::str_eq(lex, "super") {
        TokenType::Super
    } else if crate::text::str_eq(lex, "this") {
        TokenType::This
    } else if crate::text::str_eq(lex, "true") {
        TokenType::True
    } else if crate::text::str_eq(lex, "var") {
        TokenType::Var
    } else if crate::text::str_eq(lex, "while") {
        TokenType::While
    } else {
        TokenType::Identifier
    }
}

/// Pushes a token whose lexeme is `source[i..i+len]` and carries no
/// literal.
fn push_simple(tokens: &mut Vec<Token>, source: &str, i: usize, width: usize, ty: TokenType, line: u32)
    requires
        i + width <= source@.len(),
        i + width <= usize::MAX,
    ensures
        tokens_view(final(tokens)@) == tokens_view(old(tokens)@) + seq![
            tokv(ty, source@.subrange(i as int, i + width), line),
        ],
{
    let lex = source.substring_char(i, i + width);
    let t = Token::new(ty, String::from_str(lex), None, line);
    tokens.push(t);
    proof {
        assert(tokens@.last()@ =~= tokv(ty, source@.subrange(i as int, i + width), line));
        assert(tokens_view(tokens@) =~= tokens_view(old(tokens)@) + seq![tokens@.last()@]);
    }
}

/// Scans `source` into its token sequence, or the batch of lexical faults.
pub fn scan_tokens(source: &str) -> (r: Result<Vec<Token>, Error>)
    ensures
        ({
            let (toks, errs) = scan_spec(source@, 0, 1);
            match r {
                Ok(ts) => errs.len() == 0 && tokens_view(ts@) == toks,
                Err(e) => errs.len() > 0 && e@ == ErrorView::ScannerErrors(errs),
            }
        }),
{
    let mut tokens: Vec<Token> = Vec::new();
    let mut errors: Vec<ErrorDetail> = Vec::new();
    let mut line: u32 = 1;
    let mut i: usize = 0;
    let n = source.unicode_len();
    let ghost total = scan_spec(source@, 0, 1);
    proof {
        assert(tokens_view(tokens@) =~= Seq::<TokenView>::empty());
        assert(details_view(errors@) =~= Seq::<ErrorDetailView>::empty());
        assert(total.0 =~~= tokens_view(tokens@) + scan_spec(source@, 0, 1).0);
        assert(total.1 =~~= details_view(errors@) + scan_spec(source@, 0, 1).1);
    }
    while i < n
        invariant
            i <= n,
            n == source@.len(),
            total == scan_spec(source@, 0, 1),
            total.0 =~~= tokens_view(tokens@) + scan_spec(source@, i as int, line).0,
            total.1 =~~= details_view(errors@) + scan_spec(source@, i as int, line).1,
        decreases n - i,
    {
        let ghost pre_tokens = tokens@;
        let ghost pre_errors = errors@;
        let ghost pre_i = i as int;
        let ghost pre_line = line;
        let c = source.get_char(i);
        if c == '(' {
            push_simple(&mut tokens, source, i, 1, TokenType::LeftParen, line);
            i = i + 1;
        } else if c == ')' {
            push_simple(&mut tokens, source, i, 1, TokenType::RightParen, line);
            i = i + 1;
        } else if c == '{' {
            push_simple(&mut tokens, source, i, 1, TokenType::LeftBrace, line);
            i = i + 1;
        } else if c == '}' {
            push_simple(&mut tokens, source, i, 1, TokenType::RightBrace, line);
            i = i + 1;
        } else if c == ',' {
            push_simple(&mut tokens, source, i, 1, TokenType::Comma, line);
            i = i + 1;
        } else if c == '.' {
            push_simple(&mut tokens, source, i, 1, TokenType::Dot, line);
            i = i + 1;
        } else if c == '-' {
            push_simple(&mut tokens, source, i, 1, TokenType::Minus, line);
            i = i + 1;
        } else if c == '+' {
            push_simple(&mut tokens, source, i, 1, TokenType::Plus, line);
            i = i + 1;
        } else if c == ';' {
            push_simple(&mut tokens, source, i, 1, TokenType::Semicolon, line);
            i = i + 1;
        } else if c == '*' {
            push_simple(&mut tokens, source, i, 1, TokenType::Star, line);
            i = i + 1;
        } else if c == '!' {
            if i + 1 < n && source.get_char(i + 1) == '=' {
                push_simple(&mut tokens, source, i, 2, TokenType::BangEqual, line);
                i = i + 2;
            } else {
                push_simple(&mut tokens, source, i, 1, TokenType::Bang, line);
                i = i + 1;
            }
        } else if c == '=' {
            if i + 1 < n && source.get_char(i + 1) == '=' {
                push_simple(&mut tokens, source, i, 2, TokenType::EqualEqual, line);
                i = i + 2;
            } else {
                push_simple(&mut tokens, source, i, 1, TokenType::Equal, line);
                i = i + 1;
            }
        } else if c == '<' {
            if i + 1 < n && source.get_char(i + 1) == '=' {
                push_simple(&mut tokens, source, i, 2, TokenType::LessEqual, line);
                i = i + 2;
            } else {
                push_simple(&mut tokens, source, i, 1, TokenType::Less, line);
                i = i + 1;
            }
        } else if c == '>' {
            if i + 1 < n && source.get_char(i + 1) == '=' {
                push_simple(&mut tokens, source, i, 2, TokenType::GreaterEqual, line);
                i = i + 2;
            } else {
                push_simple(&mut tokens, source, i, 1, TokenType::Greater, line);
                i = i + 1;
            }
        } else if c == '/' {
            if i + 1 < n && source.get_char(i + 1) == '/' {
                i = scan_to_char(source, i + 2, '\n');
            } else {
                push_simple(&mut tokens, source, i, 1, TokenType::Slash, line);
                i = i + 1;
            }
        } else if c == ' ' || c == '\r' || c == '\t' {
            i = i + 1;
        } else if c == '\n' {
            if line < 0xffff_ffff {
                line = line + 1;
            }
            i = i + 1;
        } else if c == '"' {
            let close = scan_to_char(source, i + 1, '"');
            let mut k = i + 1;
            while k < close
                invariant
                    pre_i == i as int,
                    i + 1 <= k <= close,
                    close <= n,
                    n == source@.len(),
                    line == sat_line(pre_line, count_nl(source@, pre_i + 1, k as int)),
                decreases close - k,
            {
                proof {
                    lemma_count_nl_step(source@, pre_i + 1, k as int);
                }
                if source.get_char(k) == '\n' {
                    if line < 0xffff_ffff {
                        line = line + 1;
                    }
                }
                k = k + 1;
            }
            if close >= n {
                let d = ErrorDetail::new(line, "Unterminated string.");
                proof {
                    let dv = d@;
                    assert(dv.message =~= "Unterminated string."@);
                }
                errors.push(d);
                proof {
                    assert(details_view(errors@) =~= details_view(pre_errors) + seq![
                        errors@.last()@,
                    ]);
                }
                i = n;
            } else {
                let content = source.substring_char(i + 1, close);
                let owned = String::from_str(content);
                let lexeme = String::from_str(content);
                tokens.push(
                    Token::new(TokenType::String, lexeme, Some(Literal::String(owned)), line),
                );
                proof {
                    assert(tokens@.last()@ =~= TokenView {
                        ty: TokenType::String,
                        lexeme: source@.subrange(pre_i + 1, close as int),
                        literal: Some(LiteralView::Str(source@.subrange(pre_i + 1, close as int))),
                        line,
                    });
                    assert(tokens_view(tokens@) =~= tokens_view(pre_tokens) + seq![
                        tokens@.last()@,
                    ]);
                }
                i = close + 1;
            }
        } else if crate::text::digit(c) {
            let e1 = scan_digits(source, i);
            let e2 = if e1 < n && e1 + 1 < n && source.get_char(e1) == '.' && crate::text::digit(
                source.get_char(e1 + 1),
            ) {
                scan_digits(source, e1 + 1)
            } else {
                e1
            };
            proof {
                lemma_end_digits(source@, i as int);
                let s = source@;
                let lex = s.subrange(i as int, e2 as int);
                if e1 + 1 < n && s[e1 as int] == '.' && is_digit(s[e1 as int + 1]) {
                    lemma_end_digits(s, e1 as int + 1);
                }
                assert(is_digit(lex[0]));
                assert(is_digit(lex[lex.len() - 1]));
                assert forall|x: int| 0 <= x < lex.len() implies (is_digit(lex[x]) || lex[x]
                    == '.') by {
                    assert(lex[x] == s[i + x]);
                }
                assert forall|x: int, y: int|
                    0 <= x < y < lex.len() && lex[x] == '.' implies lex[y] != '.' by {
                    assert(lex[x] == s[i + x]);
                    assert(lex[y] == s[i + y]);
                }
                assert(is_number_lexeme(lex));
            }
            let lex = source.substring_char(i, e2);
            let lexeme = String::from_str(lex);
            match crate::number::parse_number(lexeme.as_str()) {
                Some(bits) => {
                    tokens.push(
                        Token::new(TokenType::Number, lexeme, Some(Literal::Number(bits)), line),
                    );
                    proof {
                        assert(tokens@.last()@ =~= TokenView {
                            ty: TokenType::Number,
                            lexeme: source@.subrange(pre_i, e2 as int),
                            literal: Some(
                                LiteralView::Number(
                                    bits_of_decimal(source@.subrange(pre_i, e2 as int)),
                                ),
                            ),
                            line,
                        });
                        assert(tokens_view(tokens@) =~= tokens_view(pre_tokens) + seq![
                            tokens@.last()@,
                        ]);
                    }
                    i = e2;
                }
                None => {
                    proof {
                        assert(false);
                    }
                    let mut msg = String::from_str("Could not parse number: ");
                    msg.append(lexeme.as_str());
                    msg.append(".");
                    errors.push(ErrorDetail::from_string(line, msg));
                    i = e2;
                }
            }
        } else if crate::text::alpha(c) {
            let e = scan_alnum(source, i);
            let lex = source.substring_char(i, e);
            let ty = lookup_keyword(lex);
            tokens.push(Token::new(ty, String::from_str(lex), None, line));
            proof {
                lemma_end_alnum(source@, i as int);
                assert(tokens@.last()@ =~= tokv(
                    keyword_ty(source@.subrange(pre_i, e as int)),
                    source@.subrange(pre_i, e as int),
                    line,
                ));
                assert(tokens_view(tokens@) =~= tokens_view(pre_tokens) + seq![tokens@.last()@]);
            }
            i = e;
        } else {
            let mut msg = String::from_str("Unexpected character: ");
            let cs = source.substring_char(i, i + 1);
            msg.append(cs);
            msg.append(".");
            proof {
                assert(source@.subrange(pre_i, pre_i + 1) =~= seq![c]);
                assert(msg@ =~= "Unexpected character: "@ + seq![c] + "."@);
            }
            errors.push(ErrorDetail::from_string(line, msg));
            proof {
                assert(details_view(errors@) =~= details_view(pre_errors) + seq![
                    errors@.last()@,
                ]);
            }
            i = i + 1;
        }
        proof {
            let s = source@;
            assert(total.0 =~~= tokens_view(tokens@) + scan_spec(s, i as int, line).0);
            assert(total.1 =~~= details_view(errors@) + scan_spec(s, i as int, line).1);
        }
    }
    let eof_lexeme = String::new();
    tokens.push(Token::new(TokenType::Eof, eof_lexeme, None, line));
    proof {
        let s = source@;
        assert(tokens@.last()@ =~= tokv(TokenType::Eof, Seq::<char>::empty(), line));
        assert(tokens_view(tokens@) =~= tokens_view(tokens@.drop_last()) + seq![tokens@.last()@]);
        assert(total.0 =~~= tokens_view(tokens@));
        assert(total.1 =~~= details_view(errors@));
    }
    if errors.len() == 0 {
        Ok(tokens)
    } else {
        Err(Error::ScannerErrors(errors))
    }
}


} // verus!

verus! {

/// Rescanning the lexeme of an identifier or keyword token yields exactly
/// one token of the same kind, then the end-of-input token: one direction
/// of the scanner round trip. (A string token's lexeme holds the content
/// without its quotes, so string lexemes do not rescan to string tokens.)
pub proof fn lemma_identifier_lexeme_rescans(s: Seq<char>)
    requires
        s.len() >= 1,
        is_alpha(s[0]),
        forall|k: int| 0 <= k < s.len() ==> is_alnum(s[k]),
    ensures
        scan_spec(s, 0, 1).0 =~= seq![
            tokv(keyword_ty(s), s, 1),
            tokv(TokenType::Eof, Seq::<char>::empty(), 1),
        ],
        scan_spec(s, 0, 1).1 =~= Seq::<ErrorDetailView>::empty(),
{
    reveal_with_fuel(scan_spec, 3);
    lemma_end_alnum(s, 0);
    assert(end_alnum(s, 0) == s.len());
    assert(s.subrange(0, s.len() as int) =~= s);
    assert(!(is_digit(s[0]) || s[0] == '"' || s[0] == '('));
}

/// Rescanning the lexeme of a number token yields exactly one number
/// token carrying the same parsed bits, then the end-of-input token.
pub proof fn lemma_number_lexeme_rescans(s: Seq<char>)
    requires
        is_number_lexeme(s),
    ensures
        scan_spec(s, 0, 1).0 =~= seq![
            TokenView {
                ty: TokenType::Number,
                lexeme: s,
                literal: Some(LiteralView::Number(bits_of_decimal(s))),
                line: 1,
            },
            tokv(TokenType::Eof, Seq::<char>::empty(), 1),
        ],
        scan_spec(s, 0, 1).1 =~= Seq::<ErrorDetailView>::empty(),
{
    reveal_with_fuel(scan_spec, 3);
    lemma_end_digits(s, 0);
    let e1 = end_digits(s, 0);
    if e1 == s.len() {
        assert(s.subrange(0, s.len() as int) =~= s);
    } else {
        assert(is_digit(s[e1]) || s[e1] == '.');
        assert(s[e1] == '.');
        assert(e1 + 1 < s.len()) by {
            assert(is_digit(s[s.len() - 1]));
        }
        assert forall|k: int| e1 < k < s.len() implies is_digit(s[k]) by {
            assert(s[k] == '.' ==> false);
        }
        lemma_end_digits(s, e1 + 1);
        assert(end_digits(s, e1 + 1) == s.len());
        assert(s.subrange(0, s.len() as int) =~= s);
    }
}

} // verus!
