//! The scanner: source text to an ordered token sequence.
//!
//! `scan_from` is the mathematical model: a single left-to-right pass
//! with one- and two-character lookahead that collects every lexical
//! error rather than stopping at the first. `Scanner::scan_tokens` is
//! proved to return exactly what the model says.

use vstd::prelude::*;
use crate::numerics::{is_digit_char, is_number_lexeme, dec_seq, dbl_of_decimal, dbl_parse_bits, usize_to_string};
use crate::token::{LiterialValue, LitV, Token, TokenType, TokV};

verus! {

/// A letter or underscore: what may start an identifier.
pub open spec fn is_alpha_char(c: char) -> bool {
    ('a' <= c && c <= 'z') || ('A' <= c && c <= 'Z') || c == '_'
}

/// What may continue an identifier.
pub open spec fn is_alnum_char(c: char) -> bool {
    is_digit_char(c) || is_alpha_char(c)
}

/// The first index at or after `i` that does not hold a digit.
pub open spec fn digits_end(src: Seq<char>, i: nat) -> nat
    decreases src.len() - i,
{
    if i >= src.len() {
        src.len()
    } else if is_digit_char(src[i as int]) {
        digits_end(src, i + 1)
    } else {
        i
    }
}

/// What `digits_end` returns: a run of digits ended by the first other
/// character or the end of the text.
pub proof fn lemma_digits_end(src: Seq<char>, i: nat)
    requires
        i <= src.len(),
    ensures
        i <= digits_end(src, i) <= src.len(),
        forall |j: int| i <= j < digits_end(src, i) ==> is_digit_char(src[j]),
        digits_end(src, i) < src.len() ==> !is_digit_char(src[digits_end(src, i) as int]),
    decreases src.len() - i,
{
    if i < src.len() && is_digit_char(src[i as int]) {
        lemma_digits_end(src, i + 1);
    }
}

/// The first index at or after `i` that does not hold an identifier
/// character.
pub open spec fn word_end(src: Seq<char>, i: nat) -> nat
    decreases src.len() - i,
{
    if i >= src.len() {
        src.len()
    } else if is_alnum_char(src[i as int]) {
        word_end(src, i + 1)
    } else {
        i
    }
}

/// What `word_end` returns.
pub proof fn lemma_word_end(src: Seq<char>, i: nat)
    requires
        i <= src.len(),
    ensures
        i <= word_end(src, i) <= src.len(),
        forall |j: int| i <= j < word_end(src, i) ==> is_alnum_char(src[j]),
        word_end(src, i) < src.len() ==> !is_alnum_char(src[word_end(src, i) as int]),
    decreases src.len() - i,
{
    if i < src.len() && is_alnum_char(src[i as int]) {
        lemma_word_end(src, i + 1);
    }
}

/// The index of the next newline at or after `i`, or the text's length.
pub open spec fn comment_end(src: Seq<char>, i: nat) -> nat
    decreases src.len() - i,
{
    if i >= src.len() {
        src.len()
    } else if src[i as int] != '\n' {
        comment_end(src, i + 1)
    } else {
        i
    }
}

/// What `comment_end` returns.
pub proof fn lemma_comment_end(src: Seq<char>, i: nat)
    requires
        i <= src.len(),
    ensures
        i <= comment_end(src, i) <= src.len(),
        forall |j: int| i <= j < comment_end(src, i) ==> src[j] != '\n',
        comment_end(src, i) < src.len() ==> src[comment_end(src, i) as int] == '\n',
    decreases src.len() - i,
{
    if i < src.len() && src[i as int] != '\n' {
        lemma_comment_end(src, i + 1);
    }
}

/// The index of the next double quote at or after `i`, or the text's
/// length.
pub open spec fn string_end(src: Seq<char>, i: nat) -> nat
    decreases src.len() - i,
{
    if i >= src.len() {
        src.len()
    } else if src[i as int] != '"' {
        string_end(src, i + 1)
    } else {
        i
    }
}

/// What `string_end` returns.
pub proof fn lemma_string_end(src: Seq<char>, i: nat)
    requires
        i <= src.len(),
    ensures
        i <= string_end(src, i) <= src.len(),
        forall |j: int| i <= j < string_end(src, i) ==> src[j] != '"',
        string_end(src, i) < src.len() ==> src[string_end(src, i) as int] == '"',
    decreases src.len() - i,
{
    if i < src.len() && src[i as int] != '"' {
        lemma_string_end(src, i + 1);
    }
}

/// The sixteen keywords and `let`; any other word is an identifier.
pub open spec fn keyword_kind(s: Seq<char>) -> TokenType {
    if s == "and"@ { TokenType::And }
    else if s == "class"@ { TokenType::CLass }
    else if s == "else"@ { TokenType::Else }
    else if s == "false"@ { TokenType::False }
    else if s == "for"@ { TokenType::For }
    else if s == "fun"@ { TokenType::Fun }
    else if s == "if"@ { TokenType::If }
    else if s == "let"@ { TokenType::Let }
    else if s == "nil"@ { TokenType::Nil }
    else if s == "or"@ { TokenType::Or }
    else if s == "print"@ { TokenType::Print }
    else if s == "return"@ { TokenType::Return }
    else if s == "super"@ { TokenType::Super }
    else if s == "this"@ { TokenType::This }
    else if s == "true"@ { TokenType::True }
    else if s == "var"@ { TokenType::Var }
    else if s == "while"@ { TokenType::While }
    else { TokenType::Identifier }
}

/// The report for a character no rule accepts.
pub open spec fn msg_unexpected(line: nat) -> Seq<char> {
    "Unexpected character at line: "@ + dec_seq(line)
}

/// The report for a string literal no closing quote ends.
pub open spec fn msg_unterminated() -> Seq<char> {
    "Unterminated String Error!"@
}

/// The report for an integer numeral without a fractional part.
pub open spec fn msg_digit() -> Seq<char> {
    "digit Error!"@
}

/// One step of the scan at `pos`: a token, skipped text, or an error,
/// each with the position and line that follow it.
pub enum SStep {
    Lexed(TokV, nat, nat),
    Skipped(nat, nat),
    Failed(Seq<char>, nat, nat),
}

/// A one- or two-character operator token.
pub open spec fn op_step(src: Seq<char>, pos: nat, line: nat, two: TokenType, one: TokenType) -> SStep {
    if pos + 1 < src.len() && src[pos as int + 1] == '=' {
        SStep::Lexed(TokV { kind: two, lexeme: src.subrange(pos as int, pos as int + 2), lit: Option::None, line }, pos + 2, line)
    } else {
        SStep::Lexed(TokV { kind: one, lexeme: src.subrange(pos as int, pos as int + 1), lit: Option::None, line }, pos + 1, line)
    }
}

/// A single-character token.
pub open spec fn one_step(src: Seq<char>, pos: nat, line: nat, kind: TokenType) -> SStep {
    SStep::Lexed(TokV { kind, lexeme: src.subrange(pos as int, pos as int + 1), lit: Option::None, line }, pos + 1, line)
}

/// The scan rule for the character at `pos`.
pub open spec fn scan_step(src: Seq<char>, pos: nat, line: nat) -> SStep
    recommends
        pos < src.len(),
{
    let c = src[pos as int];
    if c == '(' { one_step(src, pos, line, TokenType::LeftParen) }
    else if c == ')' { one_step(src, pos, line, TokenType::RightParen) }
    else if c == '{' { one_step(src, pos, line, TokenType::LeftBrace) }
    else if c == '}' { one_step(src, pos, line, TokenType::RightBrace) }
    else if c == ',' { one_step(src, pos, line, TokenType::Comma) }
    else if c == '.' { one_step(src, pos, line, TokenType::Dot) }
    else if c == '-' { one_step(src, pos, line, TokenType::Minus) }
    else if c == '+' { one_step(src, pos, line, TokenType::Plus) }
    else if c == ';' { one_step(src, pos, line, TokenType::Semicolon) }
    else if c == '*' { one_step(src, pos, line, TokenType::Star) }
    else if c == '!' { op_step(src, pos, line, TokenType::BangEqual, TokenType::Bang) }
    else if c == '>' { op_step(src, pos, line, TokenType::GreaterEqual, TokenType::Greater) }
    else if c == '<' { op_step(src, pos, line, TokenType::LessEqual, TokenType::Less) }
    else if c == '=' { op_step(src, pos, line, TokenType::EqualEqual, TokenType::Equal) }
    else if c == '/' {
        if pos + 1 < src.len() && src[pos as int + 1] == '/' {
            SStep::Skipped(comment_end(src, pos + 2), line)
        } else {
            one_step(src, pos, line, TokenType::Slash)
        }
    }
    else if c == ' ' || c == '\r' || c == '\t' { SStep::Skipped(pos + 1, line) }
    else if c == '\n' { SStep::Skipped(pos + 1, line + 1) }
    else if c == '"' {
        let q = string_end(src, pos + 1);
        if q >= src.len() {
            SStep::Failed(msg_unterminated(), src.len(), line)
        } else {
            SStep::Lexed(TokV {
                kind: TokenType::String,
                lexeme: src.subrange(pos as int, q as int + 1),
                lit: Option::Some(LitV::StringV(src.subrange(pos as int + 1, q as int))),
                line,
            }, q + 1, line)
        }
    }
    else if is_digit_char(c) {
        let d1 = digits_end(src, pos);
        if d1 + 1 < src.len() && src[d1 as int] == '.' && is_digit_char(src[d1 as int + 1]) {
            let d2 = digits_end(src, d1 + 1);
            SStep::Lexed(TokV {
                kind: TokenType::Number,
                lexeme: src.subrange(pos as int, d2 as int),
                lit: Option::Some(LitV::FloatV(dbl_of_decimal(src.subrange(pos as int, d2 as int)))),
                line,
            }, d2, line)
        } else {
            SStep::Failed(msg_digit(), d1, line)
        }
    }
    else if is_alpha_char(c) {
        let e = word_end(src, pos);
        SStep::Lexed(TokV {
            kind: keyword_kind(src.subrange(pos as int, e as int)),
            lexeme: src.subrange(pos as int, e as int),
            lit: Option::None,
            line,
        }, e, line)
    }
    else {
        SStep::Failed(msg_unexpected(line), pos + 1, line)
    }
}

/// A whole scan's outcome: the tokens and the collected error reports.
#[verifier::ext_equal]
pub struct SScan {
    pub toks: Seq<TokV>,
    pub errs: Seq<Seq<char>>,
}

/// The next position of a step, kept strictly past `pos` and within the
/// text; the scan rules never leave that range.
pub open spec fn step_pos(pos: nat, p: nat, len: nat) -> nat {
    if pos < p && p <= len { p } else if pos + 1 <= len { pos + 1 } else { len }
}

/// The model of scanning from `pos` on: the remaining tokens, ended by
/// the end-marker token, and the remaining error reports.
pub open spec fn scan_from(src: Seq<char>, pos: nat, line: nat) -> SScan
    decreases src.len() - pos,
{
    if pos >= src.len() {
        SScan {
            toks: seq![TokV { kind: TokenType::Eof, lexeme: "EOF"@, lit: Option::None, line }],
            errs: Seq::empty(),
        }
    } else {
        match scan_step(src, pos, line) {
            SStep::Lexed(t, p, l) => {
                let rest = scan_from(src, step_pos(pos, p, src.len()), l);
                SScan { toks: seq![t] + rest.toks, errs: rest.errs }
            },
            SStep::Skipped(p, l) => scan_from(src, step_pos(pos, p, src.len()), l),
            SStep::Failed(m, p, l) => {
                let rest = scan_from(src, step_pos(pos, p, src.len()), l);
                SScan { toks: rest.toks, errs: seq![m] + rest.errs }
            },
        }
    }
}

/// The models of a sequence of tokens.
pub open spec fn toks_view(s: Seq<Token>) -> Seq<TokV> {
    s.map_values(|t: Token| t@)
}

/// The models of a sequence of error reports.
pub open spec fn errs_view(s: Seq<String>) -> Seq<Seq<char>> {
    s.map_values(|t: String| t@)
}

/// Error reports joined in order.
pub open spec fn joined_msgs(s: Seq<Seq<char>>) -> Seq<char>
    decreases s.len(),
{
    if s.len() == 0 {
        Seq::empty()
    } else {
        joined_msgs(s.subrange(0, s.len() - 1)) + s[s.len() - 1]
    }
}

/// The scanner: source text and a cursor over it.
pub struct Scanner {
    pub source: String,
    pub tokens: Vec<Token>,
    pub start: usize,
    pub current: usize,
    pub line: usize,
}

impl Scanner {
    /// A scanner at the start of the given source text.
    pub fn new(_source: String) -> (r: Self)
        ensures
            r.source@ == _source@,
            r.tokens@ == Seq::<Token>::empty(),
            r.start == 0,
            r.current == 0,
            r.line == 1,
    {
        Self { source: _source, tokens: Vec::new(), start: 0, current: 0, line: 1 }
    }

    /// The character at `i`, or the null character past the end.
    fn char_at(&self, i: usize) -> (c: char)
        ensures
            c == (if i < self.source@.len() { self.source@[i as int] } else { '\0' }),
    {
        let n = self.source.as_str().unicode_len();
        if i < n {
            self.source.as_str().get_char(i)
        } else {
            '\0'
        }
    }

    /// Whether the cursor has passed the last character.
    fn is_at_end(&self) -> (r: bool)
        ensures
            r == (self.current >= self.source@.len()),
    {
        self.current >= self.source.as_str().unicode_len()
    }

    /// The current character, without consuming it.
    fn peek(&self) -> (c: char)
        ensures
            c == (if self.current < self.source@.len() { self.source@[self.current as int] } else { '\0' }),
    {
        self.char_at(self.current)
    }

    /// The character after the current one.
    fn peek_next(&self) -> (c: char)
        ensures
            c == (if self.current + 1 < self.source@.len() { self.source@[self.current as int + 1] } else { '\0' }),
    {
        let n = self.source.as_str().unicode_len();
        if self.current < n {
            self.char_at(self.current + 1)
        } else {
            '\0'
        }
    }

    /// Consumes and returns the current character.
    fn advance(&mut self) -> (c: char)
        requires
            old(self).current < old(self).source@.len(),
        ensures
            final(self).source == old(self).source,
            final(self).tokens == old(self).tokens,
            final(self).start == old(self).start,
            final(self).line == old(self).line,
            final(self).current == old(self).current + 1,
            c == old(self).source@[old(self).current as int],
    {
        let n = self.source.as_str().unicode_len();
        let c = self.char_at(self.current);
        self.current = self.current + 1;
        c
    }

    /// Consumes the current character only when it is the expected one.
    fn second_operator_match(&mut self, expected: char) -> (r: bool)
        ensures
            r == (old(self).current < old(self).source@.len()
                && old(self).source@[old(self).current as int] == expected),
            final(self).source == old(self).source,
            final(self).tokens == old(self).tokens,
            final(self).start == old(self).start,
            final(self).line == old(self).line,
            r ==> final(self).current == old(self).current + 1,
            !r ==> final(self).current == old(self).current,
    {
        if self.is_at_end() {
            return false;
        }
        if self.peek() != expected {
            return false;
        }
        let n = self.source.as_str().unicode_len();
        self.current = self.current + 1;
        true
    }

    /// The lexeme between `start` and `current`, as an owned string.
    fn lexeme_text(&self) -> (r: String)
        requires
            self.start <= self.current <= self.source@.len(),
        ensures
            r@ == self.source@.subrange(self.start as int, self.current as int),
    {
        self.source.as_str().substring_char(self.start, self.current).to_owned()
    }

    /// Whether the current lexeme is exactly the word `w`.
    fn lexeme_is(&self, w: &str) -> (r: bool)
        requires
            self.start <= self.current <= self.source@.len(),
        ensures
            r == (self.source@.subrange(self.start as int, self.current as int) == w@),
    {
        let n = w.unicode_len();
        if self.current - self.start != n {
            proof {
                assert(self.source@.subrange(self.start as int, self.current as int).len()
                    == self.current - self.start);
            }
            return false;
        }
        let mut i: usize = 0;
        while i < n
            invariant
                self.start <= self.current <= self.source@.len(),
                n == w@.len(),
                self.current - self.start == n,
                i <= n,
                forall |j: int| 0 <= j < i
                    ==> self.source@.subrange(self.start as int, self.current as int)[j] == w@[j],
            decreases n - i,
        {
            if self.char_at(self.start + i) != w.get_char(i) {
                return false;
            }
            i = i + 1;
        }
        proof {
            assert(self.source@.subrange(self.start as int, self.current as int) =~= w@);
        }
        true
    }

    /// Appends a token for the current lexeme.
    fn add_token(&mut self, token_type: TokenType)
        requires
            old(self).start <= old(self).current <= old(self).source@.len(),
        ensures
            final(self).source == old(self).source,
            final(self).start == old(self).start,
            final(self).current == old(self).current,
            final(self).line == old(self).line,
            final(self).tokens@.len() == old(self).tokens@.len() + 1,
            final(self).tokens@.subrange(0, old(self).tokens@.len() as int) == old(self).tokens@,
            final(self).tokens@[old(self).tokens@.len() as int]@ == (TokV {
                kind: token_type,
                lexeme: old(self).source@.subrange(old(self).start as int, old(self).current as int),
                lit: Option::None,
                line: old(self).line as nat,
            }),
    {
        self.add_token_with_literial(token_type, Option::None);
    }

    /// Appends a token for the current lexeme, with a literal payload.
    fn add_token_with_literial(&mut self, token_type: TokenType, literial: Option<LiterialValue>)
        requires
            old(self).start <= old(self).current <= old(self).source@.len(),
        ensures
            final(self).source == old(self).source,
            final(self).start == old(self).start,
            final(self).current == old(self).current,
            final(self).line == old(self).line,
            final(self).tokens@.len() == old(self).tokens@.len() + 1,
            final(self).tokens@.subrange(0, old(self).tokens@.len() as int) == old(self).tokens@,
            final(self).tokens@[old(self).tokens@.len() as int]@ == (TokV {
                kind: token_type,
                lexeme: old(self).source@.subrange(old(self).start as int, old(self).current as int),
                lit: match literial {
                    Option::Some(l) => Option::Some(l@),
                    Option::None => Option::None,
                },
                line: old(self).line as nat,
            }),
    {
        let text = self.lexeme_text();
        self.tokens.push(Token {
            token_type,
            lexeme: text,
            literial,
            line_number: self.line,
        });
        proof {
            assert(final(self).tokens@.subrange(0, old(self).tokens@.len() as int)
                =~= old(self).tokens@);
        }
    }

    /// Scans one lexeme at the cursor, as `scan_step` states it: pushes
    /// the token it finds, skips what carries no token, or reports the
    /// error, and leaves the cursor after the consumed text.
    fn scan_token(&mut self) -> (r: Result<(), String>)
        requires
            old(self).start == old(self).current,
            old(self).current < old(self).source@.len(),
            old(self).source@.len() < usize::MAX,
            old(self).line <= old(self).current + 1,
        ensures
            final(self).source == old(self).source,
            final(self).start == old(self).start,
            old(self).current < final(self).current <= final(self).source@.len(),
            final(self).line <= final(self).current + 1,
            old(self).line <= final(self).line,
            match scan_step(old(self).source@, old(self).current as nat, old(self).line as nat) {
                SStep::Lexed(t, p, l) => {
                    &&& r is Ok
                    &&& final(self).tokens@.len() == old(self).tokens@.len() + 1
                    &&& final(self).tokens@.subrange(0, old(self).tokens@.len() as int) == old(self).tokens@
                    &&& final(self).tokens@[old(self).tokens@.len() as int]@ == t
                    &&& final(self).current == p
                    &&& final(self).line == l
                },
                SStep::Skipped(p, l) => {
                    &&& r is Ok
                    &&& final(self).tokens == old(self).tokens
                    &&& final(self).current == p
                    &&& final(self).line == l
                },
                SStep::Failed(m, p, l) => {
                    &&& r is Err
                    &&& r->Err_0@ == m
                    &&& final(self).tokens == old(self).tokens
                    &&& final(self).current == p
                    &&& final(self).line == l
                },
            },
    {
        let temp_char = self.advance();
        match temp_char {
            '(' => { self.add_token(TokenType::LeftParen); Result::Ok(()) },
            ')' => { self.add_token(TokenType::RightParen); Result::Ok(()) },
            '{' => { self.add_token(TokenType::LeftBrace); Result::Ok(()) },
            '}' => { self.add_token(TokenType::RightBrace); Result::Ok(()) },
            ',' => { self.add_token(TokenType::Comma); Result::Ok(()) },
            '.' => { self.add_token(TokenType::Dot); Result::Ok(()) },
            '-' => { self.add_token(TokenType::Minus); Result::Ok(()) },
            '+' => { self.add_token(TokenType::Plus); Result::Ok(()) },
            ';' => { self.add_token(TokenType::Semicolon); Result::Ok(()) },
            '*' => { self.add_token(TokenType::Star); Result::Ok(()) },
            '!' => {
                if self.second_operator_match('=') {
                    self.add_token(TokenType::BangEqual);
                } else {
                    self.add_token(TokenType::Bang);
                }
                Result::Ok(())
            },
            '>' => {
                if self.second_operator_match('=') {
                    self.add_token(TokenType::GreaterEqual);
                } else {
                    self.add_token(TokenType::Greater);
                }
                Result::Ok(())
            },
            '<' => {
                if self.second_operator_match('=') {
                    self.add_token(TokenType::LessEqual);
                } else {
                    self.add_token(TokenType::Less);
                }
                Result::Ok(())
            },
            '=' => {
                if self.second_operator_match('=') {
                    self.add_token(TokenType::EqualEqual);
                } else {
                    self.add_token(TokenType::Equal);
                }
                Result::Ok(())
            },
            '/' => {
                if self.second_operator_match('/') {
                    let ghost s0 = *self;
                    proof {
                        lemma_comment_end(self.source@, self.current as nat);
                    }
                    while self.peek() != '\n' && !self.is_at_end()
                        invariant
                            self.source == s0.source,
                            self.start == s0.start,
                            self.line == s0.line,
                            self.tokens == s0.tokens,
                            s0.current <= self.current <= self.source@.len(),
                            comment_end(self.source@, s0.current as nat)
                                == comment_end(self.source@, self.current as nat),
                        decreases self.source@.len() - self.current,
                    {
                        self.advance();
                    }
                    Result::Ok(())
                } else {
                    self.add_token(TokenType::Slash);
                    Result::Ok(())
                }
            },
            ' ' | '\r' | '\t' => Result::Ok(()),
            '\n' => {
                self.line = self.line + 1;
                Result::Ok(())
            },
            '"' => self.find_a_string(),
            _ => {
                if self.is_digit(temp_char) {
                    self.find_a_number()
                } else if self.is_alpha(temp_char) {
                    self.find_an_identifier()
                } else {
                    let mut msg = String::from_str("Unexpected character at line: ");
                    msg.append(usize_to_string(self.line).as_str());
                    Result::Err(msg)
                }
            },
        }
    }

    /// Whether `c` is a decimal digit.
    fn is_digit(&self, c: char) -> (r: bool)
        ensures
            r == is_digit_char(c),
    {
        '0' <= c && c <= '9'
    }

    /// Whether `c` may start an identifier.
    fn is_alpha(&self, c: char) -> (r: bool)
        ensures
            r == is_alpha_char(c),
    {
        ('a' <= c && c <= 'z') || ('A' <= c && c <= 'Z') || c == '_'
    }

    /// Whether `c` may continue an identifier.
    fn is_alpha_and_digit(&self, c: char) -> (r: bool)
        ensures
            r == is_alnum_char(c),
    {
        self.is_digit(c) || self.is_alpha(c)
    }

    /// Scans the rest of a string literal: everything up to the closing
    /// quote becomes the token's payload; reaching the end of the input
    /// first is an error.
    fn find_a_string(&mut self) -> (r: Result<(), String>)
        requires
            old(self).start + 1 == old(self).current,
            old(self).start < old(self).source@.len(),
            old(self).source@[old(self).start as int] == '"',
        ensures
            final(self).source == old(self).source,
            final(self).start == old(self).start,
            final(self).line == old(self).line,
            old(self).start < final(self).current <= final(self).source@.len(),
            ({
                let src = old(self).source@;
                let q = string_end(src, old(self).current as nat);
                if q >= src.len() {
                    &&& r is Err
                    &&& r->Err_0@ == msg_unterminated()
                    &&& final(self).tokens == old(self).tokens
                    &&& final(self).current == src.len()
                } else {
                    &&& r is Ok
                    &&& final(self).current == q + 1
                    &&& final(self).tokens@.len() == old(self).tokens@.len() + 1
                    &&& final(self).tokens@.subrange(0, old(self).tokens@.len() as int) == old(self).tokens@
                    &&& final(self).tokens@[old(self).tokens@.len() as int]@ == (TokV {
                        kind: TokenType::String,
                        lexeme: src.subrange(old(self).start as int, q as int + 1),
                        lit: Option::Some(LitV::StringV(src.subrange(old(self).start as int + 1, q as int))),
                        line: old(self).line as nat,
                    })
                }
            }),
    {
        let ghost s0 = *self;
        proof {
            lemma_string_end(self.source@, self.current as nat);
        }
        while self.peek() != '"' && !self.is_at_end()
            invariant
                self.source == s0.source,
                self.start == s0.start,
                self.line == s0.line,
                self.tokens == s0.tokens,
                s0.current <= self.current <= self.source@.len(),
                string_end(self.source@, s0.current as nat)
                    == string_end(self.source@, self.current as nat),
            decreases self.source@.len() - self.current,
        {
            proof {
                assert(string_end(self.source@, self.current as nat)
                    == string_end(self.source@, self.current as nat + 1));
            }
            self.advance();
        }

        if self.is_at_end() {
            return Result::Err(String::from_str("Unterminated String Error!"));
        }

        self.advance();

        let value = self.source.as_str().substring_char(self.start + 1, self.current - 1).to_owned();
        self.add_token_with_literial(TokenType::String, Option::Some(LiterialValue::StringValue(value)));
        Result::Ok(())
    }

    /// Scans the rest of a numeric literal. The fractional part is
    /// mandatory: digits with no decimal point are an error.
    fn find_a_number(&mut self) -> (r: Result<(), String>)
        requires
            old(self).start + 1 == old(self).current,
            old(self).start < old(self).source@.len(),
            is_digit_char(old(self).source@[old(self).start as int]),
        ensures
            final(self).source == old(self).source,
            final(self).start == old(self).start,
            final(self).line == old(self).line,
            old(self).start < final(self).current <= final(self).source@.len(),
            ({
                let src = old(self).source@;
                let pos = old(self).start as nat;
                let d1 = digits_end(src, pos);
                if d1 + 1 < src.len() && src[d1 as int] == '.' && is_digit_char(src[d1 as int + 1]) {
                    let d2 = digits_end(src, d1 + 1);
                    &&& r is Ok
                    &&& final(self).current == d2
                    &&& final(self).tokens@.len() == old(self).tokens@.len() + 1
                    &&& final(self).tokens@.subrange(0, old(self).tokens@.len() as int) == old(self).tokens@
                    &&& final(self).tokens@[old(self).tokens@.len() as int]@ == (TokV {
                        kind: TokenType::Number,
                        lexeme: src.subrange(pos as int, d2 as int),
                        lit: Option::Some(LitV::FloatV(dbl_of_decimal(src.subrange(pos as int, d2 as int)))),
                        line: old(self).line as nat,
                    })
                } else {
                    &&& r is Err
                    &&& r->Err_0@ == msg_digit()
                    &&& final(self).tokens == old(self).tokens
                    &&& final(self).current == d1
                }
            }),
    {
        let ghost src = self.source@;
        let ghost pos = self.start as nat;
        let ghost s0 = *self;
        proof {
            lemma_digits_end(src, pos);
            assert(digits_end(src, pos) == digits_end(src, pos + 1));
        }
        while '0' <= self.peek() && self.peek() <= '9'
            invariant
                self.source == s0.source,
                self.source@ == src,
                self.start == s0.start,
                self.line == s0.line,
                self.tokens == s0.tokens,
                s0.current <= self.current <= self.source@.len(),
                digits_end(src, pos) == digits_end(src, self.current as nat),
            decreases self.source@.len() - self.current,
        {
            proof {
                assert(self.current < self.source@.len());
                assert(is_digit_char(src[self.current as int]));
                assert(digits_end(src, self.current as nat)
                    == digits_end(src, self.current as nat + 1));
            }
            self.advance();
        }
        let ghost d1 = digits_end(src, pos);
        proof {
            assert(self.current == d1);
        }
        if self.peek() == '.' && self.is_digit(self.peek_next()) {
            self.advance();
            proof {
                lemma_digits_end(src, d1 + 1);
                assert(digits_end(src, d1 + 1) == digits_end(src, d1 + 2));
            }
            while '0' <= self.peek() && self.peek() <= '9'
                invariant
                    self.source == s0.source,
                    self.source@ == src,
                    self.start == s0.start,
                    self.line == s0.line,
                    self.tokens == s0.tokens,
                    d1 + 1 <= self.current <= self.source@.len(),
                    digits_end(src, d1 + 1) == digits_end(src, self.current as nat),
                decreases self.source@.len() - self.current,
            {
                proof {
                    assert(self.current < self.source@.len());
                    assert(is_digit_char(src[self.current as int]));
                    assert(digits_end(src, self.current as nat)
                        == digits_end(src, self.current as nat + 1));
                }
                self.advance();
            }
            let ghost d2 = digits_end(src, d1 + 1);
            let text = self.lexeme_text();
            proof {
                let lex = src.subrange(pos as int, d2 as int);
                let i = d1 - pos;
                assert(lex[i as int] == '.');
                assert forall |j: int| 0 <= j < i implies is_digit_char(lex[j]) by {
                    assert(lex[j] == src[pos + j]);
                }
                assert forall |j: int| i < j < lex.len() implies is_digit_char(lex[j]) by {
                    assert(lex[j] == src[pos + j]);
                    assert(d1 + 1 <= pos + j < d2);
                }
                assert(1 <= i && i + 1 < lex.len());
                assert(is_number_lexeme(lex));
            }
            let bits = dbl_parse_bits(text.as_str());
            self.add_token_with_literial(TokenType::Number, Option::Some(LiterialValue::FloatValue(bits)));
            Result::Ok(())
        } else {
            Result::Err(String::from_str("digit Error!"))
        }
    }

    /// Scans the rest of an identifier, reclassifying the keywords.
    fn find_an_identifier(&mut self) -> (r: Result<(), String>)
        requires
            old(self).start + 1 == old(self).current,
            old(self).start < old(self).source@.len(),
            is_alpha_char(old(self).source@[old(self).start as int]),
        ensures
            final(self).source == old(self).source,
            final(self).start == old(self).start,
            final(self).line == old(self).line,
            r is Ok,
            old(self).start < final(self).current <= final(self).source@.len(),
            ({
                let src = old(self).source@;
                let pos = old(self).start as nat;
                let e = word_end(src, pos);
                &&& final(self).current == e
                &&& final(self).tokens@.len() == old(self).tokens@.len() + 1
                &&& final(self).tokens@.subrange(0, old(self).tokens@.len() as int) == old(self).tokens@
                &&& final(self).tokens@[old(self).tokens@.len() as int]@ == (TokV {
                    kind: keyword_kind(src.subrange(pos as int, e as int)),
                    lexeme: src.subrange(pos as int, e as int),
                    lit: Option::None,
                    line: old(self).line as nat,
                })
            }),
    {
        let ghost src = self.source@;
        let ghost pos = self.start as nat;
        let ghost s0 = *self;
        proof {
            lemma_word_end(src, pos);
            assert(word_end(src, pos) == word_end(src, pos + 1));
        }
        while ('0' <= self.peek() && self.peek() <= '9') || ('a' <= self.peek() && self.peek() <= 'z')
            || ('A' <= self.peek() && self.peek() <= 'Z') || self.peek() == '_'
            invariant
                self.source == s0.source,
                self.source@ == src,
                self.start == s0.start,
                self.line == s0.line,
                self.tokens == s0.tokens,
                s0.current <= self.current <= self.source@.len(),
                word_end(src, pos) == word_end(src, self.current as nat),
            decreases self.source@.len() - self.current,
        {
            proof {
                assert(self.current < self.source@.len());
                assert(is_alnum_char(src[self.current as int]));
                assert(word_end(src, self.current as nat)
                    == word_end(src, self.current as nat + 1));
            }
            self.advance();
        }
        let kind = if self.lexeme_is("and") { TokenType::And }
            else if self.lexeme_is("class") { TokenType::CLass }
            else if self.lexeme_is("else") { TokenType::Else }
            else if self.lexeme_is("false") { TokenType::False }
            else if self.lexeme_is("for") { TokenType::For }
            else if self.lexeme_is("fun") { TokenType::Fun }
            else if self.lexeme_is("if") { TokenType::If }
            else if self.lexeme_is("let") { TokenType::Let }
            else if self.lexeme_is("nil") { TokenType::Nil }
            else if self.lexeme_is("or") { TokenType::Or }
            else if self.lexeme_is("print") { TokenType::Print }
            else if self.lexeme_is("return") { TokenType::Return }
            else if self.lexeme_is("super") { TokenType::Super }
            else if self.lexeme_is("this") { TokenType::This }
            else if self.lexeme_is("true") { TokenType::True }
            else if self.lexeme_is("var") { TokenType::Var }
            else if self.lexeme_is("while") { TokenType::While }
            else { TokenType::Identifier };
        self.add_token(kind);
        Result::Ok(())
    }

    /// Scans the full source text: the ordered token sequence ended by
    /// the end-marker token, or, if any lexical errors were collected on
    /// the way, all of them joined into one report.
    pub fn scan_tokens(&mut self) -> (r: Result<Vec<Token>, String>)
        requires
            old(self).tokens@ == Seq::<Token>::empty(),
            old(self).current == 0,
            old(self).line == 1,
            old(self).source@.len() < usize::MAX,
        ensures
            ({
                let m = scan_from(old(self).source@, 0, 1);
                match r {
                    Result::Ok(toks) => m.errs.len() == 0 && toks_view(toks@) == m.toks,
                    Result::Err(msg) => m.errs.len() > 0 && msg@ == joined_msgs(m.errs) + "\n"@,
                }
            }),
    {
        let ghost src = self.source@;
        let mut scan_errors: Vec<String> = Vec::new();

        while !self.is_at_end()
            invariant
                self.source@ == src,
                src.len() < usize::MAX,
                self.current <= src.len(),
                self.line <= self.current + 1,
                scan_from(src, 0, 1).toks =~= toks_view(self.tokens@)
                    + scan_from(src, self.current as nat, self.line as nat).toks,
                scan_from(src, 0, 1).errs =~= errs_view(scan_errors@)
                    + scan_from(src, self.current as nat, self.line as nat).errs,
            decreases src.len() - self.current,
        {
            self.start = self.current;
            let ghost cur0 = self.current as nat;
            let ghost line0 = self.line as nat;
            let ghost toks0 = self.tokens@;
            let ghost errs0 = scan_errors@;
            let res = self.scan_token();
            match res {
                Result::Ok(_) => {},
                Result::Err(msg) => {
                    scan_errors.push(msg);
                },
            }
            proof {
                let step = scan_step(src, cur0, line0);
                let p2 = self.current as nat;
                let l2 = self.line as nat;
                assert(step_pos(cur0, p2, src.len()) == p2);
                match step {
                    SStep::Lexed(t, p, l) => {
                        assert(scan_from(src, cur0, line0).toks
                            =~= seq![t] + scan_from(src, p2, l2).toks);
                        assert(scan_from(src, cur0, line0).errs
                            =~= scan_from(src, p2, l2).errs);
                        assert(toks_view(self.tokens@) =~= toks_view(toks0) + seq![t]);
                        assert(errs_view(scan_errors@) =~= errs_view(errs0));
                        assert(scan_from(src, 0, 1).toks =~= toks_view(self.tokens@)
                            + scan_from(src, p2, l2).toks);
                    },
                    SStep::Skipped(p, l) => {
                        assert(scan_from(src, cur0, line0) == scan_from(src, p2, l2));
                        assert(errs_view(scan_errors@) =~= errs_view(errs0));
                    },
                    SStep::Failed(m, p, l) => {
                        assert(scan_from(src, cur0, line0).errs
                            =~= seq![m] + scan_from(src, p2, l2).errs);
                        assert(scan_from(src, cur0, line0).toks
                            =~= scan_from(src, p2, l2).toks);
                        assert(errs_view(scan_errors@) =~= errs_view(errs0) + seq![m]);
                        assert(scan_from(src, 0, 1).errs =~= errs_view(scan_errors@)
                            + scan_from(src, p2, l2).errs);
                    },
                }
            }
        }

        let ghost line_end = self.line as nat;
        proof {
            reveal_strlit("EOF");
            assert(scan_from(src, self.current as nat, line_end).toks
                =~= seq![TokV { kind: TokenType::Eof, lexeme: "EOF"@, lit: Option::None, line: line_end }]);
            assert(scan_from(src, self.current as nat, line_end).errs =~= Seq::<Seq<char>>::empty());
        }
        let ghost toks0 = self.tokens@;
        self.tokens.push(Token {
            token_type: TokenType::Eof,
            lexeme: String::from_str("EOF"),
            literial: Option::None,
            line_number: self.line,
        });
        proof {
            assert(toks_view(self.tokens@) =~= toks_view(toks0).push(TokV {
                kind: TokenType::Eof,
                lexeme: "EOF"@,
                lit: Option::None,
                line: line_end,
            }));
            assert(toks_view(self.tokens@) =~= scan_from(src, 0, 1).toks);
            assert(scan_from(src, 0, 1).errs =~= errs_view(scan_errors@));
        }

        if scan_errors.len() > 0 {
            let mut joined = String::new();
            let n = scan_errors.len();
            for i in 0..n
                invariant
                    n == scan_errors@.len(),
                    joined@ =~= joined_msgs(errs_view(scan_errors@).subrange(0, i as int)),
                decreases n - i,
            {
                joined.append(scan_errors[i].as_str());
                proof {
                    let ev = errs_view(scan_errors@);
                    assert(ev.subrange(0, i + 1).subrange(0, i as int) =~= ev.subrange(0, i as int));
                    assert(ev.subrange(0, i + 1)[i as int] == scan_errors@[i as int]@);
                    assert(joined@ =~= joined_msgs(ev.subrange(0, i + 1)));
                }
            }
            joined.append("\n");
            proof {
                assert(errs_view(scan_errors@).subrange(0, scan_errors@.len() as int)
                    =~= errs_view(scan_errors@));
                assert(errs_view(scan_errors@) =~= scan_from(src, 0, 1).errs);
                assert(joined@ =~= joined_msgs(scan_from(src, 0, 1).errs) + "\n"@);
            }
            Result::Err(joined)
        } else {
            proof {
                assert(scan_from(src, 0, 1).errs.len() == 0);
            }
            Result::Ok(crate::stmt::duplicate_tokens(&self.tokens))
        }
    }
}

} // verus!
