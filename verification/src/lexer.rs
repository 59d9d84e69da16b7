use crate::error::{CompileError, CompileErrorBuilder};
use crate::token::Token;
use crate::util::{chars_string, str_chars, str_eq};
use vstd::prelude::*;
use vstd::string::StringExecFns;

verus! {

/// Whether a character is an ASCII decimal digit.
pub open spec fn is_digit_c(c: char) -> bool {
    48 <= c as u32 <= 57
}

/// The numeric value of an ASCII digit.
pub open spec fn digit_of(c: char) -> int {
    c as u32 - 48
}

/// Whether a character is an ASCII letter.
pub open spec fn is_letter_c(c: char) -> bool {
    (65 <= c as u32 <= 90) || (97 <= c as u32 <= 122)
}

/// Whether a character is ASCII.
pub open spec fn is_ascii_c(c: char) -> bool {
    c as u32 <= 127
}

/// How a scan over the character buffer ended: at `end` with a finished
/// payload, at a non-ASCII character just past `end`, or refusing to go on
/// at `end`.
pub ghost enum ScanEnd {
    Done(int),
    NonAscii(int),
    Refused(int),
}

/// The digit scan: starting from `p` with the digits seen so far worth
/// `acc`, take digits while they come, stop at the first non-digit, fail on
/// a non-ASCII character (consuming it) or on a value beyond `i64::MAX`
/// (consuming nothing more).
pub open spec fn scan_int(src: Seq<char>, p: int, acc: int) -> (ScanEnd, int)
    decreases src.len() - p,
{
    if p < 0 || p >= src.len() {
        (ScanEnd::Done(p), acc)
    } else if !is_ascii_c(src[p]) {
        (ScanEnd::NonAscii(p + 1), acc)
    } else if !is_digit_c(src[p]) {
        (ScanEnd::Done(p), acc)
    } else if acc * 10 + digit_of(src[p]) > i64::MAX {
        (ScanEnd::Refused(p), acc)
    } else {
        scan_int(src, p + 1, acc * 10 + digit_of(src[p]))
    }
}

/// The identifier scan: take letters while they come, stop at the first
/// non-letter, fail on a non-ASCII character (consuming it) or on an
/// underscore (consuming nothing more).
pub open spec fn scan_id(src: Seq<char>, p: int, acc: Seq<char>) -> (ScanEnd, Seq<char>)
    decreases src.len() - p,
{
    if p < 0 || p >= src.len() {
        (ScanEnd::Done(p), acc)
    } else if !is_ascii_c(src[p]) {
        (ScanEnd::NonAscii(p + 1), acc)
    } else if is_letter_c(src[p]) {
        scan_id(src, p + 1, acc.push(src[p]))
    } else if src[p] == '_' {
        (ScanEnd::Refused(p), acc)
    } else {
        (ScanEnd::Done(p), acc)
    }
}

/// The keyword that a letter sequence spells, if any.
pub open spec fn keyword_token(s: Seq<char>) -> Option<Token> {
    if s == "if"@ {
        Some(Token::If)
    } else if s == "then"@ {
        Some(Token::Then)
    } else if s == "else"@ {
        Some(Token::Else)
    } else if s == "while"@ {
        Some(Token::While)
    } else if s == "do"@ {
        Some(Token::Do)
    } else if s == "const"@ {
        Some(Token::Const)
    } else if s == "var"@ {
        Some(Token::Var)
    } else if s == "procedure"@ {
        Some(Token::Procedure)
    } else if s == "program"@ {
        Some(Token::Program)
    } else if s == "begin"@ {
        Some(Token::Begin)
    } else if s == "end"@ {
        Some(Token::End)
    } else if s == "call"@ {
        Some(Token::Call)
    } else if s == "read"@ {
        Some(Token::Read)
    } else if s == "write"@ {
        Some(Token::Write)
    } else if s == "odd"@ {
        Some(Token::Odd)
    } else {
        None
    }
}

/// The spec-level image of a token: an identifier by its spelling, a
/// lexical error by its tag alone, anything else by its value.
pub ghost enum TokV {
    Tok(Token),
    Ident(Seq<char>),
    LexErr,
}

/// The image of a concrete token.
pub open spec fn tok_v(t: Token) -> TokV {
    match t {
        Token::Identifier(s) => TokV::Ident(s@),
        Token::LexicalError(_) => TokV::LexErr,
        _ => TokV::Tok(t),
    }
}

/// Whether a character separates tokens.
pub open spec fn is_blank_c(c: char) -> bool {
    c == ' ' || c == '\t' || c == '\r' || c == '\n'
}

/// Where the run of blanks starting at `p` ends.
pub open spec fn skip_blanks(src: Seq<char>, p: int) -> int
    decreases src.len() - p,
{
    if 0 <= p < src.len() && is_blank_c(src[p]) {
        skip_blanks(src, p + 1)
    } else {
        p
    }
}

/// `skip_blanks` never leaves the buffer.
pub proof fn lemma_skip_blanks_range(src: Seq<char>, p: int)
    requires
        0 <= p <= src.len(),
    ensures
        p <= skip_blanks(src, p) <= src.len(),
    decreases src.len() - p,
{
    if p < src.len() && is_blank_c(src[p]) {
        lemma_skip_blanks_range(src, p + 1);
    }
}

/// The ends that the digit scan can report stay inside the buffer.
pub proof fn lemma_scan_int_range(src: Seq<char>, p: int, acc: int)
    requires
        0 <= p <= src.len(),
    ensures
        ({
            let (e, v) = scan_int(src, p, acc);
            match e {
                ScanEnd::Done(end) => p <= end <= src.len(),
                ScanEnd::NonAscii(end) => p < end <= src.len(),
                ScanEnd::Refused(end) => p <= end <= src.len(),
            }
        }),
    decreases src.len() - p,
{
    if p < src.len() && is_ascii_c(src[p]) && is_digit_c(src[p]) && acc * 10 + digit_of(src[p])
        <= i64::MAX {
        lemma_scan_int_range(src, p + 1, acc * 10 + digit_of(src[p]));
    }
}

/// The ends that the identifier scan can report stay inside the buffer.
pub proof fn lemma_scan_id_range(src: Seq<char>, p: int, acc: Seq<char>)
    requires
        0 <= p <= src.len(),
    ensures
        ({
            let (e, cs) = scan_id(src, p, acc);
            match e {
                ScanEnd::Done(end) => p <= end <= src.len(),
                ScanEnd::NonAscii(end) => p < end <= src.len(),
                ScanEnd::Refused(end) => p <= end <= src.len(),
            }
        }),
    decreases src.len() - p,
{
    if p < src.len() && is_ascii_c(src[p]) && is_letter_c(src[p]) {
        lemma_scan_id_range(src, p + 1, acc.push(src[p]));
    }
}

/// The token that begins at the first non-blank character at or after
/// `p0`, as its spec image, with the cursor position just past it; `None`
/// with the buffer's end when only blanks remain.  This is the lexer's
/// whole dispatch, one token at a time.
pub open spec fn spec_next(src: Seq<char>, p0: int) -> (Option<TokV>, int) {
    let p = skip_blanks(src, p0);
    if p < 0 || p >= src.len() {
        (None, src.len() as int)
    } else {
        let c = src[p];
        let q = p + 1;
        if c == '+' {
            (Some(TokV::Tok(Token::Add)), q)
        } else if c == '-' {
            (Some(TokV::Tok(Token::Sub)), q)
        } else if c == '*' {
            (Some(TokV::Tok(Token::Mul)), q)
        } else if c == '/' {
            (Some(TokV::Tok(Token::Div)), q)
        } else if c == '(' {
            (Some(TokV::Tok(Token::ParL)), q)
        } else if c == ')' {
            (Some(TokV::Tok(Token::ParR)), q)
        } else if c == '=' {
            (Some(TokV::Tok(Token::Eq)), q)
        } else if c == ';' {
            (Some(TokV::Tok(Token::Semicolon)), q)
        } else if c == ',' {
            (Some(TokV::Tok(Token::Comma)), q)
        } else if c == '<' {
            if q < src.len() && !is_ascii_c(src[q]) {
                (Some(TokV::LexErr), q + 1)
            } else if q < src.len() && src[q] == '=' {
                (Some(TokV::Tok(Token::Le)), q + 1)
            } else if q < src.len() && src[q] == '>' {
                (Some(TokV::Tok(Token::Ne)), q + 1)
            } else {
                (Some(TokV::Tok(Token::Lt)), q)
            }
        } else if c == '>' {
            if q < src.len() && !is_ascii_c(src[q]) {
                (Some(TokV::LexErr), q + 1)
            } else if q < src.len() && src[q] == '=' {
                (Some(TokV::Tok(Token::Ge)), q + 1)
            } else {
                (Some(TokV::Tok(Token::Gt)), q)
            }
        } else if c == ':' {
            if q < src.len() && !is_ascii_c(src[q]) {
                (Some(TokV::LexErr), q + 1)
            } else if q < src.len() && src[q] == '=' {
                (Some(TokV::Tok(Token::EqSign)), q + 1)
            } else {
                (Some(TokV::LexErr), q)
            }
        } else if is_digit_c(c) {
            let (e, v) = scan_int(src, q, digit_of(c));
            match e {
                ScanEnd::Done(end) => (Some(TokV::Tok(Token::Integer(v as i64))), end),
                ScanEnd::NonAscii(end) => (Some(TokV::LexErr), end),
                ScanEnd::Refused(end) => (Some(TokV::LexErr), end),
            }
        } else if is_letter_c(c) {
            let (e, cs) = scan_id(src, q, seq![c]);
            match e {
                ScanEnd::Done(end) => (
                    match keyword_token(cs) {
                        Some(k) => (Some(TokV::Tok(k)), end),
                        None => (Some(TokV::Ident(cs)), end),
                    },
                ).0,
                ScanEnd::NonAscii(end) => (Some(TokV::LexErr), end),
                ScanEnd::Refused(end) => (Some(TokV::LexErr), end),
            }
        } else {
            (Some(TokV::LexErr), q)
        }
    }
}

/// `spec_next` moves forward: a token always ends past where the scan
/// began, and nothing leaves the buffer.
pub proof fn lemma_spec_next_range(src: Seq<char>, p0: int)
    requires
        0 <= p0 <= src.len(),
    ensures
        ({
            let (v, e) = spec_next(src, p0);
            p0 <= e <= src.len() && (v is Some ==> e > p0)
        }),
{
    lemma_skip_blanks_range(src, p0);
    let p = skip_blanks(src, p0);
    if p < src.len() {
        if is_digit_c(src[p]) {
            lemma_scan_int_range(src, p + 1, digit_of(src[p]));
        }
        if is_letter_c(src[p]) {
            lemma_scan_id_range(src, p + 1, seq![src[p]]);
        }
    }
}

/// The whole token stream of a buffer from position `p`.
pub open spec fn spec_tokens(src: Seq<char>, p: int) -> Seq<TokV>
    decreases src.len() - p,
    when 0 <= p <= src.len()
    via spec_tokens_dec
{
    let (v, end) = spec_next(src, p);
    match v {
        None => Seq::empty(),
        Some(tv) => seq![tv] + spec_tokens(src, end),
    }
}

#[via_fn]
proof fn spec_tokens_dec(src: Seq<char>, p: int) {
    lemma_spec_next_range(src, p);
}

/// Streams tokens out of a source text, one token of lookahead.  Malformed
/// input becomes in-band `LexicalError` tokens; the scan always resumes.
#[derive(Debug)]
pub struct Lexer {
    pub source: Vec<char>,
    pub pos: usize,
    pub ahead: Option<Token>,
    pub line_num: usize,
    pub col_num: usize,
}

/// The interface the parser drives the lexer through: one token of
/// non-consuming lookahead beside the consuming step.
pub trait LexerIterator {
    type Item;

    fn peek(&mut self) -> Option<Self::Item>;
}

impl Lexer {
    /// The position never leaves the buffer.
    pub open spec fn wf(&self) -> bool {
        self.pos <= self.source@.len()
    }

    /// How much input is left: buffered characters plus the token of
    /// lookahead.  Every consuming operation drives this down, which is
    /// what the parser's termination argument rests on.
    pub open spec fn remaining(&self) -> nat {
        (self.source@.len() - self.pos + if self.ahead is Some {
            1int
        } else {
            0int
        }) as nat
    }

    pub fn new(input: &str) -> (r: Self)
        ensures
            r.wf(),
            r.source@ == input@,
            r.pos == 0,
            r.ahead is None,
            r.line_num == 1,
            r.col_num == 0,
    {
        Lexer { source: str_chars(input), pos: 0, ahead: None, line_num: 1, col_num: 0 }
    }

    /// One diagnostic at the current source position.
    fn lex_err(&self, info: String) -> (r: CompileError)
        ensures
            r.line == self.line_num,
            r.col == self.col_num,
            r.info == info,
            r.error_type == crate::error::CompileErrorType::LexicalError,
    {
        CompileError {
            line: self.line_num,
            col: self.col_num,
            info,
            error_type: crate::error::CompileErrorType::LexicalError,
        }
    }

    /// The message quoting one character.
    fn char_msg(c: char, suffix: &str) -> (r: String)
        ensures
            r@ == seq!['\'', c, '\''] + suffix@,
    {
        let mut v: Vec<char> = Vec::new();
        v.push('\'');
        v.push(c);
        v.push('\'');
        let mut s = chars_string(&v);
        proof {
            assert(v@ =~= seq!['\'', c, '\'']);
        }
        s.append(suffix);
        s
    }

    /// Scan the rest of an integer literal whose first digit was `first`.
    /// The value, or the failure, is exactly what the digit scan gives; a
    /// literal beyond `i64::MAX` is a malformed-literal diagnostic.
    fn lexing_integer(&mut self, first: char) -> (r: Option<Token>)
        requires
            old(self).wf(),
            is_digit_c(first),
        ensures
            final(self).wf(),
            final(self).ahead == old(self).ahead,
            final(self).source == old(self).source,
            old(self).pos <= final(self).pos,
            ({
                let (e, v) = scan_int(old(self).source@, old(self).pos as int, digit_of(first));
                match e {
                    ScanEnd::Done(end) => final(self).pos == end && r == Some(
                        Token::Integer(v as i64),
                    ),
                    ScanEnd::NonAscii(end) => final(self).pos == end && r matches Some(
                        Token::LexicalError(_),
                    ),
                    ScanEnd::Refused(end) => final(self).pos == end && r matches Some(
                        Token::LexicalError(_),
                    ),
                }
            }),
    {
        let ghost src = self.source@;
        let mut scanned: i64 = first as u32 as i64 - 48;
        loop
            invariant
                self.wf(),
                self.source == old(self).source,
                self.source@ == src,
                self.ahead == old(self).ahead,
                self.line_num == old(self).line_num,
                self.col_num >= old(self).col_num,
                old(self).pos <= self.pos,
                0 <= scanned,
                scan_int(src, old(self).pos as int, digit_of(first)) == scan_int(
                    src,
                    self.pos as int,
                    scanned as int,
                ),
            decreases src.len() - self.pos,
        {
            if self.pos >= self.source.len() {
                return Some(Token::Integer(scanned));
            }
            let c = self.source[self.pos];
            if !((c as u32) <= 127) {
                self.pos = self.pos + 1;
                self.col_num = self.col_num.saturating_add(1);
                let m = Self::char_msg(c, " is not an ASCII character");
                let e = self.lex_err(m);
                return Some(Token::LexicalError(e));
            }
            if !(48 <= c as u32 && c as u32 <= 57) {
                return Some(Token::Integer(scanned));
            }
            let d: i64 = c as u32 as i64 - 48;
            let next = match scanned.checked_mul(10) {
                Some(x) => x.checked_add(d),
                None => None,
            };
            match next {
                Some(x) => {
                    scanned = x;
                    self.pos = self.pos + 1;
                    self.col_num = self.col_num.saturating_add(1);
                },
                None => {
                    let m = Self::char_msg(c, " would grow this integer literal past the largest representable value");
                    let e = self.lex_err(m);
                    return Some(Token::LexicalError(e));
                },
            }
        }
    }

    /// Scan the rest of an identifier or keyword whose first letter was
    /// `first`.  The letters collected, or the failure, are exactly what
    /// the identifier scan gives; a keyword spelling becomes its keyword
    /// token.
    fn lexing_identifier(&mut self, first: char) -> (r: Option<Token>)
        requires
            old(self).wf(),
            is_letter_c(first),
        ensures
            final(self).wf(),
            final(self).ahead == old(self).ahead,
            final(self).source == old(self).source,
            old(self).pos <= final(self).pos,
            ({
                let (e, cs) = scan_id(old(self).source@, old(self).pos as int, seq![first]);
                match e {
                    ScanEnd::Done(end) => final(self).pos == end && (match keyword_token(cs) {
                        Some(t) => r == Some(t),
                        None => r matches Some(Token::Identifier(s)) && s@ == cs,
                    }),
                    ScanEnd::NonAscii(end) => final(self).pos == end && r matches Some(
                        Token::LexicalError(_),
                    ),
                    ScanEnd::Refused(end) => final(self).pos == end && r matches Some(
                        Token::LexicalError(_),
                    ),
                }
            }),
    {
        let ghost src = self.source@;
        let mut identifier: Vec<char> = Vec::new();
        identifier.push(first);
        proof {
            assert(identifier@ =~= seq![first]);
        }
        loop
            invariant
                self.wf(),
                self.source == old(self).source,
                self.source@ == src,
                self.ahead == old(self).ahead,
                self.line_num == old(self).line_num,
                self.col_num >= old(self).col_num,
                old(self).pos <= self.pos,
                scan_id(src, old(self).pos as int, seq![first]) == scan_id(
                    src,
                    self.pos as int,
                    identifier@,
                ),
            decreases src.len() - self.pos,
        {
            if self.pos >= self.source.len() {
                return Some(self.finish_identifier(identifier));
            }
            let c = self.source[self.pos];
            if !((c as u32) <= 127) {
                self.pos = self.pos + 1;
                self.col_num = self.col_num.saturating_add(1);
                let m = Self::char_msg(c, " is not an ASCII character");
                let e = self.lex_err(m);
                return Some(Token::LexicalError(e));
            }
            if (65 <= c as u32 && c as u32 <= 90) || (97 <= c as u32 && c as u32 <= 122) {
                identifier.push(c);
                self.pos = self.pos + 1;
                self.col_num = self.col_num.saturating_add(1);
            } else if c == '_' {
                let e = self.lex_err("'_' is not supported for identifier declaration".to_owned());
                return Some(Token::LexicalError(e));
            } else {
                return Some(self.finish_identifier(identifier));
            }
        }
    }

    /// The keyword for this spelling, or an identifier token carrying it.
    fn finish_identifier(&self, identifier: Vec<char>) -> (r: Token)
        ensures
            match keyword_token(identifier@) {
                Some(t) => r == t,
                None => r matches Token::Identifier(s) && s@ == identifier@,
            },
    {
        let s = chars_string(&identifier);
        if str_eq(s.as_str(), "if") {
            Token::If
        } else if str_eq(s.as_str(), "then") {
            Token::Then
        } else if str_eq(s.as_str(), "else") {
            Token::Else
        } else if str_eq(s.as_str(), "while") {
            Token::While
        } else if str_eq(s.as_str(), "do") {
            Token::Do
        } else if str_eq(s.as_str(), "const") {
            Token::Const
        } else if str_eq(s.as_str(), "var") {
            Token::Var
        } else if str_eq(s.as_str(), "procedure") {
            Token::Procedure
        } else if str_eq(s.as_str(), "program") {
            Token::Program
        } else if str_eq(s.as_str(), "begin") {
            Token::Begin
        } else if str_eq(s.as_str(), "end") {
            Token::End
        } else if str_eq(s.as_str(), "call") {
            Token::Call
        } else if str_eq(s.as_str(), "read") {
            Token::Read
        } else if str_eq(s.as_str(), "write") {
            Token::Write
        } else if str_eq(s.as_str(), "odd") {
            Token::Odd
        } else {
            Token::Identifier(s)
        }
    }

    /// Take out the next token: skip blanks, then dispatch on the first
    /// character.  `None` only at the end of the buffer.
    fn do_next(&mut self) -> (r: Option<Token>)
        requires
            old(self).wf(),
        ensures
            final(self).wf(),
            final(self).ahead == old(self).ahead,
            final(self).source == old(self).source,
            old(self).pos <= final(self).pos,
            r is Some ==> old(self).pos < final(self).pos,
            r is None ==> final(self).pos == final(self).source@.len(),
            old(self).pos == old(self).source@.len() ==> *final(self) == *old(self) && r is None,
            // the token handed out, and the cursor after it, are exactly
            // what the dispatch relation gives
            ({
                let (v, end) = spec_next(old(self).source@, old(self).pos as int);
                match r {
                    Some(t) => v == Some(tok_v(t)) && final(self).pos == end,
                    None => v is None && final(self).pos == end,
                }
            }),
    {
        loop
            invariant
                self.wf(),
                self.source == old(self).source,
                self.ahead == old(self).ahead,
                old(self).pos <= self.pos,
                skip_blanks(old(self).source@, old(self).pos as int) == skip_blanks(
                    old(self).source@,
                    self.pos as int,
                ),
                old(self).pos == old(self).source@.len() ==> (self.pos == old(self).pos
                    && self.line_num == old(self).line_num && self.col_num == old(self).col_num),
            decreases self.source@.len() - self.pos,
        {
            if self.pos >= self.source.len() {
                return None;
            }
            let c = self.source[self.pos];
            if c == ' ' || c == '\t' || c == '\r' {
                self.pos = self.pos + 1;
                self.col_num = self.col_num.saturating_add(1);
            } else if c == '\n' {
                self.pos = self.pos + 1;
                self.line_num = self.line_num.saturating_add(1);
                self.col_num = 0;
            } else {
                break;
            }
        }
        let c = self.source[self.pos];
        self.pos = self.pos + 1;
        self.col_num = self.col_num.saturating_add(1);
        if c == '+' {
            Some(Token::Add)
        } else if c == '-' {
            Some(Token::Sub)
        } else if c == '*' {
            Some(Token::Mul)
        } else if c == '/' {
            Some(Token::Div)
        } else if c == '(' {
            Some(Token::ParL)
        } else if c == ')' {
            Some(Token::ParR)
        } else if c == '=' {
            Some(Token::Eq)
        } else if c == ';' {
            Some(Token::Semicolon)
        } else if c == ',' {
            Some(Token::Comma)
        } else if c == '<' {
            Some(self.check_ahead_lt())
        } else if c == '>' {
            Some(self.check_ahead_gt())
        } else if c == ':' {
            Some(self.check_ahead_colon())
        } else if 48 <= c as u32 && c as u32 <= 57 {
            self.lexing_integer(c)
        } else if (65 <= c as u32 && c as u32 <= 90) || (97 <= c as u32 && c as u32 <= 122) {
            self.lexing_identifier(c)
        } else if !((c as u32) <= 127) {
            let m = Self::char_msg(c, " is not an ASCII character");
            let e = self.lex_err(m);
            Some(Token::LexicalError(e))
        } else {
            let m = Self::char_msg(c, " is an unexpected character");
            let e = self.lex_err(m);
            Some(Token::LexicalError(e))
        }
    }

    /// `<`, `<=` or `<>`, by one character of lookahead.
    fn check_ahead_lt(&mut self) -> (r: Token)
        requires
            old(self).wf(),
        ensures
            final(self).wf(),
            final(self).ahead == old(self).ahead,
            final(self).source == old(self).source,
            old(self).pos <= final(self).pos,
            ({
                let src = old(self).source@;
                let q = old(self).pos as int;
                if q < src.len() && !is_ascii_c(src[q]) {
                    tok_v(r) == TokV::LexErr && final(self).pos == q + 1
                } else if q < src.len() && src[q] == '=' {
                    r == Token::Le && final(self).pos == q + 1
                } else if q < src.len() && src[q] == '>' {
                    r == Token::Ne && final(self).pos == q + 1
                } else {
                    r == Token::Lt && final(self).pos == q
                }
            }),
    {
        if self.pos < self.source.len() {
            let c = self.source[self.pos];
            if !((c as u32) <= 127) {
                self.pos = self.pos + 1;
                self.col_num = self.col_num.saturating_add(1);
                let m = Self::char_msg(c, " is not an ASCII character");
                let e = self.lex_err(m);
                return Token::LexicalError(e);
            }
            if c == '=' {
                self.pos = self.pos + 1;
                self.col_num = self.col_num.saturating_add(1);
                return Token::Le;
            }
            if c == '>' {
                self.pos = self.pos + 1;
                self.col_num = self.col_num.saturating_add(1);
                return Token::Ne;
            }
        }
        Token::Lt
    }

    /// `>` or `>=`, by one character of lookahead.
    fn check_ahead_gt(&mut self) -> (r: Token)
        requires
            old(self).wf(),
        ensures
            final(self).wf(),
            final(self).ahead == old(self).ahead,
            final(self).source == old(self).source,
            old(self).pos <= final(self).pos,
            ({
                let src = old(self).source@;
                let q = old(self).pos as int;
                if q < src.len() && !is_ascii_c(src[q]) {
                    tok_v(r) == TokV::LexErr && final(self).pos == q + 1
                } else if q < src.len() && src[q] == '=' {
                    r == Token::Ge && final(self).pos == q + 1
                } else {
                    r == Token::Gt && final(self).pos == q
                }
            }),
    {
        if self.pos < self.source.len() {
            let c = self.source[self.pos];
            if !((c as u32) <= 127) {
                self.pos = self.pos + 1;
                self.col_num = self.col_num.saturating_add(1);
                let m = Self::char_msg(c, " is not an ASCII character");
                let e = self.lex_err(m);
                return Token::LexicalError(e);
            }
            if c == '=' {
                self.pos = self.pos + 1;
                self.col_num = self.col_num.saturating_add(1);
                return Token::Ge;
            }
        }
        Token::Gt
    }

    /// `:=`, or the diagnostic for a lone colon.
    fn check_ahead_colon(&mut self) -> (r: Token)
        requires
            old(self).wf(),
        ensures
            final(self).wf(),
            final(self).ahead == old(self).ahead,
            final(self).source == old(self).source,
            old(self).pos <= final(self).pos,
            ({
                let src = old(self).source@;
                let q = old(self).pos as int;
                if q < src.len() && !is_ascii_c(src[q]) {
                    tok_v(r) == TokV::LexErr && final(self).pos == q + 1
                } else if q < src.len() && src[q] == '=' {
                    r == Token::EqSign && final(self).pos == q + 1
                } else {
                    tok_v(r) == TokV::LexErr && final(self).pos == q
                }
            }),
    {
        if self.pos < self.source.len() {
            let c = self.source[self.pos];
            if !((c as u32) <= 127) {
                self.pos = self.pos + 1;
                self.col_num = self.col_num.saturating_add(1);
                let m = Self::char_msg(c, " is not an ASCII character");
                let e = self.lex_err(m);
                return Token::LexicalError(e);
            }
            if c == '=' {
                self.pos = self.pos + 1;
                self.col_num = self.col_num.saturating_add(1);
                return Token::EqSign;
            }
        }
        let e = self.lex_err("':' is an undefined sign, did you mean ':='?".to_owned());
        Token::LexicalError(e)
    }

    /// The next token, consumed: the lookahead slot if it is filled, else a
    /// fresh scan.  `None` only when the whole input is spent.
    pub fn next(&mut self) -> (r: Option<Token>)
        requires
            old(self).wf(),
        ensures
            final(self).wf(),
            final(self).remaining() <= old(self).remaining(),
            r is Some ==> final(self).remaining() < old(self).remaining(),
            r is None ==> final(self).remaining() == 0,
            old(self).ahead is Some ==> r == old(self).ahead && final(self).ahead is None
                && final(self).pos == old(self).pos && final(self).source == old(self).source,
            old(self).remaining() == 0 ==> *final(self) == *old(self) && r is None,
            // with an empty slot the result is what the dispatch relation
            // scans at the cursor
            old(self).ahead is None ==> ({
                let (v, end) = spec_next(old(self).source@, old(self).pos as int);
                final(self).pos == end && final(self).ahead is None && final(self).source == old(self).source && (match r {
                    Some(t) => v == Some(tok_v(t)),
                    None => v is None,
                })
            }),
    {
        if self.ahead.is_none() {
            self.do_next()
        } else {
            self.ahead.take()
        }
    }

    /// Fill the lookahead slot if it is empty and look at it, without
    /// consuming.  `None` only when the whole input is spent.
    pub fn peek(&mut self) -> (r: Option<Token>)
        requires
            old(self).wf(),
        ensures
            final(self).wf(),
            final(self).remaining() <= old(self).remaining(),
            r == final(self).ahead,
            r is None ==> final(self).remaining() == 0,
            old(self).ahead is Some ==> *final(self) == *old(self) && r == old(self).ahead,
            old(self).remaining() == 0 ==> *final(self) == *old(self) && r is None,
            // with an empty slot the filled lookahead is what the dispatch
            // relation scans at the cursor
            old(self).ahead is None ==> ({
                let (v, end) = spec_next(old(self).source@, old(self).pos as int);
                final(self).pos == end && final(self).source == old(self).source && (
                match final(self).ahead {
                    Some(t) => v == Some(tok_v(t)),
                    None => v is None,
                })
            }),
    {
        if self.ahead.is_none() {
            self.ahead = self.do_next();
        }
        match &self.ahead {
            Some(t) => Some(t.clone()),
            None => None,
        }
    }

    /// Scan a whole text at once; for inspection and tests.  The list is,
    /// token image by token image, the stream that the dispatch relation
    /// reads out of the text.
    pub fn dbg_one_pass(input: &str) -> (r: Vec<Token>)
        ensures
            r@.map_values(|t: Token| tok_v(t)) == spec_tokens(input@, 0),
            r@.len() <= input@.len(),
    {
        let ghost src = input@;
        let mut lexer = Self::new(input);
        let mut token_list: Vec<Token> = Vec::new();
        loop
            invariant
                lexer.wf(),
                lexer.ahead is None,
                lexer.source@ == src,
                spec_tokens(src, 0) =~= token_list@.map_values(|t: Token| tok_v(t))
                    + spec_tokens(src, lexer.pos as int),
                token_list@.len() + lexer.remaining() <= src.len(),
            decreases lexer.remaining(),
        {
            let ghost pre = token_list@;
            let ghost pos0 = lexer.pos as int;
            match lexer.next() {
                Some(t) => {
                    token_list.push(t);
                    proof {
                        assert(token_list@.map_values(|t2: Token| tok_v(t2)) =~= pre.map_values(
                            |t2: Token| tok_v(t2),
                        ).push(tok_v(t)));
                        assert(seq![tok_v(t)] + spec_tokens(src, lexer.pos as int)
                            =~= spec_tokens(src, pos0));
                        assert(spec_tokens(src, 0) =~= token_list@.map_values(
                            |t2: Token| tok_v(t2),
                        ) + spec_tokens(src, lexer.pos as int));
                    }
                },
                None => {
                    break;
                },
            }
        }
        proof {
            assert(spec_tokens(src, lexer.pos as int) =~= Seq::<TokV>::empty());
            assert(token_list@.map_values(|t: Token| tok_v(t)) =~= spec_tokens(src, 0));
        }
        token_list
    }
}

impl LexerIterator for Lexer {
    type Item = Token;

    /// The token the next consuming step will hand out.
    fn peek(&mut self) -> Option<Token> {
        if self.wf_runtime() {
            Lexer::peek(self)
        } else {
            None
        }
    }
}

impl Lexer {
    /// The well-formedness test, decidable at run time for callers that
    /// cannot show it statically.
    fn wf_runtime(&self) -> (r: bool)
        ensures
            r == self.wf(),
    {
        self.pos <= self.source.len()
    }
}

} // verus!
