use vstd::prelude::*;
use vstd::arithmetic::power::pow;

use crate::error::{CompileError, CompileErrorOf, ErrorKindOf, SCompileError};
use crate::token::{SToken, Token, TokenOf};

verus! {

/// ASCII whitespace as `u8::is_ascii_whitespace` defines it: space, tab,
/// line feed, form feed and carriage return.
pub open spec fn is_space(b: u8) -> bool {
    b == 32 || b == 9 || b == 10 || b == 12 || b == 13
}

pub open spec fn is_alpha(b: u8) -> bool {
    (65 <= b && b <= 90) || (97 <= b && b <= 122)
}

pub open spec fn is_digit(b: u8) -> bool {
    48 <= b && b <= 57
}

/// A byte that may continue an identifier or keyword.
pub open spec fn is_word_byte(b: u8) -> bool {
    is_alpha(b) || is_digit(b) || b == 95
}

/// The token that a single punctuation byte stands for.
pub open spec fn punctuation(b: u8) -> Option<SToken> {
    if b == 40 {
        Some(TokenOf::OpenParen)
    } else if b == 41 {
        Some(TokenOf::CloseParen)
    } else if b == 123 {
        Some(TokenOf::OpenCurly)
    } else if b == 125 {
        Some(TokenOf::CloseCurly)
    } else if b == 61 {
        Some(TokenOf::Equals)
    } else if b == 59 {
        Some(TokenOf::Semicolon)
    } else if b == 43 {
        Some(TokenOf::Plus)
    } else if b == 45 {
        Some(TokenOf::Minus)
    } else if b == 42 {
        Some(TokenOf::Asterisk)
    } else if b == 47 {
        Some(TokenOf::Slash)
    } else if b == 58 {
        Some(TokenOf::Colon)
    } else if b == 44 {
        Some(TokenOf::Comma)
    } else {
        None
    }
}

/// The first position at or after `i` that holds no whitespace.
pub open spec fn skip_space(s: Seq<u8>, i: int) -> int
    decreases s.len() - i,
{
    if 0 <= i < s.len() && is_space(s[i]) {
        skip_space(s, i + 1)
    } else {
        i
    }
}

/// The number of line feeds in `s[i..j]`.
pub open spec fn newlines(s: Seq<u8>, i: int, j: int) -> nat
    decreases j - i,
{
    if i < j {
        newlines(s, i, j - 1) + if s[j - 1] == 10 {
            1nat
        } else {
            0nat
        }
    } else {
        0
    }
}

/// The end of the run of word bytes that starts at `i`.
pub open spec fn word_end(s: Seq<u8>, i: int) -> int
    decreases s.len() - i,
{
    if 0 <= i < s.len() && is_word_byte(s[i]) {
        word_end(s, i + 1)
    } else {
        i
    }
}

/// The end of the run of decimal digits that starts at `i`.
pub open spec fn digits_end(s: Seq<u8>, i: int) -> int
    decreases s.len() - i,
{
    if 0 <= i < s.len() && is_digit(s[i]) {
        digits_end(s, i + 1)
    } else {
        i
    }
}

/// The value of a sequence of decimal digits.
pub open spec fn digits_value(d: Seq<u8>) -> nat
    decreases d.len(),
{
    if d.len() == 0 {
        0
    } else {
        10 * digits_value(d.drop_last()) + (d.last() - 48) as nat
    }
}

/// Digits are read in base ten, most significant first: one digit is worth
/// its own value, and digits `a` followed by digits `b` are worth `a` times
/// ten to the number of digits in `b`, plus `b`. So `10` is ten, and a `0`
/// at the end multiplies by ten.
pub proof fn law_decimal_value(a: Seq<u8>, b: Seq<u8>, c: u8)
    requires
        is_digit(c),
    ensures
        digits_value(seq![c]) == c - 48,
        digits_value(a + b) == digits_value(a) * pow(10, b.len()) + digits_value(b),
        digits_value(a.push(48u8)) == 10 * digits_value(a),
    decreases b.len(),
{
    reveal(pow);
    assert(seq![c].drop_last() =~= Seq::<u8>::empty());
    assert(digits_value(Seq::<u8>::empty()) == 0);
    assert(seq![c].last() == c);
    assert(a.push(48u8).drop_last() =~= a);
    if b.len() == 0 {
        assert(a + b =~= a);
    } else {
        law_decimal_value(a, b.drop_last(), c);
        assert((a + b).drop_last() =~= a + b.drop_last());
        assert((a + b).last() == b.last());
        let p = pow(10, (b.len() - 1) as nat);
        assert(pow(10, b.len()) == 10 * p);
        let va = digits_value(a);
        let vb = digits_value(b.drop_last());
        assert(10 * (va * p + vb) == va * (10 * p) + 10 * vb) by (nonlinear_arith);
    }
}

/// The characters of an ASCII byte sequence.
pub open spec fn ascii_chars(b: Seq<u8>) -> Seq<char> {
    Seq::new(b.len(), |k: int| b[k] as char)
}

/// A run of word bytes: one of the keywords `fn`, `let`, `return`, or else an
/// identifier.
pub open spec fn word_token(w: Seq<u8>) -> SToken {
    if w == seq![102u8, 110u8] {
        TokenOf::Fn
    } else if w == seq![108u8, 101u8, 116u8] {
        TokenOf::Let
    } else if w == seq![114u8, 101u8, 116u8, 117u8, 114u8, 110u8] {
        TokenOf::Return
    } else {
        TokenOf::Ident(ascii_chars(w))
    }
}

/// The token that starts at or after position `i` of `s`, when the line
/// count at `i` is `line`: whitespace is skipped (each line feed counts a
/// line), then a punctuation byte, the longest run of word bytes that starts
/// with a letter, or the longest run of digits forms the token. The result
/// is the token, the position after it and the line it is on; or the
/// error, on that line.
pub open spec fn lex_token(s: Seq<u8>, i: int, line: usize) -> Result<(SToken, int, usize), SCompileError> {
    let j = skip_space(s, i);
    let l = (line + newlines(s, i, j)) as usize;
    if j >= s.len() {
        Ok((TokenOf::EOF, j, l))
    } else {
        let c = s[j];
        if punctuation(c) is Some {
            Ok((punctuation(c).unwrap(), j + 1, l))
        } else if is_alpha(c) {
            let e = word_end(s, j);
            Ok((word_token(s.subrange(j, e)), e, l))
        } else if is_digit(c) {
            let e = digits_end(s, j);
            let v = digits_value(s.subrange(j, e));
            if v <= i32::MAX {
                Ok((TokenOf::Int(v as i32), e, l))
            } else {
                Err(CompileErrorOf { line: l, kind: ErrorKindOf::IntegerOverflow })
            }
        } else {
            Err(CompileErrorOf { line: l, kind: ErrorKindOf::UnknownCharacter(c) })
        }
    }
}

/// One element of the token stream: a token with its line, or the error
/// that ends the stream.
#[derive(Debug, PartialEq)]
pub enum LexStepOf<S> {
    Token(TokenOf<S>, usize),
    Failure(CompileErrorOf<S>),
}

pub type LexStep = LexStepOf<String>;

pub type SLexStep = LexStepOf<Seq<char>>;

impl View for LexStepOf<String> {
    type V = SLexStep;

    open spec fn view(&self) -> SLexStep {
        match self {
            LexStepOf::Token(t, l) => LexStepOf::Token(t@, *l),
            LexStepOf::Failure(e) => LexStepOf::Failure(e@),
        }
    }
}

pub open spec fn steps_view(v: Seq<LexStep>) -> Seq<SLexStep> {
    Seq::new(v.len(), |k: int| v[k]@)
}

/// The tokens of `s` from position `i` on, up to and including `EOF`, or
/// up to the first error, which ends the stream.
pub open spec fn token_stream(s: Seq<u8>, i: int, line: usize) -> Seq<SLexStep>
    decreases s.len() - i,
{
    match lex_token(s, i, line) {
        Err(e) => seq![LexStepOf::Failure(e)],
        Ok((t, n, l)) => {
            if t is EOF || !(i < n <= s.len()) {
                seq![LexStepOf::Token(t, l)]
            } else {
                seq![LexStepOf::Token(t, l)] + token_stream(s, n, l)
            }
        },
    }
}

proof fn lemma_skip_space(s: Seq<u8>, i: int)
    requires
        0 <= i <= s.len(),
    ensures
        i <= skip_space(s, i) <= s.len(),
        forall|k: int| i <= k < skip_space(s, i) ==> is_space(#[trigger] s[k]),
        newlines(s, i, skip_space(s, i)) <= skip_space(s, i) - i,
    decreases s.len() - i,
{
    if i < s.len() && is_space(s[i]) {
        lemma_skip_space(s, i + 1);
        lemma_newlines_shift(s, i, skip_space(s, i));
    }
}

/// Counting line feeds from `i` is counting from `i + 1` plus the one at `i`.
proof fn lemma_newlines_shift(s: Seq<u8>, i: int, j: int)
    requires
        i < j,
    ensures
        newlines(s, i, j) == newlines(s, i + 1, j) + if s[i] == 10 {
            1nat
        } else {
            0nat
        },
    decreases j - i,
{
    if i + 1 < j {
        lemma_newlines_shift(s, i, j - 1);
        assert(newlines(s, i, j) == newlines(s, i, j - 1) + if s[j - 1] == 10 {
            1nat
        } else {
            0nat
        });
        assert(newlines(s, i + 1, j) == newlines(s, i + 1, j - 1) + if s[j - 1] == 10 {
            1nat
        } else {
            0nat
        });
    } else {
        assert(newlines(s, i, i) == 0);
        assert(newlines(s, i + 1, j) == 0);
    }
}

/// Counting line feeds splits at any middle position.
pub proof fn lemma_newlines_add(s: Seq<u8>, i: int, k: int, j: int)
    requires
        i <= k <= j,
    ensures
        newlines(s, i, j) == newlines(s, i, k) + newlines(s, k, j),
    decreases j - k,
{
    if k < j {
        lemma_newlines_add(s, i, k, j - 1);
    }
}

/// A run without line feeds counts none.
proof fn lemma_newlines_none(s: Seq<u8>, i: int, j: int)
    requires
        i <= j,
        forall|k: int| i <= k < j ==> s[k] != 10,
    ensures
        newlines(s, i, j) == 0,
    decreases j - i,
{
    if i < j {
        lemma_newlines_none(s, i, j - 1);
    }
}

proof fn lemma_word_end(s: Seq<u8>, i: int)
    requires
        0 <= i <= s.len(),
    ensures
        i <= word_end(s, i) <= s.len(),
    decreases s.len() - i,
{
    if i < s.len() && is_word_byte(s[i]) {
        lemma_word_end(s, i + 1);
    }
}

proof fn lemma_digits_end(s: Seq<u8>, i: int)
    requires
        0 <= i <= s.len(),
    ensures
        i <= digits_end(s, i) <= s.len(),
    decreases s.len() - i,
{
    if i < s.len() && is_digit(s[i]) {
        lemma_digits_end(s, i + 1);
    }
}

/// Where the digits of `s[k..e]` end at `e`, the run of digits from `k`
/// ends there.
proof fn lemma_digits_run(s: Seq<u8>, k: int, e: int)
    requires
        0 <= k <= e <= s.len(),
        forall|q: int| k <= q < e ==> is_digit(#[trigger] s[q]),
        e == s.len() || !is_digit(s[e]),
    ensures
        digits_end(s, k) == e,
    decreases e - k,
{
    if k < e {
        lemma_digits_run(s, k + 1, e);
    }
}

/// A run of digits lexes to one integer token: the decimal value of the
/// digits (see `law_decimal_value`), ending after the last digit, on the
/// line where it stands, where that value fits an `i32`; where it does not,
/// to an overflow error on that line.
pub proof fn law_integer_literal(s: Seq<u8>, i: int, e: int, line: usize)
    requires
        0 <= i < e <= s.len(),
        forall|q: int| i <= q < e ==> is_digit(#[trigger] s[q]),
        e == s.len() || !is_digit(s[e]),
    ensures
        digits_value(s.subrange(i, e)) <= i32::MAX ==> lex_token(s, i, line) == Ok::<
            (SToken, int, usize),
            SCompileError,
        >((TokenOf::Int(digits_value(s.subrange(i, e)) as i32), e, line)),
        digits_value(s.subrange(i, e)) > i32::MAX ==> lex_token(s, i, line) == Err::<
            (SToken, int, usize),
            SCompileError,
        >(CompileErrorOf { line, kind: ErrorKindOf::IntegerOverflow }),
{
    assert(is_digit(s[i]));
    assert(skip_space(s, i) == i);
    assert(newlines(s, i, i) == 0);
    lemma_digits_run(s, i, e);
}

/// Lexing never moves backwards and a token other than `EOF` consumes at
/// least one byte; the line count grows by at most the bytes skipped.
pub proof fn lemma_lex_progress(s: Seq<u8>, i: int, line: usize)
    requires
        0 <= i <= s.len(),
        line <= i + 1,
    ensures
        lex_token(s, i, line) matches Ok((t, n, l)) ==> {
            &&& i <= n <= s.len()
            &&& l <= n + 1
            &&& (t !is EOF ==> i < n)
            &&& (t is EOF ==> n == s.len())
        },
        lex_token(s, i, line) matches Err(e) ==> e.line <= s.len() + 1,
{
    lemma_skip_space(s, i);
    let j = skip_space(s, i);
    if j < s.len() {
        lemma_word_end(s, j + 1);
        lemma_digits_end(s, j + 1);
        assert(is_alpha(s[j]) ==> word_end(s, j) == word_end(s, j + 1));
        assert(is_digit(s[j]) ==> digits_end(s, j) == digits_end(s, j + 1));
    }
}

/// Whether `b` is ASCII whitespace.
pub fn is_space_byte(b: u8) -> (r: bool)
    ensures
        r == is_space(b),
{
    b == 32 || b == 9 || b == 10 || b == 12 || b == 13
}

/// Whether `b` is an ASCII letter.
pub fn is_alpha_byte(b: u8) -> (r: bool)
    ensures
        r == is_alpha(b),
{
    (65 <= b && b <= 90) || (97 <= b && b <= 122)
}

/// Whether `b` is an ASCII decimal digit.
pub fn is_digit_byte(b: u8) -> (r: bool)
    ensures
        r == is_digit(b),
{
    48 <= b && b <= 57
}

/// The token of a punctuation byte.
fn punctuation_token(b: u8) -> (t: Option<Token>)
    ensures
        t is Some <==> punctuation(b) is Some,
        t matches Some(t) ==> punctuation(b) == Some(t@),
{
    if b == 40 {
        Some(TokenOf::OpenParen)
    } else if b == 41 {
        Some(TokenOf::CloseParen)
    } else if b == 123 {
        Some(TokenOf::OpenCurly)
    } else if b == 125 {
        Some(TokenOf::CloseCurly)
    } else if b == 61 {
        Some(TokenOf::Equals)
    } else if b == 59 {
        Some(TokenOf::Semicolon)
    } else if b == 43 {
        Some(TokenOf::Plus)
    } else if b == 45 {
        Some(TokenOf::Minus)
    } else if b == 42 {
        Some(TokenOf::Asterisk)
    } else if b == 47 {
        Some(TokenOf::Slash)
    } else if b == 58 {
        Some(TokenOf::Colon)
    } else if b == 44 {
        Some(TokenOf::Comma)
    } else {
        None
    }
}

/// The text of an ASCII byte sequence, by `String::from_utf8`, which
/// accepts exactly the valid UTF-8 sequences (every ASCII sequence is one)
/// and then keeps the bytes, so that each byte is one character.
#[verifier::external_body]
fn ascii_string(bytes: Vec<u8>) -> (s: String)
    requires
        forall|k: int| 0 <= k < bytes@.len() ==> bytes@[k] < 128,
    ensures
        s@ == ascii_chars(bytes@),
{
    String::from_utf8(bytes).unwrap()
}

/// The token of a run of word bytes.
fn word_to_token(w: Vec<u8>) -> (t: Token)
    requires
        forall|k: int| 0 <= k < w@.len() ==> is_word_byte(#[trigger] w@[k]),
    ensures
        t@ == word_token(w@),
{
    let n = w.len();
    if n == 2 && w[0] == 102 && w[1] == 110 {
        assert(w@ =~= seq![102u8, 110u8]);
        TokenOf::Fn
    } else if n == 3 && w[0] == 108 && w[1] == 101 && w[2] == 116 {
        assert(w@ =~= seq![108u8, 101u8, 116u8]);
        TokenOf::Let
    } else if n == 6 && w[0] == 114 && w[1] == 101 && w[2] == 116 && w[3] == 117 && w[4] == 114
        && w[5] == 110 {
        assert(w@ =~= seq![114u8, 101u8, 116u8, 117u8, 114u8, 110u8]);
        TokenOf::Return
    } else {
        proof {
            if w@ == seq![102u8, 110u8] {
                assert(w@[0] == 102 && w@[1] == 110);
            }
            if w@ == seq![108u8, 101u8, 116u8] {
                assert(w@[0] == 108 && w@[1] == 101 && w@[2] == 116);
            }
            if w@ == seq![114u8, 101u8, 116u8, 117u8, 114u8, 110u8] {
                assert(w@[0] == 114 && w@[5] == 110);
            }
        }
        TokenOf::Ident(ascii_string(w))
    }
}

/// The state of the lexer: the source bytes, the position reached and the
/// line that position is on.
pub struct Lexer {
    src: Vec<u8>,
    at: Cursor,
}

/// A position in the source and the line it is on.
struct Cursor {
    index: usize,
    line: usize,
}

impl Lexer {
    #[verifier::type_invariant]
    spec fn wf(self) -> bool {
        &&& self.src@.len() < usize::MAX
        &&& self.at.index <= self.src@.len()
        &&& self.at.line <= self.at.index + 1
        &&& self.at.line == 1 + newlines(self.src@, 0, self.at.index as int)
    }

    pub closed spec fn source(&self) -> Seq<u8> {
        self.src@
    }

    pub closed spec fn position(&self) -> int {
        self.at.index as int
    }

    pub closed spec fn line_number(&self) -> usize {
        self.at.line
    }

    /// A lexer at the start of `src`, on line 1.
    pub fn new(src: Vec<u8>) -> (lexer: Lexer)
        requires
            src@.len() < usize::MAX,
        ensures
            lexer.source() == src@,
            lexer.position() == 0,
            lexer.line_number() == 1,
    {
        assert(newlines(src@, 0, 0) == 0);
        Lexer { src, at: Cursor { index: 0, line: 1 } }
    }

    /// The line the lexer is on: 1 and the line feeds before its position,
    /// which lies within the source.
    pub fn line(&self) -> (l: usize)
        ensures
            l == self.line_number(),
            0 <= self.position() <= self.source().len(),
            l == 1 + newlines(self.source(), 0, self.position()),
    {
        proof {
            use_type_invariant(self);
        }
        self.at.line
    }

    /// Reads the next token, as `lex_token` says, and moves past it. The
    /// position never moves back or past the end, every token but `EOF`
    /// moves it forward, the line never decreases, and it stays the line of
    /// the position: 1 and the line feeds before it.
    pub fn lexe(&mut self) -> (r: Result<Token, CompileError>)
        ensures
            final(self).source() == old(self).source(),
            old(self).position() <= final(self).position() <= final(self).source().len(),
            old(self).line_number() <= final(self).line_number(),
            final(self).line_number() == 1 + newlines(
                final(self).source(),
                0,
                final(self).position(),
            ),
            r matches Ok(t) && t !is EOF ==> old(self).position() < final(self).position(),
            match lex_token(old(self).source(), old(self).position(), old(self).line_number()) {
                Ok((t, n, l)) => r matches Ok(tok) && tok@ == t && final(self).position() == n
                    && final(self).line_number() == l,
                Err(e) => r matches Err(err) && err@ == e,
            },
    {
        proof {
            use_type_invariant(&*self);
        }
        let ghost s = self.src@;
        let ghost i0 = self.at.index as int;
        let ghost l0 = self.at.line;
        let len = self.src.len();
        let mut index = self.at.index;
        let mut line = self.at.line;
        while index < len && is_space_byte(self.src[index])
            invariant
                len == s.len(),
                len < usize::MAX,
                s == self.src@,
                i0 <= index <= len,
                l0 <= i0 + 1,
                skip_space(s, i0) == skip_space(s, index as int),
                line == l0 + newlines(s, i0, index as int),
                newlines(s, i0, index as int) <= index - i0,
            decreases len - index,
        {
            if self.src[index] == 10 {
                line = line + 1;
            }
            index = index + 1;
        }
        proof {
            lemma_skip_space(s, index as int);
            lemma_newlines_add(s, 0, i0, index as int);
            lemma_lex_progress(s, i0, l0);
        }
        if index >= len {
            self.at = Cursor { index, line };
            return Ok(TokenOf::EOF);
        }
        let c = self.src[index];
        if let Some(t) = punctuation_token(c) {
            proof {
                lemma_newlines_add(s, 0, index as int, index + 1);
                assert(newlines(s, index as int, index + 1) == newlines(s, index as int, index as int)
                    + 0);
            }
            self.at = Cursor { index: index + 1, line };
            return Ok(t);
        }
        if is_alpha_byte(c) {
            let start = index;
            let mut buff: Vec<u8> = Vec::new();
            while index < len && (is_alpha_byte(self.src[index]) || is_digit_byte(self.src[index])
                || self.src[index] == 95)
                invariant
                    len == s.len(),
                    s == self.src@,
                    start <= index <= len,
                    buff@ == s.subrange(start as int, index as int),
                    forall|k: int| start <= k < index ==> is_word_byte(#[trigger] s[k]),
                    word_end(s, start as int) == word_end(s, index as int),
                decreases len - index,
            {
                buff.push(self.src[index]);
                index = index + 1;
                assert(buff@ =~= s.subrange(start as int, index as int));
            }
            assert forall|k: int| 0 <= k < buff@.len() implies is_word_byte(#[trigger] buff@[k]) by {
                assert(buff@[k] == s[start + k]);
            }
            proof {
                lemma_newlines_none(s, start as int, index as int);
                lemma_newlines_add(s, 0, start as int, index as int);
            }
            let t = word_to_token(buff);
            self.at = Cursor { index, line };
            return Ok(t);
        }
        if is_digit_byte(c) {
            let start = index;
            let mut value: u64 = 0;
            let ghost limit: nat = i32::MAX as nat + 1;
            while index < len && is_digit_byte(self.src[index])
                invariant
                    len == s.len(),
                    s == self.src@,
                    start <= index <= len,
                    value == if digits_value(s.subrange(start as int, index as int)) < limit {
                        digits_value(s.subrange(start as int, index as int))
                    } else {
                        limit
                    },
                    limit == i32::MAX as nat + 1,
                    forall|k: int| start <= k < index ==> is_digit(#[trigger] s[k]),
                    digits_end(s, start as int) == digits_end(s, index as int),
                decreases len - index,
            {
                let d = self.src[index] - 48;
                let ghost prev = s.subrange(start as int, index as int);
                index = index + 1;
                assert(s.subrange(start as int, index as int).drop_last() =~= prev);
                let next = value * 10 + d as u64;
                value = if next > 2147483647 {
                    2147483648
                } else {
                    next
                };
            }
            proof {
                lemma_newlines_none(s, start as int, index as int);
                lemma_newlines_add(s, 0, start as int, index as int);
            }
            self.at = Cursor { index, line };
            if value > 2147483647 {
                return Err(CompileErrorOf { line, kind: ErrorKindOf::IntegerOverflow });
            }
            return Ok(TokenOf::Int(value as i32));
        }
        self.at = Cursor { index, line };
        Err(CompileErrorOf { line, kind: ErrorKindOf::UnknownCharacter(c) })
    }
}

/// The whole token stream of `src`, as `token_stream` defines it from the
/// start of the text on line 1.
pub fn tokenize(src: Vec<u8>) -> (steps: Vec<LexStep>)
    requires
        src@.len() < usize::MAX,
    ensures
        steps_view(steps@) == token_stream(src@, 0, 1),
{
    let ghost s = src@;
    let mut lexer = Lexer::new(src);
    let mut out: Vec<LexStep> = Vec::new();
    loop
        invariant
            s == src@,
            lexer.source() == s,
            0 <= lexer.position() <= s.len(),
            lexer.line_number() <= lexer.position() + 1,
            steps_view(out@) + token_stream(s, lexer.position(), lexer.line_number())
                == token_stream(s, 0, 1),
        decreases s.len() - lexer.position(),
    {
        let ghost i = lexer.position();
        let ghost l = lexer.line_number();
        proof {
            lemma_lex_progress(s, i, l);
        }
        let r = lexer.lexe();
        match r {
            Err(e) => {
                let ghost prev = steps_view(out@);
                out.push(LexStepOf::Failure(e));
                assert(steps_view(out@) =~= prev + token_stream(s, i, l));
                return out;
            },
            Ok(t) => {
                let eof = matches!(t, TokenOf::EOF);
                let ghost prev = steps_view(out@);
                let line = lexer.line();
                out.push(LexStepOf::Token(t, line));
                if eof {
                    assert(steps_view(out@) =~= prev + token_stream(s, i, l));
                    return out;
                }
                assert(steps_view(out@) =~= prev + seq![token_stream(s, i, l)[0]]);
                assert(token_stream(s, i, l) =~= seq![token_stream(s, i, l)[0]] + token_stream(
                    s,
                    lexer.position(),
                    lexer.line_number(),
                ));
            },
        }
    }
}

} // verus!
