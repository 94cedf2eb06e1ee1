use crate::tokens::{Token, TokenType, TokenV};
use vstd::prelude::*;
use vstd::slice::slice_subrange;
use vstd::utf8::encode_utf8;

verus! {

/// Letters that may form an identifier: ASCII alphabetic or underscore.
pub open spec fn is_letter(b: u8) -> bool {
    (('a' as u8) <= b && b <= ('z' as u8)) || (('A' as u8) <= b && b <= ('Z' as u8)) || b == (
    '_' as u8)
}

/// Decimal digits.
pub open spec fn is_digit(b: u8) -> bool {
    ('0' as u8) <= b && b <= ('9' as u8)
}

/// ASCII whitespace: space, tab, line feed, form feed, carriage return.
pub open spec fn is_whitespace(b: u8) -> bool {
    b == (' ' as u8) || b == ('\t' as u8) || b == ('\n' as u8) || b == 12 || b == ('\r' as u8)
}

fn is_letter_byte(b: u8) -> (r: bool)
    ensures
        r == is_letter(b),
{
    (('a' as u8) <= b && b <= ('z' as u8)) || (('A' as u8) <= b && b <= ('Z' as u8)) || b == (
    '_' as u8)
}

fn is_digit_byte(b: u8) -> (r: bool)
    ensures
        r == is_digit(b),
{
    ('0' as u8) <= b && b <= ('9' as u8)
}

fn is_whitespace_byte(b: u8) -> (r: bool)
    ensures
        r == is_whitespace(b),
{
    b == (' ' as u8) || b == ('\t' as u8) || b == ('\n' as u8) || b == 12 || b == ('\r' as u8)
}

/// The byte under a cursor, with 0 as the sentinel past the end of the input.
pub open spec fn byte_at(input: Seq<u8>, pos: int) -> u8 {
    if 0 <= pos < input.len() {
        input[pos]
    } else {
        0
    }
}

/// Each byte of an ASCII run read as the character with the same code point.
pub open spec fn chars_of(s: Seq<u8>) -> Seq<char> {
    s.map(|_i: int, b: u8| b as char)
}

/// The first position at or after `pos` that does not hold whitespace.
pub open spec fn skip_whitespace_from(input: Seq<u8>, pos: int) -> int
    decreases input.len() - pos
        when 0 <= pos <= input.len()
{
    if pos < input.len() && is_whitespace(input[pos]) {
        skip_whitespace_from(input, pos + 1)
    } else {
        pos
    }
}

/// The end of the maximal identifier run starting at `pos`.
pub open spec fn letters_end(input: Seq<u8>, pos: int) -> int
    decreases input.len() - pos
        when 0 <= pos <= input.len()
{
    if pos < input.len() && is_letter(input[pos]) {
        letters_end(input, pos + 1)
    } else {
        pos
    }
}

/// The end of the maximal digit run starting at `pos`.
pub open spec fn digits_end(input: Seq<u8>, pos: int) -> int
    decreases input.len() - pos
        when 0 <= pos <= input.len()
{
    if pos < input.len() && is_digit(input[pos]) {
        digits_end(input, pos + 1)
    } else {
        pos
    }
}

/// Token kind of an identifier word: a keyword's own kind, else `Ident`.
pub open spec fn spec_lookup_ident(word: Seq<u8>) -> TokenType {
    if word == encode_utf8("fn"@) {
        TokenType::Function
    } else if word == encode_utf8("let"@) {
        TokenType::Let
    } else if word == encode_utf8("return"@) {
        TokenType::Return
    } else if word == encode_utf8("true"@) {
        TokenType::True
    } else if word == encode_utf8("false"@) {
        TokenType::False
    } else if word == encode_utf8("if"@) {
        TokenType::If
    } else if word == encode_utf8("else"@) {
        TokenType::Else
    } else {
        TokenType::Ident
    }
}

/// Kind of a one-character operator or punctuation byte; `Illegal` for any
/// byte the lexer does not recognise ('=' and '!' take the two-character
/// branches of `lex_step` and never reach this table).
pub open spec fn single_char_kind(b: u8) -> TokenType {
    if b == (';' as u8) {
        TokenType::Semicolon
    } else if b == ('(' as u8) {
        TokenType::LParen
    } else if b == (')' as u8) {
        TokenType::RParen
    } else if b == (',' as u8) {
        TokenType::Comma
    } else if b == ('+' as u8) {
        TokenType::Plus
    } else if b == ('{' as u8) {
        TokenType::LBrace
    } else if b == ('}' as u8) {
        TokenType::RBrace
    } else if b == ('-' as u8) {
        TokenType::Minus
    } else if b == ('*' as u8) {
        TokenType::Asterisk
    } else if b == ('/' as u8) {
        TokenType::Slash
    } else if b == ('<' as u8) {
        TokenType::LessThan
    } else if b == ('>' as u8) {
        TokenType::GreaterThan
    } else {
        TokenType::Illegal
    }
}

/// Literal text of a one-character token; `Illegal` carries an empty literal.
pub open spec fn single_char_literal(b: u8) -> Seq<char> {
    if b == (';' as u8) {
        ";"@
    } else if b == ('(' as u8) {
        "("@
    } else if b == (')' as u8) {
        ")"@
    } else if b == (',' as u8) {
        ","@
    } else if b == ('+' as u8) {
        "+"@
    } else if b == ('{' as u8) {
        "{"@
    } else if b == ('}' as u8) {
        "}"@
    } else if b == ('-' as u8) {
        "-"@
    } else if b == ('*' as u8) {
        "*"@
    } else if b == ('/' as u8) {
        "/"@
    } else if b == ('<' as u8) {
        "<"@
    } else if b == ('>' as u8) {
        ">"@
    } else {
        Seq::<char>::empty()
    }
}

/// One step of the lexer: the token produced and the cursor position after it.
pub struct LexStep {
    pub token: TokenV,
    pub pos: int,
}

/// The token the lexer produces starting at `pos`, and the position it leaves
/// the cursor at: skip whitespace, then classify the byte under the cursor,
/// using one byte of lookahead for the two-character operators.
pub open spec fn lex_step(input: Seq<u8>, pos: int) -> LexStep {
    let p = skip_whitespace_from(input, pos);
    if p >= input.len() {
        LexStep {
            token: TokenV { token_type: TokenType::Eof, literal: Seq::<char>::empty() },
            pos: p,
        }
    } else {
        let b = input[p];
        if b == 0 {
            LexStep {
                token: TokenV { token_type: TokenType::Eof, literal: Seq::<char>::empty() },
                pos: p + 1,
            }
        } else if is_letter(b) {
            let word = input.subrange(p, letters_end(input, p));
            LexStep {
                token: TokenV { token_type: spec_lookup_ident(word), literal: chars_of(word) },
                pos: letters_end(input, p),
            }
        } else if is_digit(b) {
            let run = input.subrange(p, digits_end(input, p));
            LexStep {
                token: TokenV { token_type: TokenType::Int, literal: chars_of(run) },
                pos: digits_end(input, p),
            }
        } else if b == ('=' as u8) {
            if byte_at(input, p + 1) == ('=' as u8) {
                LexStep {
                    token: TokenV { token_type: TokenType::Equal, literal: "=="@ },
                    pos: p + 2,
                }
            } else {
                LexStep {
                    token: TokenV { token_type: TokenType::Assign, literal: "="@ },
                    pos: p + 1,
                }
            }
        } else if b == ('!' as u8) {
            if byte_at(input, p + 1) == ('=' as u8) {
                LexStep {
                    token: TokenV { token_type: TokenType::BangEqual, literal: "!="@ },
                    pos: p + 2,
                }
            } else {
                LexStep {
                    token: TokenV { token_type: TokenType::Bang, literal: "!"@ },
                    pos: p + 1,
                }
            }
        } else {
            LexStep {
                token: TokenV { token_type: single_char_kind(b), literal: single_char_literal(b) },
                pos: p + 1,
            }
        }
    }
}

/// Compares two byte slices for equality of contents.
fn bytes_eq(a: &[u8], b: &[u8]) -> (r: bool)
    ensures
        r == (a@ == b@),
{
    if a.len() != b.len() {
        assert(a@.len() != b@.len());
        return false;
    }
    let n = a.len();
    let mut i: usize = 0;
    while i < n
        invariant
            n == a@.len() == b@.len(),
            i <= n,
            forall|j: int| 0 <= j < i ==> a@[j] == b@[j],
        decreases n - i,
    {
        if a[i] != b[i] {
            return false;
        }
        i = i + 1;
    }
    proof {
        assert(a@ =~= b@);
    }
    true
}

/// Classifies an identifier word against the fixed keyword set.
fn lookup_ident(word: &[u8]) -> (t: TokenType)
    ensures
        t == spec_lookup_ident(word@),
{
    if bytes_eq(word, "fn".as_bytes()) {
        TokenType::Function
    } else if bytes_eq(word, "let".as_bytes()) {
        TokenType::Let
    } else if bytes_eq(word, "return".as_bytes()) {
        TokenType::Return
    } else if bytes_eq(word, "true".as_bytes()) {
        TokenType::True
    } else if bytes_eq(word, "false".as_bytes()) {
        TokenType::False
    } else if bytes_eq(word, "if".as_bytes()) {
        TokenType::If
    } else if bytes_eq(word, "else".as_bytes()) {
        TokenType::Else
    } else {
        TokenType::Ident
    }
}

/// Relies on String::from_utf8: bytes below 0x80 are one-byte UTF-8 encodings,
/// so they decode to exactly the characters with the same code points.
#[verifier::external_body]
fn ascii_to_string(bytes: &[u8]) -> (r: String)
    requires
        forall|i: int| 0 <= i < bytes@.len() ==> bytes@[i] < 128,
    ensures
        r@ == chars_of(bytes@),
{
    match String::from_utf8(bytes.to_vec()) {
        Ok(s) => s,
        Err(_) => String::new(),
    }
}

/// Single-pass tokenizer over a byte buffer with one byte of lookahead.
/// `position` indexes the byte under examination, `read_position` the byte
/// after it, and `ch` caches the byte under `position` (0 past the end).
pub struct Lexer {
    pub position: usize,
    pub read_position: usize,
    pub ch: u8,
    pub input: Vec<u8>,
}

impl Lexer {
    /// The state invariant: one byte of lookahead, current byte cached in
    /// `ch`, cursor never past the end of the input.
    pub open spec fn wf(&self) -> bool {
        &&& self.input@.len() < usize::MAX
        &&& self.position <= self.input@.len()
        &&& self.read_position == self.position + 1
        &&& self.ch == byte_at(self.input@, self.position as int)
    }

    pub fn new(input: String) -> (l: Lexer)
        requires
            encode_utf8(input@).len() < usize::MAX,
        ensures
            l.wf(),
            l.input@ == encode_utf8(input@),
            l.position == 0,
    {
        let mut l = Lexer {
            position: 0,
            read_position: 0,
            ch: 0,
            input: input.as_str().as_bytes_vec(),
        };
        l.read_char();
        l
    }

    /// Advances the cursor one byte, caching the byte it lands on (0 past the
    /// end of the input).
    pub fn read_char(&mut self)
        requires
            old(self).read_position < usize::MAX,
        ensures
            final(self).input == old(self).input,
            final(self).position == old(self).read_position,
            final(self).read_position == old(self).read_position + 1,
            final(self).ch == byte_at(final(self).input@, old(self).read_position as int),
    {
        if self.read_position >= self.input.len() {
            self.ch = 0;
        } else {
            self.ch = self.input[self.read_position];
        }
        self.position = self.read_position;
        self.read_position = self.read_position + 1;
    }

    fn peek_char(&self) -> (b: u8)
        ensures
            b == byte_at(self.input@, self.read_position as int),
    {
        if self.read_position >= self.input.len() {
            0
        } else {
            self.input[self.read_position]
        }
    }

    fn skip_whitespace(&mut self)
        requires
            old(self).wf(),
        ensures
            final(self).wf(),
            final(self).input == old(self).input,
            final(self).position == skip_whitespace_from(
                final(self).input@,
                old(self).position as int,
            ),
    {
        while is_whitespace_byte(self.ch)
            invariant
                self.wf(),
                self.input == old(self).input,
                skip_whitespace_from(self.input@, old(self).position as int)
                    == skip_whitespace_from(self.input@, self.position as int),
            decreases self.input@.len() - self.position,
        {
            self.read_char();
        }
    }

    /// Scans the maximal identifier run under the cursor and returns its text.
    fn read_identifier(&mut self) -> (s: String)
        requires
            old(self).wf(),
        ensures
            final(self).wf(),
            final(self).input == old(self).input,
            old(self).position <= final(self).position,
            final(self).position == letters_end(final(self).input@, old(self).position as int),
            s@ == chars_of(
                final(self).input@.subrange(old(self).position as int, final(self).position as int),
            ),
    {
        let start = self.position;
        while is_letter_byte(self.ch)
            invariant
                self.wf(),
                self.input == old(self).input,
                start <= self.position,
                letters_end(self.input@, start as int) == letters_end(
                    self.input@,
                    self.position as int,
                ),
                forall|j: int| start <= j < self.position ==> is_letter(self.input@[j]),
            decreases self.input@.len() - self.position,
        {
            self.read_char();
        }
        let run = slice_subrange(self.input.as_slice(), start, self.position);
        assert(forall|i: int| 0 <= i < run@.len() ==> run@[i] < 128);
        ascii_to_string(run)
    }

    /// Scans the maximal digit run under the cursor and returns its text.
    fn read_int(&mut self) -> (s: String)
        requires
            old(self).wf(),
        ensures
            final(self).wf(),
            final(self).input == old(self).input,
            old(self).position <= final(self).position,
            final(self).position == digits_end(final(self).input@, old(self).position as int),
            s@ == chars_of(
                final(self).input@.subrange(old(self).position as int, final(self).position as int),
            ),
    {
        let start = self.position;
        while is_digit_byte(self.ch)
            invariant
                self.wf(),
                self.input == old(self).input,
                start <= self.position,
                digits_end(self.input@, start as int) == digits_end(
                    self.input@,
                    self.position as int,
                ),
                forall|j: int| start <= j < self.position ==> is_digit(self.input@[j]),
            decreases self.input@.len() - self.position,
        {
            self.read_char();
        }
        let run = slice_subrange(self.input.as_slice(), start, self.position);
        assert(forall|i: int| 0 <= i < run@.len() ==> run@[i] < 128);
        ascii_to_string(run)
    }

    /// Produces the next token and moves the cursor past it. Tokenization
    /// never fails: unrecognised bytes become `Illegal` tokens, and at the end
    /// of the input every call returns `Eof` without moving.
    pub fn next_token(&mut self) -> (t: Token)
        requires
            old(self).wf(),
        ensures
            final(self).wf(),
            final(self).input == old(self).input,
            t@ == lex_step(old(self).input@, old(self).position as int).token,
            final(self).position == lex_step(old(self).input@, old(self).position as int).pos,
    {
        self.skip_whitespace();
        if self.ch == 0 {
            // End of the input, or a stray zero byte inside it: Eof either
            // way; only the stray byte is stepped past, so at the true end
            // the lexer stays put and keeps answering Eof.
            let t = Token::new(TokenType::Eof, String::new());
            if self.read_position <= self.input.len() {
                self.read_char();
            }
            return t;
        }
        if is_letter_byte(self.ch) {
            let start = self.position;
            let ident = self.read_identifier();
            let run = slice_subrange(self.input.as_slice(), start, self.position);
            return Token::new(lookup_ident(run), ident);
        }
        if is_digit_byte(self.ch) {
            let number = self.read_int();
            return Token::new(TokenType::Int, number);
        }
        let t: Token;
        if self.ch == ('=' as u8) {
            if self.peek_char() == ('=' as u8) {
                self.read_char();
                t = Token::new(TokenType::Equal, "==".to_owned());
            } else {
                t = Token::new(TokenType::Assign, "=".to_owned());
            }
        } else if self.ch == ('!' as u8) {
            if self.peek_char() == ('=' as u8) {
                self.read_char();
                t = Token::new(TokenType::BangEqual, "!=".to_owned());
            } else {
                t = Token::new(TokenType::Bang, "!".to_owned());
            }
        } else if self.ch == (';' as u8) {
            t = Token::new(TokenType::Semicolon, ";".to_owned());
        } else if self.ch == ('(' as u8) {
            t = Token::new(TokenType::LParen, "(".to_owned());
        } else if self.ch == (')' as u8) {
            t = Token::new(TokenType::RParen, ")".to_owned());
        } else if self.ch == (',' as u8) {
            t = Token::new(TokenType::Comma, ",".to_owned());
        } else if self.ch == ('+' as u8) {
            t = Token::new(TokenType::Plus, "+".to_owned());
        } else if self.ch == ('{' as u8) {
            t = Token::new(TokenType::LBrace, "{".to_owned());
        } else if self.ch == ('}' as u8) {
            t = Token::new(TokenType::RBrace, "}".to_owned());
        } else if self.ch == ('-' as u8) {
            t = Token::new(TokenType::Minus, "-".to_owned());
        } else if self.ch == ('*' as u8) {
            t = Token::new(TokenType::Asterisk, "*".to_owned());
        } else if self.ch == ('/' as u8) {
            t = Token::new(TokenType::Slash, "/".to_owned());
        } else if self.ch == ('<' as u8) {
            t = Token::new(TokenType::LessThan, "<".to_owned());
        } else if self.ch == ('>' as u8) {
            t = Token::new(TokenType::GreaterThan, ">".to_owned());
        } else {
            t = Token::new(TokenType::Illegal, String::new());
        }
        self.read_char();
        t
    }
}


proof fn lemma_skip_whitespace_bounds(input: Seq<u8>, pos: int)
    requires
        0 <= pos <= input.len(),
    ensures
        pos <= skip_whitespace_from(input, pos) <= input.len(),
    decreases input.len() - pos,
{
    if pos < input.len() && is_whitespace(input[pos]) {
        lemma_skip_whitespace_bounds(input, pos + 1);
    }
}

proof fn lemma_letters_end_bounds(input: Seq<u8>, pos: int)
    requires
        0 <= pos <= input.len(),
    ensures
        pos <= letters_end(input, pos) <= input.len(),
    decreases input.len() - pos,
{
    if pos < input.len() && is_letter(input[pos]) {
        lemma_letters_end_bounds(input, pos + 1);
    }
}

proof fn lemma_digits_end_bounds(input: Seq<u8>, pos: int)
    requires
        0 <= pos <= input.len(),
    ensures
        pos <= digits_end(input, pos) <= input.len(),
    decreases input.len() - pos,
{
    if pos < input.len() && is_digit(input[pos]) {
        lemma_digits_end_bounds(input, pos + 1);
    }
}

/// Tokens are emitted in source order and the lexer never re-reads a byte it
/// has advanced past: one step never moves the cursor backwards or beyond the
/// end, and it stands still only to report `Eof`.
pub proof fn lemma_lex_step_bounds(input: Seq<u8>, pos: int)
    requires
        0 <= pos <= input.len(),
    ensures
        pos <= lex_step(input, pos).pos <= input.len(),
        lex_step(input, pos).token.token_type != TokenType::Eof ==> lex_step(input, pos).pos > pos,
{
    lemma_skip_whitespace_bounds(input, pos);
    let p = skip_whitespace_from(input, pos);
    if p < input.len() {
        let b = input[p];
        if is_letter(b) {
            lemma_letters_end_bounds(input, p + 1);
            assert(letters_end(input, p) == letters_end(input, p + 1));
        } else if is_digit(b) {
            lemma_digits_end_bounds(input, p + 1);
            assert(digits_end(input, p) == digits_end(input, p + 1));
        }
    }
}

/// At the end of the input the lexer is at a fixpoint: it answers `Eof`
/// without moving, so every further call answers `Eof` again. Together with
/// `next_token`'s contract, which makes each token a function of the lexer's
/// state alone, re-lexing the same input always yields the same tokens.
pub proof fn lemma_eof_fixpoint(input: Seq<u8>)
    ensures
        lex_step(input, input.len() as int).token.token_type == TokenType::Eof,
        lex_step(input, input.len() as int).token.literal == Seq::<char>::empty(),
        lex_step(input, input.len() as int).pos == input.len(),
{
}

/// Two-character operators win over their one-character prefixes: on '=' the
/// lexer inspects one more byte, so "==" is a single `Equal` token, never two
/// `Assign` tokens, and "!=" is a single `BangEqual` token, never `Bang`
/// followed by `Assign`.
pub proof fn lemma_two_char_disambiguation(input: Seq<u8>, pos: int)
    requires
        0 <= pos <= input.len(),
        skip_whitespace_from(input, pos) < input.len(),
    ensures
        ({
            let p = skip_whitespace_from(input, pos);
            &&& (input[p] == ('=' as u8) && byte_at(input, p + 1) == ('=' as u8)) ==> lex_step(
                input,
                pos,
            ) == (LexStep {
                token: TokenV { token_type: TokenType::Equal, literal: "=="@ },
                pos: p + 2,
            })
            &&& (input[p] == ('=' as u8) && byte_at(input, p + 1) != ('=' as u8)) ==> lex_step(
                input,
                pos,
            ) == (LexStep {
                token: TokenV { token_type: TokenType::Assign, literal: "="@ },
                pos: p + 1,
            })
            &&& (input[p] == ('!' as u8) && byte_at(input, p + 1) == ('=' as u8)) ==> lex_step(
                input,
                pos,
            ) == (LexStep {
                token: TokenV { token_type: TokenType::BangEqual, literal: "!="@ },
                pos: p + 2,
            })
            &&& (input[p] == ('!' as u8) && byte_at(input, p + 1) != ('=' as u8)) ==> lex_step(
                input,
                pos,
            ) == (LexStep {
                token: TokenV { token_type: TokenType::Bang, literal: "!"@ },
                pos: p + 1,
            })
        }),
{
}

/// A keyword token carries the keyword itself as its literal: whenever the
/// lexer answers `Let` the literal is exactly "let", and whenever it answers
/// `Return` the literal is exactly "return".
pub proof fn lemma_keyword_literal(input: Seq<u8>, pos: int)
    requires
        0 <= pos <= input.len(),
    ensures
        lex_step(input, pos).token.token_type == TokenType::Let ==> lex_step(
            input,
            pos,
        ).token.literal == "let"@,
        lex_step(input, pos).token.token_type == TokenType::Return ==> lex_step(
            input,
            pos,
        ).token.literal == "return"@,
{
    let t = lex_step(input, pos).token;
    if t.token_type == TokenType::Let {
        reveal_strlit("let");
        lemma_ascii_chars_of_encoding("let"@);
    }
    if t.token_type == TokenType::Return {
        reveal_strlit("return");
        lemma_ascii_chars_of_encoding("return"@);
    }
}

/// Reading the UTF-8 encoding of an ASCII string back byte by byte gives the
/// original characters.
proof fn lemma_ascii_chars_of_encoding(s: Seq<char>)
    requires
        vstd::utf8::is_ascii_chars(s),
    ensures
        chars_of(encode_utf8(s)) == s,
{
    vstd::utf8::is_ascii_chars_encode_utf8(s);
    assert forall|i: int| 0 <= i < s.len() implies chars_of(encode_utf8(s))[i] == s[i] by {
        assert(encode_utf8(s)[i] == (s[i] as u8));
        assert((s[i] as u32) < 128);
        assert((s[i] as u8) as char == s[i]);
    }
    assert(chars_of(encode_utf8(s)) =~= s);
}

} // verus!

