//! The scanner: source text to tokens.
//!
//! Identifiers are ASCII-alphanumeric and begin with a letter; string
//! literals may span newlines and carry the line where they began; comments
//! run from `//` to the end of the line.  A number literal's token carries
//! its source text (see [`crate::token::TokenType`]).

use vstd::prelude::*;

use crate::token::Token;
use crate::token::TokenType;

verus! {

/// A scanning error: its message and the line it was found on.
#[derive(Debug, PartialEq)]
pub struct ScannerError {
    pub message: String,
    pub line: u16,
}

/// The scanner's cursor state over the source text.
pub struct Scanner {
    pub source: String,
    pub chars: Vec<char>,
    pub tokens: Vec<Token>,
    pub errors: Vec<ScannerError>,
    pub start: usize,
    pub current: usize,
    pub line: u16,
}

/// Whether a character is an ASCII digit.
pub open spec fn is_digit_char(c: char) -> bool {
    48 <= (c as u32) <= 57
}

/// Whether a character is an ASCII letter.
pub open spec fn is_letter_char(c: char) -> bool {
    (65 <= (c as u32) <= 90) || (97 <= (c as u32) <= 122)
}

fn digit(c: char) -> (r: bool)
    ensures
        r == is_digit_char(c),
{
    let u = c as u32;
    48 <= u && u <= 57
}

fn letter(c: char) -> (r: bool)
    ensures
        r == is_letter_char(c),
{
    let u = c as u32;
    (65 <= u && u <= 90) || (97 <= u && u <= 122)
}

impl Scanner {
    /// The cursor lies within the text, which `chars` mirrors character by
    /// character.
    pub open spec fn wf(self) -> bool {
        &&& self.chars@ == self.source@
        &&& self.start <= self.current
        &&& self.current as int <= self.chars@.len()
    }

    pub fn new(source: String) -> (s: Scanner)
        ensures
            s.wf(),
            s.tokens@.len() == 0,
            s.errors@.len() == 0,
            s.current == 0,
            s.line == 1,
            s.source@ == source@,
    {
        let n = source.as_str().unicode_len();
        let mut chars: Vec<char> = Vec::new();
        let mut i: usize = 0;
        while i < n
            invariant
                i <= n,
                n == source@.len(),
                chars@ =~= source@.take(i as int),
            decreases n - i,
        {
            let c = source.as_str().get_char(i);
            chars.push(c);
            i = i + 1;
        }
        proof {
            assert(source@.take(n as int) =~= source@);
        }
        Scanner {
            source,
            chars,
            tokens: Vec::new(),
            errors: Vec::new(),
            start: 0,
            current: 0,
            line: 1,
        }
    }

    /// Scans the whole text.  On success the tokens end with `Eof`; any
    /// scanning error fails the whole scan with every error found.
    pub fn scan_tokens(self) -> (r: Result<Vec<Token>, Vec<ScannerError>>)
        requires
            self.wf(),
            self.current == 0,
            self.tokens@.len() == 0,
        ensures
            match r {
                Ok(tokens) => tokens@.len() >= 1 && tokens@.last().typ is Eof,
                Err(errors) => errors@.len() > 0,
            },
    {
        let mut s = self;
        while s.current < s.chars.len()
            invariant
                s.wf(),
            decreases s.chars@.len() - s.current,
        {
            s.start = s.current;
            s.scan_token();
        }
        if s.errors.len() > 0 {
            return Err(s.errors);
        }
        let line = s.line;
        s.tokens.push(Token { typ: TokenType::Eof, lexeme: String::new(), line });
        Ok(s.tokens)
    }

    /// The character under the cursor, or NUL at the end.
    fn peek(&self) -> (r: char)
        requires
            self.wf(),
        ensures
            r == if self.current as int == self.chars@.len() {
                '\0'
            } else {
                self.chars@[self.current as int]
            },
    {
        if self.current >= self.chars.len() {
            return '\0';
        }
        self.chars[self.current]
    }

    /// The character after the cursor, or NUL past the end.
    fn peek_next(&self) -> (r: char)
        requires
            self.wf(),
        ensures
            r == if self.current as int + 1 >= self.chars@.len() {
                '\0'
            } else {
                self.chars@[self.current as int + 1]
            },
    {
        let n = self.chars.len();
        if self.current >= n {
            return '\0';
        }
        if self.current + 1 >= n {
            return '\0';
        }
        self.chars[self.current + 1]
    }

    fn is_at_end(&self) -> (r: bool)
        requires
            self.wf(),
        ensures
            r == (self.current as int == self.chars@.len()),
    {
        self.current >= self.chars.len()
    }

    /// Consumes and returns the character under the cursor.
    fn advance(&mut self) -> (r: char)
        requires
            old(self).wf(),
            (old(self).current as int) < old(self).chars@.len(),
        ensures
            final(self).wf(),
            final(self).current == old(self).current + 1,
            r == old(self).chars@[old(self).current as int],
            same_text(*old(self), *final(self)),
            final(self).start == old(self).start,
            final(self).line == old(self).line,
            final(self).tokens@ == old(self).tokens@,
            final(self).errors@ == old(self).errors@,
    {
        let _n = self.chars.len();
        let c = self.chars[self.current];
        self.current = self.current + 1;
        c
    }

    /// Consumes the character under the cursor when it is `expected`.
    fn current_match(&mut self, expected: char) -> (r: bool)
        requires
            old(self).wf(),
        ensures
            final(self).wf(),
            same_text(*old(self), *final(self)),
            final(self).start == old(self).start,
            final(self).line == old(self).line,
            final(self).tokens@ == old(self).tokens@,
            final(self).errors@ == old(self).errors@,
            r == ((old(self).current as int) < old(self).chars@.len() && old(self).chars@[old(self).current as int] == expected),
            final(self).current == if r {
                old(self).current + 1
            } else {
                old(self).current as int
            },
    {
        if self.is_at_end() {
            return false;
        }
        let _n = self.chars.len();
        let c = self.peek();
        if c != expected {
            return false;
        }
        self.current = self.current + 1;
        true
    }

    /// Appends a token covering the text from `start` to the cursor.
    fn add_token(&mut self, typ: TokenType)
        requires
            old(self).wf(),
        ensures
            final(self).wf(),
            same_text(*old(self), *final(self)),
            final(self).current == old(self).current,
            final(self).start == old(self).start,
            final(self).line == old(self).line,
            final(self).errors@ == old(self).errors@,
            final(self).tokens@.len() == old(self).tokens@.len() + 1,
            final(self).tokens@.last().lexeme@ == old(self).source@.subrange(
                old(self).start as int,
                old(self).current as int,
            ),
            final(self).tokens@.last().line == old(self).line,
    {
        let text = self.source.as_str().substring_char(self.start, self.current).to_owned();
        let line = self.line;
        self.tokens.push(Token { typ, lexeme: text, line });
    }

    fn add_error(&mut self, message: String)
        requires
            old(self).wf(),
        ensures
            final(self).wf(),
            same_text(*old(self), *final(self)),
            final(self).current == old(self).current,
            final(self).start == old(self).start,
            final(self).line == old(self).line,
            final(self).tokens@ == old(self).tokens@,
            final(self).errors@.len() == old(self).errors@.len() + 1,
    {
        let line = self.line;
        self.errors.push(ScannerError { message, line });
    }

    /// Moves to the next source line; the count saturates rather than
    /// wrap.
    fn increment_line(&mut self)
        requires
            old(self).wf(),
        ensures
            final(self).wf(),
            same_text(*old(self), *final(self)),
            final(self).current == old(self).current,
            final(self).start == old(self).start,
            final(self).tokens@ == old(self).tokens@,
            final(self).errors@ == old(self).errors@,
    {
        if self.line < 65535 {
            self.line = self.line + 1;
        }
    }

    /// Scans one lexeme starting at the cursor.
    fn scan_token(&mut self)
        requires
            old(self).wf(),
            (old(self).current as int) < old(self).chars@.len(),
            old(self).start == old(self).current,
        ensures
            final(self).wf(),
            same_text(*old(self), *final(self)),
            final(self).current > old(self).current,
    {
        let c = self.advance();
        if c == '(' {
            self.add_token(TokenType::LeftParen);
        } else if c == ')' {
            self.add_token(TokenType::RightParen);
        } else if c == '{' {
            self.add_token(TokenType::LeftBrace);
        } else if c == '}' {
            self.add_token(TokenType::RightBrace);
        } else if c == ',' {
            self.add_token(TokenType::Comma);
        } else if c == '.' {
            self.add_token(TokenType::Dot);
        } else if c == '-' {
            self.add_token(TokenType::Minus);
        } else if c == '+' {
            self.add_token(TokenType::Plus);
        } else if c == ';' {
            self.add_token(TokenType::Semicolon);
        } else if c == '*' {
            self.add_token(TokenType::Star);
        } else if c == '!' {
            if self.current_match('=') {
                self.add_token(TokenType::BangEqual);
            } else {
                self.add_token(TokenType::Bang);
            }
        } else if c == '=' {
            if self.current_match('=') {
                self.add_token(TokenType::EqualEqual);
            } else {
                self.add_token(TokenType::Equal);
            }
        } else if c == '>' {
            if self.current_match('=') {
                self.add_token(TokenType::GreaterEqual);
            } else {
                self.add_token(TokenType::Greater);
            }
        } else if c == '<' {
            if self.current_match('=') {
                self.add_token(TokenType::LessEqual);
            } else {
                self.add_token(TokenType::Less);
            }
        } else if c == '/' {
            if self.current_match('/') {
                // a comment runs to the end of the line
                while self.current < self.chars.len() && self.chars[self.current] != '\n'
                    invariant
                        self.wf(),
                        same_text(*old(self), *self),
                        self.current > old(self).current,
                    decreases self.chars@.len() - self.current,
                {
                    let _ = self.advance();
                }
            } else {
                self.add_token(TokenType::Slash);
            }
        } else if c == '"' {
            self.string();
        } else if c == ' ' || c == '\t' || c == '\r' {
        } else if c == '\n' {
            self.increment_line();
        } else if digit(c) {
            self.number();
        } else if letter(c) {
            self.identifier();
        } else {
            self.add_error(String::from_str("Unexpected character."));
        }
    }

    /// Scans a string literal: everything to the closing quote.  The token
    /// carries the line the literal began on; an unterminated literal is
    /// an error.
    fn string(&mut self)
        requires
            old(self).wf(),
            old(self).start < old(self).current,
        ensures
            final(self).wf(),
            same_text(*old(self), *final(self)),
            final(self).current >= old(self).current,
    {
        let mut nb_lines: usize = 0;
        let mut terminated = false;
        while !terminated && self.current < self.chars.len()
            invariant
                self.wf(),
                same_text(*old(self), *self),
                self.current >= old(self).current,
                self.start == old(self).start,
                self.line == old(self).line,
                self.start < self.current,
            decreases self.chars@.len() - self.current,
        {
            let c = self.advance();
            if c == '"' {
                terminated = true;
            } else if c == '\n' {
                if nb_lines < 65535 {
                    nb_lines = nb_lines + 1;
                }
            }
        }
        if !terminated {
            self.add_error(String::from_str("Unterminated string."));
        }
        // the literal's text: between the quotes when terminated
        let to = if terminated {
            self.current - 1
        } else {
            self.current
        };
        let from = self.start + 1;
        let literal = if from <= to {
            self.source.as_str().substring_char(from, to).to_owned()
        } else {
            String::new()
        };
        self.add_token(TokenType::Str(literal));
        // a multi-line string is recorded on the line where it began
        let mut k: usize = 0;
        while k < nb_lines
            invariant
                self.wf(),
                same_text(*old(self), *self),
                self.current >= old(self).current,
            decreases nb_lines - k,
        {
            self.increment_line();
            k = k + 1;
        }
    }

    /// Scans a number literal: digits, then optionally a dot followed by
    /// at least one digit.
    fn number(&mut self)
        requires
            old(self).wf(),
        ensures
            final(self).wf(),
            same_text(*old(self), *final(self)),
            final(self).current >= old(self).current,
    {
        while self.current < self.chars.len() && digit(self.chars[self.current])
            invariant
                self.wf(),
                same_text(*old(self), *self),
                self.current >= old(self).current,
                self.start == old(self).start,
                self.line == old(self).line,
            decreases self.chars@.len() - self.current,
        {
            let _ = self.advance();
        }
        // a dot followed by a digit continues the number; a trailing dot
        // does not
        let dot = self.peek();
        let next = self.peek_next();
        if dot == '.' && digit(next) {
            let _ = self.advance();
            while self.current < self.chars.len() && digit(self.chars[self.current])
                invariant
                    self.wf(),
                    same_text(*old(self), *self),
                    self.current >= old(self).current,
                    self.start == old(self).start,
                    self.line == old(self).line,
                decreases self.chars@.len() - self.current,
            {
                let _ = self.advance();
            }
        }
        let text = self.source.as_str().substring_char(self.start, self.current).to_owned();
        self.add_token(TokenType::Number(text));
    }

    /// Scans an identifier or keyword.
    fn identifier(&mut self)
        requires
            old(self).wf(),
        ensures
            final(self).wf(),
            same_text(*old(self), *final(self)),
            final(self).current >= old(self).current,
    {
        while self.current < self.chars.len() && (digit(self.chars[self.current]) || letter(self.chars[self.current]))
            invariant
                self.wf(),
                same_text(*old(self), *self),
                self.current >= old(self).current,
                self.start == old(self).start,
                self.line == old(self).line,
            decreases self.chars@.len() - self.current,
        {
            let _ = self.advance();
        }
        let text = self.source.as_str().substring_char(self.start, self.current).to_owned();
        if text == String::from_str("and") {
            self.add_token(TokenType::And);
        } else if text == String::from_str("not") {
            self.add_token(TokenType::Not);
        } else if text == String::from_str("struct") {
            self.add_token(TokenType::Struct);
        } else if text == String::from_str("else") {
            self.add_token(TokenType::Else);
        } else if text == String::from_str("false") {
            self.add_token(TokenType::False);
        } else if text == String::from_str("fun") {
            self.add_token(TokenType::Fun);
        } else if text == String::from_str("for") {
            self.add_token(TokenType::For);
        } else if text == String::from_str("if") {
            self.add_token(TokenType::If);
        } else if text == String::from_str("null") {
            self.add_token(TokenType::Null);
        } else if text == String::from_str("or") {
            self.add_token(TokenType::Or);
        } else if text == String::from_str("return") {
            self.add_token(TokenType::Return);
        } else if text == String::from_str("super") {
            self.add_token(TokenType::Super);
        } else if text == String::from_str("self") {
            self.add_token(TokenType::Slf);
        } else if text == String::from_str("true") {
            self.add_token(TokenType::True);
        } else if text == String::from_str("let") {
            self.add_token(TokenType::Let);
        } else if text == String::from_str("while") {
            self.add_token(TokenType::While);
        } else if text == String::from_str("print") {
            self.add_token(TokenType::Print);
        } else {
            self.add_token(TokenType::Identifier(text));
        }
    }
}

/// Two scanner states over the same text.
pub open spec fn same_text(a: Scanner, b: Scanner) -> bool {
    b.source == a.source && b.chars@ == a.chars@
}

} // verus!
