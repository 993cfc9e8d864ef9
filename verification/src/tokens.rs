//! Tokenization of pattern strings.
//!
//! The lexer walks a pattern string and hands out one [`Token`] per call.
//! Whitespace is skipped silently, escape sequences map to class or anchor
//! tokens, and every other character resolves to some token, so lexing
//! cannot fail.  After the end of the pattern every further call keeps
//! returning [`Token::EOF`].

use vstd::prelude::*;
use vstd::string::StrSliceExecFns;

verus! {

/// A lexical token of the pattern language.
#[derive(Debug, Clone, Copy, PartialEq, Eq, Structural)]
pub enum Token {
    /// An ordinary character.
    Char(char),
    /// A backslash escape with no class meaning; carries the escaped character.
    Escape(char),
    /// Implicit concatenation; part of the token vocabulary, never produced by the lexer.
    Concat,
    /// `|`
    Alternation,
    /// `*`
    Star,
    /// `+`
    Plus,
    /// `?`
    Question,
    /// `{`, opening a repetition range
    Range,
    /// `(`
    OpenParen,
    /// `)`
    CloseParen,
    /// `[`
    OpenBracket,
    /// `]`
    CloseBracket,
    /// `.`
    AnyChar,
    /// `\d`
    Digit,
    /// `\w`
    WordChar,
    /// `\s`
    Whitespace,
    /// `^`
    StartLine,
    /// `$`
    EndLine,
    /// `\A`
    StartInput,
    /// `\z`
    EndInput,
    /// `\b`
    WordBoundary,
    /// End of the pattern.
    EOF,
}

/// Characters the lexer skips without producing a token.
pub open spec fn is_skipped_whitespace(c: char) -> bool {
    c == ' ' || c == '\t' || c == '\n' || c == '\r'
}

/// The token an escaped character resolves to: class and anchor escapes have
/// their own tokens, everything else degrades to a literal escape.
pub open spec fn spec_escape_token(c: char) -> Token {
    if c == 'd' {
        Token::Digit
    } else if c == 'w' {
        Token::WordChar
    } else if c == 's' {
        Token::Whitespace
    } else if c == 'A' {
        Token::StartInput
    } else if c == 'z' {
        Token::EndInput
    } else if c == 'b' {
        Token::WordBoundary
    } else {
        Token::Escape(c)
    }
}

/// The token an unescaped, non-whitespace character resolves to.
pub open spec fn spec_symbol_token(c: char) -> Token {
    if c == '(' {
        Token::OpenParen
    } else if c == ')' {
        Token::CloseParen
    } else if c == '[' {
        Token::OpenBracket
    } else if c == ']' {
        Token::CloseBracket
    } else if c == '*' {
        Token::Star
    } else if c == '+' {
        Token::Plus
    } else if c == '?' {
        Token::Question
    } else if c == '|' {
        Token::Alternation
    } else if c == '.' {
        Token::AnyChar
    } else if c == '^' {
        Token::StartLine
    } else if c == '$' {
        Token::EndLine
    } else if c == '{' {
        Token::Range
    } else {
        Token::Char(c)
    }
}

/// What a backslash at the end of position `pos - 1` resolves to: the escaped
/// character's token, or a literal backslash if the pattern ends here.
pub open spec fn spec_escape_lookup(s: Seq<char>, pos: nat) -> (Token, nat) {
    if pos >= s.len() {
        (Token::Char('\\'), pos)
    } else {
        (spec_escape_token(s[pos as int]), (pos + 1) as nat)
    }
}

/// The next token of `s` starting at `pos`, together with the cursor position
/// after it.  Whitespace is skipped; at or past the end the result is
/// [`Token::EOF`] with the cursor unmoved, so the EOF tail is idempotent.
pub open spec fn spec_next_token(s: Seq<char>, pos: nat) -> (Token, nat)
    decreases s.len() - pos,
{
    if pos >= s.len() {
        (Token::EOF, pos)
    } else if is_skipped_whitespace(s[pos as int]) {
        spec_next_token(s, (pos + 1) as nat)
    } else if s[pos as int] == '\\' {
        spec_escape_lookup(s, (pos + 1) as nat)
    } else {
        (spec_symbol_token(s[pos as int]), (pos + 1) as nat)
    }
}

/// A non-EOF token always moves the cursor strictly forward, and the cursor
/// never leaves the pattern.
pub proof fn lemma_next_token_advances(s: Seq<char>, pos: nat)
    requires
        pos <= s.len(),
    ensures
        ({
            let (t, p) = spec_next_token(s, pos);
            &&& p <= s.len()
            &&& (t != Token::EOF ==> pos < p)
            &&& (t == Token::EOF ==> p == s.len())
        }),
    decreases s.len() - pos,
{
    if pos < s.len() && is_skipped_whitespace(s[pos as int]) {
        lemma_next_token_advances(s, (pos + 1) as nat);
    }
}

/// The whole token sequence of `s` from `pos` on, without the trailing EOF.
pub open spec fn spec_tokens_from(s: Seq<char>, pos: nat) -> Seq<Token>
    decreases s.len() - pos,
{
    let (t, p) = spec_next_token(s, pos);
    if t == Token::EOF || !(pos < p <= s.len()) {
        Seq::<Token>::empty()
    } else {
        seq![t] + spec_tokens_from(s, p)
    }
}

/// The token sequence of a whole pattern, without the trailing EOF.
pub open spec fn spec_tokens(s: Seq<char>) -> Seq<Token> {
    spec_tokens_from(s, 0)
}

/// A cursor over a pattern string that produces one token per call.
#[derive(Debug)]
pub struct Lexer<'a> {
    input: &'a str,
    position: usize,
}

impl<'a> Lexer<'a> {
    /// The pattern being tokenized.
    pub closed spec fn text(&self) -> Seq<char> {
        self.input@
    }

    /// The current cursor position, in characters.
    pub closed spec fn pos(&self) -> nat {
        self.position as nat
    }

    /// The cursor never leaves the pattern.
    pub open spec fn wf(&self) -> bool {
        self.pos() <= self.text().len()
    }

    pub fn new(input: &'a str) -> (l: Self)
        ensures
            l.wf(),
            l.text() == input@,
            l.pos() == 0,
    {
        Self { input, position: 0 }
    }

    /// Returns the next token and advances past it; at the end of the pattern
    /// it keeps returning [`Token::EOF`] without moving.
    pub fn next_token(&mut self) -> (t: Token)
        requires
            old(self).wf(),
        ensures
            final(self).wf(),
            final(self).text() == old(self).text(),
            (t, final(self).pos()) == spec_next_token(old(self).text(), old(self).pos()),
    {
        let n = self.input.unicode_len();
        loop
            invariant
                self.wf(),
                self.input == old(self).input,
                n as nat == self.text().len(),
                self.position <= n,
                spec_next_token(self.text(), self.pos()) == spec_next_token(
                    old(self).text(),
                    old(self).pos(),
                ),
            decreases n - self.position,
        {
            if self.position >= n {
                return Token::EOF;
            }
            let c = self.input.get_char(self.position);
            if c == ' ' || c == '\t' || c == '\n' || c == '\r' {
                self.position = self.position + 1;
            } else if c == '\\' {
                self.position = self.position + 1;
                return self.handle_escape();
            } else {
                self.position = self.position + 1;
                return symbol_token(c);
            }
        }
    }

    /// Resolves the character after a backslash, or a literal backslash at the
    /// end of the pattern.
    fn handle_escape(&mut self) -> (t: Token)
        requires
            old(self).wf(),
        ensures
            final(self).wf(),
            final(self).text() == old(self).text(),
            (t, final(self).pos()) == spec_escape_lookup(old(self).text(), old(self).pos()),
    {
        let n = self.input.unicode_len();
        if self.position >= n {
            return Token::Char('\\');
        }
        let c = self.input.get_char(self.position);
        self.position = self.position + 1;
        escape_token(c)
    }
}

/// Executable counterpart of [`spec_escape_token`].
fn escape_token(c: char) -> (t: Token)
    ensures
        t == spec_escape_token(c),
{
    if c == 'd' {
        Token::Digit
    } else if c == 'w' {
        Token::WordChar
    } else if c == 's' {
        Token::Whitespace
    } else if c == 'A' {
        Token::StartInput
    } else if c == 'z' {
        Token::EndInput
    } else if c == 'b' {
        Token::WordBoundary
    } else {
        Token::Escape(c)
    }
}

/// Executable counterpart of [`spec_symbol_token`].
fn symbol_token(c: char) -> (t: Token)
    ensures
        t == spec_symbol_token(c),
{
    if c == '(' {
        Token::OpenParen
    } else if c == ')' {
        Token::CloseParen
    } else if c == '[' {
        Token::OpenBracket
    } else if c == ']' {
        Token::CloseBracket
    } else if c == '*' {
        Token::Star
    } else if c == '+' {
        Token::Plus
    } else if c == '?' {
        Token::Question
    } else if c == '|' {
        Token::Alternation
    } else if c == '.' {
        Token::AnyChar
    } else if c == '^' {
        Token::StartLine
    } else if c == '$' {
        Token::EndLine
    } else if c == '{' {
        Token::Range
    } else {
        Token::Char(c)
    }
}

} // verus!
