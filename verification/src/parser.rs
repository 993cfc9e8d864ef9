//! Recursive-descent parsing of token streams into pattern trees.
//!
//! The grammar, each level returning one tree or the first error met, with no
//! resynchronization:
//!
//! ```text
//! alternation := concat ('|' concat)*
//! concat      := atom+
//! atom        := primary quantifier?
//! quantifier  := '*' | '+' | '?' | '{' range '}'
//! primary     := literal | escape-class | '.' | '(' alternation ')' | anchor
//! range       := digit (',' digit?)?        -- single-digit bounds only
//! ```
//!
//! The whole grammar is mirrored by spec functions over the token sequence
//! (`spec_parse_*`), and every parsing method returns exactly what its mirror
//! computes, so the parser's behaviour — the tree, the error, and the cursor
//! position — is pinned down completely.

use vstd::prelude::*;

use crate::ast::{RegexExp, RegexNode, RepeatRange};
use crate::ast::{lemma_nodes_view_index, lemma_nodes_view_push, nodes_view};
use crate::tokens::{Lexer, Token};
use crate::tokens::{lemma_next_token_advances, spec_tokens, spec_tokens_from};

verus! {

/// A parse error: the mismatch that stopped the parser.
#[derive(Debug, Clone, Copy, PartialEq, Eq, Structural)]
pub enum ParseError {
    /// A specific token was required and something else was found.
    Unexpected { expected: Token, found: Token },
    /// No grammar rule starts with the found token.
    UnexpectedToken { found: Token },
    /// A repetition range whose upper bound is below its lower bound.
    InvalidRange { min: usize, max: usize },
}

/// The token at position `i`, with an inexhaustible EOF tail.
pub open spec fn spec_cur(toks: Seq<Token>, i: nat) -> Token {
    if i < toks.len() {
        toks[i as int]
    } else {
        Token::EOF
    }
}

/// ASCII digits, as the range parser recognizes them.
pub open spec fn spec_is_digit(c: char) -> bool {
    48 <= c as int <= 57
}

/// The numeric value of an ASCII digit.
pub open spec fn spec_digit_val(c: char) -> nat {
    (c as int - 48) as nat
}

/// The tree an escaped character stands for: class and anchor escapes have
/// their own nodes, everything else degrades to a literal character.
pub open spec fn spec_escape_node(c: char) -> RegexExp {
    if c == 'd' {
        RegexExp::Digit
    } else if c == 'w' {
        RegexExp::WordChar
    } else if c == 's' {
        RegexExp::Whitespace
    } else if c == 'A' {
        RegexExp::StartInput
    } else if c == 'z' {
        RegexExp::EndInput
    } else if c == 'b' {
        RegexExp::WordBoundary
    } else {
        RegexExp::Char(c)
    }
}

/// What consuming an expected token does: advance on an exact match, fail
/// naming the expected and the found token otherwise.
pub open spec fn spec_consume(toks: Seq<Token>, i: nat, expected: Token) -> (Result<
    (),
    ParseError,
>, nat) {
    let c = spec_cur(toks, i);
    if c == expected {
        (Ok(()), if i < toks.len() {
            (i + 1) as nat
        } else {
            i
        })
    } else {
        (Err(ParseError::Unexpected { expected, found: c }), i)
    }
}

/// The tokens that end a concatenation.
pub open spec fn spec_is_concat_end(t: Token) -> bool {
    t == Token::Alternation || t == Token::CloseParen || t == Token::EOF
}

/// Mirror of the `primary` production at position `i`: the parsed tree or the
/// error, and the position after it.
pub open spec fn spec_parse_primary(toks: Seq<Token>, i: nat) -> (Result<RegexExp, ParseError>, nat)
    decreases toks.len() - i, 0nat,
{
    match spec_cur(toks, i) {
        Token::Char(ch) => (Ok(RegexExp::Char(ch)), (i + 1) as nat),
        Token::Escape(ch) => (Ok(spec_escape_node(ch)), (i + 1) as nat),
        Token::AnyChar => (Ok(RegexExp::AnyChar), (i + 1) as nat),
        Token::Digit => (Ok(RegexExp::Digit), (i + 1) as nat),
        Token::WordChar => (Ok(RegexExp::WordChar), (i + 1) as nat),
        Token::Whitespace => (Ok(RegexExp::Whitespace), (i + 1) as nat),
        Token::OpenParen => {
            if i < toks.len() {
                let (r, j) = spec_parse_alternation(toks, (i + 1) as nat);
                match r {
                    Err(e) => (Err(e), j),
                    Ok(node) => {
                        if spec_cur(toks, j) == Token::CloseParen {
                            (Ok(RegexExp::Group(Box::new(node))), (j + 1) as nat)
                        } else {
                            (
                                Err(
                                    ParseError::Unexpected {
                                        expected: Token::CloseParen,
                                        found: spec_cur(toks, j),
                                    },
                                ),
                                j,
                            )
                        }
                    },
                }
            } else {
                // never taken: an `OpenParen` under the cursor puts the cursor
                // inside the token sequence; the bound only keeps the
                // recursion well-founded
                (Err(ParseError::UnexpectedToken { found: Token::OpenParen }), i)
            }
        },
        Token::StartLine => (Ok(RegexExp::StartLine), (i + 1) as nat),
        Token::EndLine => (Ok(RegexExp::EndLine), (i + 1) as nat),
        Token::StartInput => (Ok(RegexExp::StartInput), (i + 1) as nat),
        Token::EndInput => (Ok(RegexExp::EndInput), (i + 1) as nat),
        Token::WordBoundary => (Ok(RegexExp::WordBoundary), (i + 1) as nat),
        t => (Err(ParseError::UnexpectedToken { found: t }), i),
    }
}

/// Mirror of the `range` production: the bounds of `{m}`, `{m,}` or `{m,n}`
/// up to and including the closing brace.  A missing lower digit or closing
/// brace, or an upper bound below the lower one, is an error.
pub open spec fn spec_parse_range(toks: Seq<Token>, i: nat) -> (Result<
    (nat, Option<nat>),
    ParseError,
>, nat)
    decreases toks.len() - i, 0nat,
{
    match spec_cur(toks, i) {
        Token::Char(c) => {
            if spec_is_digit(c) {
                let mn = spec_digit_val(c);
                let (mx, j) = if spec_cur(toks, (i + 1) as nat) == Token::Char(',') {
                    match spec_cur(toks, (i + 2) as nat) {
                        Token::Char(c2) => {
                            if spec_is_digit(c2) {
                                (Some(spec_digit_val(c2)), (i + 3) as nat)
                            } else {
                                (None::<nat>, (i + 2) as nat)
                            }
                        },
                        _ => (None::<nat>, (i + 2) as nat),
                    }
                } else {
                    (None::<nat>, (i + 1) as nat)
                };
                if spec_cur(toks, j) == Token::Char('}') {
                    match mx {
                        Some(m) => {
                            if m < mn {
                                (
                                    Err(
                                        ParseError::InvalidRange {
                                            min: mn as usize,
                                            max: m as usize,
                                        },
                                    ),
                                    (j + 1) as nat,
                                )
                            } else {
                                (Ok((mn, mx)), (j + 1) as nat)
                            }
                        },
                        None => (Ok((mn, mx)), (j + 1) as nat),
                    }
                } else {
                    (
                        Err(
                            ParseError::Unexpected {
                                expected: Token::Char('}'),
                                found: spec_cur(toks, j),
                            },
                        ),
                        j,
                    )
                }
            } else {
                (Err(ParseError::UnexpectedToken { found: Token::Char(c) }), i)
            }
        },
        t => (Err(ParseError::UnexpectedToken { found: t }), i),
    }
}

/// Mirror of the `atom` production: a primary followed by an optional
/// quantifier, which binds to that primary alone.
pub open spec fn spec_parse_atom(toks: Seq<Token>, i: nat) -> (Result<RegexExp, ParseError>, nat)
    decreases toks.len() - i, 1nat,
{
    let (r, j0) = spec_parse_primary(toks, i);
    match r {
        Err(e) => (Err(e), j0),
        Ok(node) => {
            // a successful primary always advances; the bound keeps the
            // recursion well-founded
            let j = if j0 <= i {
                (i + 1) as nat
            } else {
                j0
            };
            match spec_cur(toks, j) {
                Token::Star => (Ok(RegexExp::Star(Box::new(node))), (j + 1) as nat),
                Token::Plus => (Ok(RegexExp::Plus(Box::new(node))), (j + 1) as nat),
                Token::Question => (Ok(RegexExp::Question(Box::new(node))), (j + 1) as nat),
                Token::Range => {
                    let (rr, k) = spec_parse_range(toks, (j + 1) as nat);
                    match rr {
                        Err(e) => (Err(e), k),
                        Ok((mn, mx)) => (Ok(RegexExp::Repeat(Box::new(node), mn, mx)), k),
                    }
                },
                _ => (Ok(node), j),
            }
        },
    }
}

/// Mirror of the tail of the `concat` production: parses further atoms into
/// `acc` until an alternation bar, a closing parenthesis or the end.
pub open spec fn spec_parse_concat_rest(toks: Seq<Token>, i: nat, acc: Seq<RegexExp>) -> (Result<
    Seq<RegexExp>,
    ParseError,
>, nat)
    decreases toks.len() - i, 2nat,
{
    if spec_is_concat_end(spec_cur(toks, i)) {
        (Ok(acc), i)
    } else {
        let (r, j0) = spec_parse_atom(toks, i);
        match r {
            Err(e) => (Err(e), j0),
            Ok(node) => {
                // a successful atom always lands strictly further on, inside
                // the token sequence; the bounds keep the recursion
                // well-founded
                let j = if i < j0 <= toks.len() {
                    j0
                } else {
                    (i + 1) as nat
                };
                if j <= toks.len() {
                    spec_parse_concat_rest(toks, j, acc.push(node))
                } else {
                    (Ok(acc.push(node)), j)
                }
            },
        }
    }
}

/// Mirror of the `concat` production: one or more atoms; a single atom stays
/// bare, several are wrapped in a concatenation node.
pub open spec fn spec_parse_concat(toks: Seq<Token>, i: nat) -> (Result<RegexExp, ParseError>, nat)
    decreases toks.len() - i, 3nat,
{
    let (r, j0) = spec_parse_atom(toks, i);
    match r {
        Err(e) => (Err(e), j0),
        Ok(node) => {
            let j = if i < j0 <= toks.len() {
                j0
            } else {
                (i + 1) as nat
            };
            let (r2, p) = if j <= toks.len() {
                spec_parse_concat_rest(toks, j, seq![node])
            } else {
                (Ok(seq![node]), j)
            };
            match r2 {
                Err(e) => (Err(e), p),
                Ok(ns) => (
                    Ok(
                        if ns.len() == 1 {
                            ns[0]
                        } else {
                            RegexExp::Concat(ns)
                        },
                    ),
                    p,
                ),
            }
        },
    }
}

/// Mirror of the tail of the `alternation` production: parses further
/// branches into `acc` while an alternation bar follows.
pub open spec fn spec_parse_alternation_rest(
    toks: Seq<Token>,
    i: nat,
    acc: Seq<RegexExp>,
) -> (Result<Seq<RegexExp>, ParseError>, nat)
    decreases toks.len() - i, 4nat,
{
    if spec_cur(toks, i) == Token::Alternation {
        let (r, j0) = spec_parse_concat(toks, (i + 1) as nat);
        match r {
            Err(e) => (Err(e), j0),
            Ok(node) => {
                let j = if i < j0 <= toks.len() {
                    j0
                } else {
                    (i + 1) as nat
                };
                if j <= toks.len() {
                    spec_parse_alternation_rest(toks, j, acc.push(node))
                } else {
                    (Ok(acc.push(node)), j)
                }
            },
        }
    } else {
        (Ok(acc), i)
    }
}

/// Mirror of the `alternation` production, the grammar's top level: one or
/// more branches; a single branch stays bare, several are wrapped in an
/// alternation node.
pub open spec fn spec_parse_alternation(toks: Seq<Token>, i: nat) -> (Result<
    RegexExp,
    ParseError,
>, nat)
    decreases toks.len() - i, 5nat,
{
    let (r, j0) = spec_parse_concat(toks, i);
    match r {
        Err(e) => (Err(e), j0),
        Ok(node) => {
            let j = if i < j0 <= toks.len() {
                j0
            } else {
                (i + 1) as nat
            };
            let (r2, p) = if j <= toks.len() {
                spec_parse_alternation_rest(toks, j, seq![node])
            } else {
                (Ok(seq![node]), j)
            };
            match r2 {
                Err(e) => (Err(e), p),
                Ok(ns) => (
                    Ok(
                        if ns.len() == 1 {
                            ns[0]
                        } else {
                            RegexExp::Alternation(ns)
                        },
                    ),
                    p,
                ),
            }
        },
    }
}

/// What parsing a whole pattern string yields: the model of
/// [`Parser::parse`] right after [`Parser::new`].
pub open spec fn spec_parse(pattern: Seq<char>) -> Result<RegexExp, ParseError> {
    spec_parse_alternation(spec_tokens(pattern), 0).0
}

/// Relates an executable parsing result to its mirror: same error, or a tree
/// whose model is the mirrored tree.
pub open spec fn parse_result_matches(
    r: Result<RegexNode, ParseError>,
    s: Result<RegexExp, ParseError>,
) -> bool {
    match (r, s) {
        (Ok(n), Ok(m)) => n@ == m,
        (Err(e), Err(f)) => e == f,
        _ => false,
    }
}

/// A recursive-descent parser over the token sequence of a pattern.
pub struct Parser {
    tokens: Vec<Token>,
    idx: usize,
}

impl Parser {
    /// The tokens being parsed.
    pub closed spec fn toks(&self) -> Seq<Token> {
        self.tokens@
    }

    /// The current position in the token sequence.
    pub closed spec fn at(&self) -> nat {
        self.idx as nat
    }

    /// The position never leaves the token sequence.
    pub open spec fn wf(&self) -> bool {
        self.at() <= self.toks().len()
    }

    /// Tokenizes the whole pattern up front and stands at its first token.
    pub fn new(input: &str) -> (p: Self)
        ensures
            p.wf(),
            p.toks() == spec_tokens(input@),
            p.at() == 0,
    {
        let mut lexer = Lexer::new(input);
        let mut tokens: Vec<Token> = Vec::new();
        loop
            invariant
                lexer.wf(),
                lexer.text() == input@,
                spec_tokens(input@) == tokens@ + spec_tokens_from(lexer.text(), lexer.pos()),
            ensures
                spec_tokens(input@) == tokens@,
            decreases lexer.text().len() - lexer.pos(),
        {
            let ghost pos0 = lexer.pos();
            proof {
                lemma_next_token_advances(lexer.text(), lexer.pos());
            }
            let t = lexer.next_token();
            if t == Token::EOF {
                proof {
                    assert(tokens@ + spec_tokens_from(lexer.text(), lexer.pos()) =~= tokens@);
                }
                break ;
            }
            proof {
                assert(tokens@ + spec_tokens_from(lexer.text(), pos0) == (tokens@.push(t))
                    + spec_tokens_from(lexer.text(), lexer.pos())) by {
                    assert(tokens@ + (seq![t] + spec_tokens_from(lexer.text(), lexer.pos()))
                        =~= (tokens@.push(t)) + spec_tokens_from(lexer.text(), lexer.pos()));
                }
            }
            tokens.push(t);
        }
        Self { tokens, idx: 0 }
    }

    /// The token under the cursor, EOF past the end.
    fn current(&self) -> (t: Token)
        requires
            self.wf(),
        ensures
            t == spec_cur(self.toks(), self.at()),
    {
        if self.idx < self.tokens.len() {
            self.tokens[self.idx]
        } else {
            Token::EOF
        }
    }

    /// Advances over `expected` exactly; on any other token it fails naming
    /// the expected and the found token, without moving.
    fn consume_token(&mut self, expected: Token) -> (r: Result<(), ParseError>)
        requires
            old(self).wf(),
        ensures
            final(self).wf(),
            final(self).toks() == old(self).toks(),
            (r, final(self).at()) == spec_consume(old(self).toks(), old(self).at(), expected),
    {
        let c = self.current();
        if c == expected {
            if self.idx < self.tokens.len() {
                self.idx = self.idx + 1;
            }
            Ok(())
        } else {
            Err(ParseError::Unexpected { expected, found: c })
        }
    }

    /// Parses the whole pattern: the top-level alternation.  Tokens after the
    /// alternation ends (for instance an unmatched closing parenthesis) are
    /// left unread.
    pub fn parse(&mut self) -> (r: Result<RegexNode, ParseError>)
        requires
            old(self).wf(),
        ensures
            final(self).wf(),
            final(self).toks() == old(self).toks(),
            old(self).at() <= final(self).at() <= old(self).toks().len(),
            r is Ok ==> old(self).at() < final(self).at(),
            ({
                let (sr, sp) = spec_parse_alternation(old(self).toks(), old(self).at());
                &&& final(self).at() == sp
                &&& parse_result_matches(r, sr)
            }),
        decreases old(self).toks().len() - old(self).at(), 6nat,
    {
        self.parse_alternation()
    }

    #[verifier::loop_isolation(false)]
    fn parse_alternation(&mut self) -> (r: Result<RegexNode, ParseError>)
        requires
            old(self).wf(),
        ensures
            final(self).wf(),
            final(self).toks() == old(self).toks(),
            old(self).at() <= final(self).at() <= old(self).toks().len(),
            r is Ok ==> old(self).at() < final(self).at(),
            ({
                let (sr, sp) = spec_parse_alternation(old(self).toks(), old(self).at());
                &&& final(self).at() == sp
                &&& parse_result_matches(r, sr)
            }),
        decreases old(self).toks().len() - old(self).at(), 5nat,
    {
        let ghost i0 = self.at();
        let mut nodes: Vec<RegexNode> = Vec::new();
        let first = match self.parse_concat() {
            Ok(n) => n,
            Err(e) => {
                return Err(e);
            },
        };
        let ghost j1 = self.at();
        nodes.push(first);
        proof {
            lemma_nodes_view_index(nodes@);
            assert(nodes_view(nodes@) =~= seq![first@]);
        }
        loop
            invariant
                self.wf(),
                self.toks() == old(self).toks(),
                i0 < j1 <= self.at() <= self.toks().len(),
                nodes@.len() >= 1,
                spec_parse_alternation_rest(self.toks(), self.at(), nodes_view(nodes@))
                    == spec_parse_alternation_rest(self.toks(), j1, seq![first@]),
            decreases self.toks().len() - self.at(),
        {
            if !(self.current() == Token::Alternation) {
                break ;
            }
            match self.consume_token(Token::Alternation) {
                Ok(_) => (),
                Err(_) => {
                    proof {
                        assert(false);
                    }
                },
            };
            let node = match self.parse_concat() {
                Ok(n) => n,
                Err(e) => {
                    return Err(e);
                },
            };
            proof {
                lemma_nodes_view_push(nodes@, node);
            }
            nodes.push(node);
        }
        proof {
            lemma_nodes_view_index(nodes@);
        }
        if nodes.len() == 1 {
            match nodes.pop() {
                Some(n) => Ok(n),
                None => {
                    proof {
                        assert(false);
                    }
                    Err(ParseError::UnexpectedToken { found: Token::EOF })
                },
            }
        } else {
            Ok(RegexNode::Alternation(nodes))
        }
    }

    #[verifier::loop_isolation(false)]
    fn parse_concat(&mut self) -> (r: Result<RegexNode, ParseError>)
        requires
            old(self).wf(),
        ensures
            final(self).wf(),
            final(self).toks() == old(self).toks(),
            old(self).at() <= final(self).at() <= old(self).toks().len(),
            r is Ok ==> old(self).at() < final(self).at(),
            ({
                let (sr, sp) = spec_parse_concat(old(self).toks(), old(self).at());
                &&& final(self).at() == sp
                &&& parse_result_matches(r, sr)
            }),
        decreases old(self).toks().len() - old(self).at(), 3nat,
    {
        let ghost i0 = self.at();
        let mut nodes: Vec<RegexNode> = Vec::new();
        let first = match self.parse_atom() {
            Ok(n) => n,
            Err(e) => {
                return Err(e);
            },
        };
        let ghost j1 = self.at();
        nodes.push(first);
        proof {
            lemma_nodes_view_index(nodes@);
            assert(nodes_view(nodes@) =~= seq![first@]);
        }
        loop
            invariant
                self.wf(),
                self.toks() == old(self).toks(),
                i0 < j1 <= self.at() <= self.toks().len(),
                nodes@.len() >= 1,
                spec_parse_concat_rest(self.toks(), self.at(), nodes_view(nodes@))
                    == spec_parse_concat_rest(self.toks(), j1, seq![first@]),
            decreases self.toks().len() - self.at(),
        {
            let c = self.current();
            if c == Token::Alternation || c == Token::CloseParen || c == Token::EOF {
                break ;
            }
            let node = match self.parse_atom() {
                Ok(n) => n,
                Err(e) => {
                    return Err(e);
                },
            };
            proof {
                lemma_nodes_view_push(nodes@, node);
            }
            nodes.push(node);
        }
        proof {
            lemma_nodes_view_index(nodes@);
        }
        if nodes.len() == 1 {
            match nodes.pop() {
                Some(n) => Ok(n),
                None => {
                    proof {
                        assert(false);
                    }
                    Err(ParseError::UnexpectedToken { found: Token::EOF })
                },
            }
        } else {
            Ok(RegexNode::Concat(nodes))
        }
    }

    fn parse_atom(&mut self) -> (r: Result<RegexNode, ParseError>)
        requires
            old(self).wf(),
        ensures
            final(self).wf(),
            final(self).toks() == old(self).toks(),
            old(self).at() <= final(self).at() <= old(self).toks().len(),
            r is Ok ==> old(self).at() < final(self).at(),
            ({
                let (sr, sp) = spec_parse_atom(old(self).toks(), old(self).at());
                &&& final(self).at() == sp
                &&& parse_result_matches(r, sr)
            }),
        decreases old(self).toks().len() - old(self).at(), 1nat,
    {
        let node = match self.parse_primary() {
            Ok(n) => n,
            Err(e) => {
                return Err(e);
            },
        };
        match self.current() {
            Token::Star => {
                match self.consume_token(Token::Star) {
                    Ok(_) => (),
                    Err(_) => {
                        proof {
                            assert(false);
                        }
                    },
                };
                Ok(RegexNode::Star(Box::new(node)))
            },
            Token::Plus => {
                match self.consume_token(Token::Plus) {
                    Ok(_) => (),
                    Err(_) => {
                        proof {
                            assert(false);
                        }
                    },
                };
                Ok(RegexNode::Plus(Box::new(node)))
            },
            Token::Question => {
                match self.consume_token(Token::Question) {
                    Ok(_) => (),
                    Err(_) => {
                        proof {
                            assert(false);
                        }
                    },
                };
                Ok(RegexNode::Question(Box::new(node)))
            },
            Token::Range => {
                match self.consume_token(Token::Range) {
                    Ok(_) => (),
                    Err(_) => {
                        proof {
                            assert(false);
                        }
                    },
                };
                let range = match self.parse_range() {
                    Ok(rr) => rr,
                    Err(e) => {
                        return Err(e);
                    },
                };
                Ok(RegexNode::Repeat(Box::new(node), range))
            },
            _ => Ok(node),
        }
    }

    fn parse_primary(&mut self) -> (r: Result<RegexNode, ParseError>)
        requires
            old(self).wf(),
        ensures
            final(self).wf(),
            final(self).toks() == old(self).toks(),
            old(self).at() <= final(self).at() <= old(self).toks().len(),
            r is Ok ==> old(self).at() < final(self).at(),
            ({
                let (sr, sp) = spec_parse_primary(old(self).toks(), old(self).at());
                &&& final(self).at() == sp
                &&& parse_result_matches(r, sr)
            }),
        decreases old(self).toks().len() - old(self).at(), 0nat,
    {
        match self.current() {
            Token::Char(ch) => {
                match self.consume_token(Token::Char(ch)) {
                    Ok(_) => (),
                    Err(_) => {
                        proof {
                            assert(false);
                        }
                    },
                };
                Ok(RegexNode::Char(ch))
            },
            Token::Escape(ch) => {
                match self.consume_token(Token::Escape(ch)) {
                    Ok(_) => (),
                    Err(_) => {
                        proof {
                            assert(false);
                        }
                    },
                };
                Ok(self.escape_to_node(ch))
            },
            Token::AnyChar => {
                match self.consume_token(Token::AnyChar) {
                    Ok(_) => (),
                    Err(_) => {
                        proof {
                            assert(false);
                        }
                    },
                };
                Ok(RegexNode::AnyChar)
            },
            Token::Digit => {
                match self.consume_token(Token::Digit) {
                    Ok(_) => (),
                    Err(_) => {
                        proof {
                            assert(false);
                        }
                    },
                };
                Ok(RegexNode::Digit)
            },
            Token::WordChar => {
                match self.consume_token(Token::WordChar) {
                    Ok(_) => (),
                    Err(_) => {
                        proof {
                            assert(false);
                        }
                    },
                };
                Ok(RegexNode::WordChar)
            },
            Token::Whitespace => {
                match self.consume_token(Token::Whitespace) {
                    Ok(_) => (),
                    Err(_) => {
                        proof {
                            assert(false);
                        }
                    },
                };
                Ok(RegexNode::Whitespace)
            },
            Token::OpenParen => {
                match self.consume_token(Token::OpenParen) {
                    Ok(_) => (),
                    Err(_) => {
                        proof {
                            assert(false);
                        }
                    },
                };
                let node = match self.parse() {
                    Ok(n) => n,
                    Err(e) => {
                        return Err(e);
                    },
                };
                match self.consume_token(Token::CloseParen) {
                    Ok(_) => (),
                    Err(e) => {
                        return Err(e);
                    },
                };
                Ok(RegexNode::Group(Box::new(node)))
            },
            Token::StartLine => {
                match self.consume_token(Token::StartLine) {
                    Ok(_) => (),
                    Err(_) => {
                        proof {
                            assert(false);
                        }
                    },
                };
                Ok(RegexNode::StartLine)
            },
            Token::EndLine => {
                match self.consume_token(Token::EndLine) {
                    Ok(_) => (),
                    Err(_) => {
                        proof {
                            assert(false);
                        }
                    },
                };
                Ok(RegexNode::EndLine)
            },
            Token::StartInput => {
                match self.consume_token(Token::StartInput) {
                    Ok(_) => (),
                    Err(_) => {
                        proof {
                            assert(false);
                        }
                    },
                };
                Ok(RegexNode::StartInput)
            },
            Token::EndInput => {
                match self.consume_token(Token::EndInput) {
                    Ok(_) => (),
                    Err(_) => {
                        proof {
                            assert(false);
                        }
                    },
                };
                Ok(RegexNode::EndInput)
            },
            Token::WordBoundary => {
                match self.consume_token(Token::WordBoundary) {
                    Ok(_) => (),
                    Err(_) => {
                        proof {
                            assert(false);
                        }
                    },
                };
                Ok(RegexNode::WordBoundary)
            },
            t => Err(ParseError::UnexpectedToken { found: t }),
        }
    }

    /// Parses the inside of `{...}`: a digit lower bound, an optional comma,
    /// an optional digit upper bound, and the closing brace.  Bounds are
    /// single digits; without an upper bound the repetition is unbounded.
    fn parse_range(&mut self) -> (r: Result<RepeatRange, ParseError>)
        requires
            old(self).wf(),
        ensures
            final(self).wf(),
            final(self).toks() == old(self).toks(),
            old(self).at() <= final(self).at() <= old(self).toks().len(),
            ({
                let (sr, sp) = spec_parse_range(old(self).toks(), old(self).at());
                &&& final(self).at() == sp
                &&& match (r, sr) {
                    (Ok(rr), Ok((mn, mx))) => rr.min == mn && rr.max_model() == mx && rr.wf(),
                    (Err(e), Err(f)) => e == f,
                    _ => false,
                }
            }),
    {
        let c = self.current();
        let ch = match c {
            Token::Char(ch) => ch,
            other => {
                return Err(ParseError::UnexpectedToken { found: other });
            },
        };
        let d = ch as u32;
        if !(48 <= d && d <= 57) {
            return Err(ParseError::UnexpectedToken { found: Token::Char(ch) });
        }
        let min_v: usize = (d - 48) as usize;
        match self.consume_token(Token::Char(ch)) {
            Ok(_) => (),
            Err(_) => {
                proof {
                    assert(false);
                }
            },
        };
        let mut max_v: Option<usize> = None;
        if self.current() == Token::Char(',') {
            match self.consume_token(Token::Char(',')) {
                Ok(_) => (),
                Err(_) => {
                    proof {
                        assert(false);
                    }
                },
            };
            match self.current() {
                Token::Char(c2) => {
                    let d2 = c2 as u32;
                    if 48 <= d2 && d2 <= 57 {
                        max_v = Some((d2 - 48) as usize);
                        match self.consume_token(Token::Char(c2)) {
                            Ok(_) => (),
                            Err(_) => {
                                proof {
                                    assert(false);
                                }
                            },
                        };
                    }
                },
                _ => (),
            }
        }
        match self.consume_token(Token::Char('}')) {
            Ok(_) => (),
            Err(e) => {
                return Err(e);
            },
        };
        match max_v {
            Some(m) => {
                if m < min_v {
                    return Err(ParseError::InvalidRange { min: min_v, max: m });
                }
            },
            None => (),
        }
        Ok(RepeatRange::new(min_v, max_v))
    }

    /// The tree an escaped character stands for.
    fn escape_to_node(&self, ch: char) -> (n: RegexNode)
        ensures
            n@ == spec_escape_node(ch),
    {
        if ch == 'd' {
            RegexNode::Digit
        } else if ch == 'w' {
            RegexNode::WordChar
        } else if ch == 's' {
            RegexNode::Whitespace
        } else if ch == 'A' {
            RegexNode::StartInput
        } else if ch == 'z' {
            RegexNode::EndInput
        } else if ch == 'b' {
            RegexNode::WordBoundary
        } else {
            RegexNode::Char(ch)
        }
    }
}

} // verus!
