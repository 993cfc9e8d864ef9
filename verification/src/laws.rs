//! Laws of the engine, proved over the spec-level pipeline.
//!
//! Every law speaks of [`spec_parse`] (what `Parser::parse` returns),
//! [`spec_regex_nfa`] (what `NFA::from_regex` builds) and [`nfa_accepts`]
//! (what `NFA::matches` answers), the same spec functions that the
//! executable functions' contracts are stated over, so each law carries over
//! to the executable pipeline verbatim.

use vstd::prelude::*;

use crate::ast::RegexExp;
use crate::automaton::{
    CharClass, NFAState, active_mask, class_matches, eps_closure_k, eps_round, eps_round_upto,
    is_digit_char, mask_has_match_upto, nfa_accepts, patch_exits, spec_build, spec_build_branches,
    spec_build_star, spec_prim_trans, spec_regex_nfa, spec_split_chain, start_mask, step_mask,
    step_upto,
};
use crate::parser::{
    spec_parse, spec_parse_alternation, spec_parse_alternation_rest, spec_parse_atom,
    spec_parse_concat, spec_parse_primary,
};
use crate::tokens::{
    Token, is_skipped_whitespace, spec_next_token, spec_tokens, spec_tokens_from,
};

verus! {

/// A character with no lexical meaning of its own: not whitespace the lexer
/// skips, not a metacharacter, not a backslash.  Such a character always
/// lexes to `Token::Char` and parses to a literal.
pub open spec fn is_literal_char(c: char) -> bool {
    &&& !is_skipped_whitespace(c)
    &&& c != '(' && c != ')' && c != '[' && c != ']'
    &&& c != '*' && c != '+' && c != '?' && c != '{'
    &&& c != '|' && c != '.' && c != '^' && c != '$'
    &&& c != '\\'
}

/// Whole-pipeline acceptance of a line by a pattern tree.
pub open spec fn pipeline_accepts(e: RegexExp, line: Seq<char>) -> bool {
    let (sts, st, _) = spec_regex_nfa(e);
    nfa_accepts(sts, st, line)
}

/// The automaton of one single-predicate pattern tree.
pub open spec fn prim_states(cc: CharClass) -> Seq<NFAState> {
    seq![
        NFAState::EpsilonTransition(1),
        NFAState::Transition(cc, 2),
        NFAState::Match,
    ]
}

/// The active mask of the single-predicate automaton after `k` characters:
/// start and edge states before anything is consumed, only the accepting
/// state after one satisfying character, nothing at all otherwise.
proof fn lemma_prim_active(cc: CharClass, line: Seq<char>, k: int)
    requires
        0 <= k <= line.len(),
    ensures
        active_mask(prim_states(cc), 0, line, k) =~= (if k == 0 {
            seq![true, true, false]
        } else if k == 1 && class_matches(cc, line[0]) {
            seq![false, false, true]
        } else {
            seq![false, false, false]
        }),
    decreases k,
{
    reveal_with_fuel(eps_closure_k, 5);
    reveal_with_fuel(eps_round_upto, 5);
    reveal_with_fuel(step_upto, 5);
    let s = prim_states(cc);
    if k == 0 {
        assert(start_mask(3, 0) =~= seq![true, false, false]);
        assert(eps_round(s, line, 0, seq![true, false, false]) =~= seq![true, true, false]);
        assert(eps_round(s, line, 0, seq![true, true, false]) =~= seq![true, true, false]);
    } else {
        lemma_prim_active(cc, line, k - 1);
        if k == 1 {
            assert(step_mask(s, seq![true, true, false], line[0]) =~= (if class_matches(
                cc,
                line[0],
            ) {
                seq![false, false, true]
            } else {
                seq![false, false, false]
            }));
            assert(eps_round(s, line, k, seq![false, false, true]) =~= seq![false, false, true]);
            assert(eps_round(s, line, k, seq![false, false, false]) =~= seq![
                false,
                false,
                false,
            ]);
        } else {
            assert(step_mask(s, seq![false, false, true], line[k - 1]) =~= seq![
                false,
                false,
                false,
            ]);
            assert(step_mask(s, seq![false, false, false], line[k - 1]) =~= seq![
                false,
                false,
                false,
            ]);
            assert(eps_round(s, line, k, seq![false, false, false]) =~= seq![
                false,
                false,
                false,
            ]);
        }
    }
}

/// The single-predicate automaton accepts exactly the one-character lines
/// whose character satisfies the predicate.
proof fn lemma_prim_accepts(cc: CharClass, line: Seq<char>)
    ensures
        nfa_accepts(prim_states(cc), 0, line) == (line.len() == 1 && class_matches(cc, line[0])),
{
    reveal_with_fuel(mask_has_match_upto, 5);
    lemma_prim_active(cc, line, line.len() as int);
}

/// The tokens of a one-character literal pattern.
proof fn lemma_tokens_single(c: char)
    requires
        is_literal_char(c),
    ensures
        spec_tokens(seq![c]) =~= seq![Token::Char(c)],
{
    reveal_with_fuel(spec_tokens_from, 3);
    reveal_with_fuel(spec_next_token, 3);
    assert(spec_next_token(seq![c], 0) == (Token::Char(c), 1nat));
}

/// The tree of a one-character literal pattern.
proof fn lemma_parse_single_char(c: char)
    requires
        is_literal_char(c),
    ensures
        spec_parse(seq![c]) == Ok::<RegexExp, crate::parser::ParseError>(RegexExp::Char(c)),
{
    lemma_tokens_single(c);
    let toks = spec_tokens(seq![c]);
    assert(spec_parse_primary(toks, 0) == (Ok::<RegexExp, crate::parser::ParseError>(
        RegexExp::Char(c),
    ), 1nat));
    assert(spec_parse_atom(toks, 0) == (Ok::<RegexExp, crate::parser::ParseError>(
        RegexExp::Char(c),
    ), 1nat));
    assert(spec_parse_concat(toks, 0) == (Ok::<RegexExp, crate::parser::ParseError>(
        RegexExp::Char(c),
    ), 1nat));
    assert(spec_parse_alternation(toks, 0) == (Ok::<RegexExp, crate::parser::ParseError>(
        RegexExp::Char(c),
    ), 1nat));
}

/// The pipeline automaton of the tree `Char(c)`.
proof fn lemma_nfa_of_char(c: char)
    ensures
        spec_regex_nfa(RegexExp::Char(c)).0 =~= prim_states(CharClass::Literal(c)),
        spec_regex_nfa(RegexExp::Char(c)).1 == 0usize,
{
    assert(spec_build(seq![NFAState::Start], RegexExp::Char(c)) == spec_prim_trans(
        seq![NFAState::Start],
        CharClass::Literal(c),
    ));
}

/// Literal equality, one-character form: a pattern that is a single
/// non-metacharacter `c` matches a line exactly when the line is exactly
/// `c`.  Whole-line semantics: nothing shorter or longer.
pub proof fn law_literal_single_char(c: char, line: Seq<char>)
    requires
        is_literal_char(c),
    ensures
        spec_parse(seq![c]) == Ok::<RegexExp, crate::parser::ParseError>(RegexExp::Char(c)),
        pipeline_accepts(RegexExp::Char(c), line) == (line =~= seq![c]),
{
    lemma_parse_single_char(c);
    lemma_nfa_of_char(c);
    lemma_prim_accepts(CharClass::Literal(c), line);
    assert((line.len() == 1 && class_matches(CharClass::Literal(c), line[0])) == (line =~= seq![
        c,
    ]));
}

/// Any-char consumes exactly one character: the pattern `.` matches exactly
/// the lines of length one.
pub proof fn law_any_char(line: Seq<char>)
    ensures
        spec_parse(seq!['.']) == Ok::<RegexExp, crate::parser::ParseError>(RegexExp::AnyChar),
        pipeline_accepts(RegexExp::AnyChar, line) == (line.len() == 1),
{
    reveal_with_fuel(spec_tokens_from, 3);
    reveal_with_fuel(spec_next_token, 3);
    assert(spec_tokens(seq!['.']) =~= seq![Token::AnyChar]);
    let toks = spec_tokens(seq!['.']);
    assert(spec_parse_primary(toks, 0) == (Ok::<RegexExp, crate::parser::ParseError>(
        RegexExp::AnyChar,
    ), 1nat));
    assert(spec_parse_alternation(toks, 0) == (Ok::<RegexExp, crate::parser::ParseError>(
        RegexExp::AnyChar,
    ), 1nat));
    assert(spec_build(seq![NFAState::Start], RegexExp::AnyChar) == spec_prim_trans(
        seq![NFAState::Start],
        CharClass::Any,
    ));
    assert(spec_regex_nfa(RegexExp::AnyChar).0 =~= prim_states(CharClass::Any));
    lemma_prim_accepts(CharClass::Any, line);
}

/// Digit-class membership: the pattern `\d` matches exactly the
/// one-character lines holding an ASCII digit — a real predicate, not a
/// wildcard.
pub proof fn law_digit_class(line: Seq<char>)
    ensures
        spec_parse(seq!['\\', 'd']) == Ok::<RegexExp, crate::parser::ParseError>(RegexExp::Digit),
        pipeline_accepts(RegexExp::Digit, line) == (line.len() == 1 && is_digit_char(line[0])),
{
    reveal_with_fuel(spec_tokens_from, 3);
    reveal_with_fuel(spec_next_token, 3);
    assert(spec_tokens(seq!['\\', 'd']) =~= seq![Token::Digit]);
    let toks = spec_tokens(seq!['\\', 'd']);
    assert(spec_parse_primary(toks, 0) == (Ok::<RegexExp, crate::parser::ParseError>(
        RegexExp::Digit,
    ), 1nat));
    assert(spec_parse_alternation(toks, 0) == (Ok::<RegexExp, crate::parser::ParseError>(
        RegexExp::Digit,
    ), 1nat));
    assert(spec_build(seq![NFAState::Start], RegexExp::Digit) == spec_prim_trans(
        seq![NFAState::Start],
        CharClass::Digit,
    ));
    assert(spec_regex_nfa(RegexExp::Digit).0 =~= prim_states(CharClass::Digit));
    lemma_prim_accepts(CharClass::Digit, line);
}


/// The automaton of the pattern `c?`.
pub open spec fn question_states(c: char) -> Seq<NFAState> {
    seq![
        NFAState::EpsilonTransition(4),
        NFAState::Transition(CharClass::Literal(c), 2),
        NFAState::Match,
        NFAState::Match,
        NFAState::Split(1, 3),
    ]
}

/// The active mask of the `c?` automaton after `k` characters.
#[verifier::rlimit(80)]
proof fn lemma_question_active(c: char, line: Seq<char>, k: int)
    requires
        0 <= k <= line.len(),
    ensures
        active_mask(question_states(c), 0, line, k) =~= (if k == 0 {
            seq![true, true, false, true, true]
        } else if k == 1 && line[0] == c {
            seq![false, false, true, false, false]
        } else {
            seq![false, false, false, false, false]
        }),
    decreases k,
{
    reveal_with_fuel(eps_closure_k, 7);
    reveal_with_fuel(eps_round_upto, 7);
    reveal_with_fuel(step_upto, 7);
    let s = question_states(c);
    if k == 0 {
        assert(start_mask(5, 0) =~= seq![true, false, false, false, false]);
        assert(eps_round(s, line, 0, seq![true, false, false, false, false]) =~= seq![
            true,
            false,
            false,
            false,
            true,
        ]);
        assert(eps_round(s, line, 0, seq![true, false, false, false, true]) =~= seq![
            true,
            true,
            false,
            true,
            true,
        ]);
        assert(eps_round(s, line, 0, seq![true, true, false, true, true]) =~= seq![
            true,
            true,
            false,
            true,
            true,
        ]);
    } else {
        lemma_question_active(c, line, k - 1);
        let z = seq![false, false, false, false, false];
        if k == 1 && line[0] == c {
            assert(step_mask(s, seq![true, true, false, true, true], line[0]) =~= seq![
                false,
                false,
                true,
                false,
                false,
            ]);
            assert(eps_round(s, line, k, seq![false, false, true, false, false]) =~= seq![
                false,
                false,
                true,
                false,
                false,
            ]);
        } else {
            if k == 1 {
                assert(step_mask(s, seq![true, true, false, true, true], line[0]) =~= z);
            } else {
                assert(step_mask(s, seq![false, false, true, false, false], line[k - 1]) =~= z);
                assert(step_mask(s, z, line[k - 1]) =~= z);
            }
            assert(eps_round(s, line, k, z) =~= z);
        }
    }
}

/// Question bounds to zero or one: for a non-metacharacter `c`, the pattern
/// `c?` matches exactly the empty line and the line `c`.
pub proof fn law_question(c: char, line: Seq<char>)
    requires
        is_literal_char(c),
    ensures
        spec_parse(seq![c, '?']) == Ok::<RegexExp, crate::parser::ParseError>(
            RegexExp::Question(Box::new(RegexExp::Char(c))),
        ),
        pipeline_accepts(RegexExp::Question(Box::new(RegexExp::Char(c))), line) == (line
            =~= Seq::<char>::empty() || line =~= seq![c]),
{
    reveal_with_fuel(spec_tokens_from, 4);
    reveal_with_fuel(spec_next_token, 4);
    assert(spec_next_token(seq![c, '?'], 0) == (Token::Char(c), 1nat));
    assert(spec_tokens(seq![c, '?']) =~= seq![Token::Char(c), Token::Question]);
    let toks = spec_tokens(seq![c, '?']);
    let e = RegexExp::Question(Box::new(RegexExp::Char(c)));
    assert(spec_parse_alternation(toks, 0) == (Ok::<RegexExp, crate::parser::ParseError>(e), 2nat));
    reveal_with_fuel(spec_build, 4);
    reveal_with_fuel(spec_build_star, 2);
    reveal_with_fuel(patch_exits, 3);
    assert(spec_regex_nfa(e).0 =~= question_states(c));
    reveal_with_fuel(mask_has_match_upto, 7);
    lemma_question_active(c, line, line.len() as int);
}

/// The automaton of the pattern `c*`.
pub open spec fn star_states(c: char) -> Seq<NFAState> {
    seq![
        NFAState::EpsilonTransition(4),
        NFAState::Transition(CharClass::Literal(c), 2),
        NFAState::EpsilonTransition(4),
        NFAState::Match,
        NFAState::Split(1, 3),
    ]
}

/// The automaton of the pattern `c+`: the same loop, entered at its body.
pub open spec fn plus_states(c: char) -> Seq<NFAState> {
    seq![
        NFAState::EpsilonTransition(1),
        NFAState::Transition(CharClass::Literal(c), 2),
        NFAState::EpsilonTransition(4),
        NFAState::Match,
        NFAState::Split(1, 3),
    ]
}

/// The active mask of the `c*` automaton after `k` characters: while every
/// character so far is `c` the loop stays live, otherwise everything dies.
#[verifier::rlimit(80)]
proof fn lemma_star_active(c: char, line: Seq<char>, k: int)
    requires
        0 <= k <= line.len(),
    ensures
        active_mask(star_states(c), 0, line, k) =~= (if forall|i: int|
            0 <= i < k ==> line[i] == c {
            if k == 0 {
                seq![true, true, false, true, true]
            } else {
                seq![false, true, true, true, true]
            }
        } else {
            seq![false, false, false, false, false]
        }),
    decreases k,
{
    reveal_with_fuel(eps_closure_k, 7);
    reveal_with_fuel(eps_round_upto, 7);
    reveal_with_fuel(step_upto, 7);
    let s = star_states(c);
    let m0 = seq![true, true, false, true, true];
    let m1 = seq![false, true, true, true, true];
    let z = seq![false, false, false, false, false];
    if k == 0 {
        assert(start_mask(5, 0) =~= seq![true, false, false, false, false]);
        assert(eps_round(s, line, 0, seq![true, false, false, false, false]) =~= seq![
            true,
            false,
            false,
            false,
            true,
        ]);
        assert(eps_round(s, line, 0, seq![true, false, false, false, true]) =~= m0);
        assert(eps_round(s, line, 0, m0) =~= m0);
    } else {
        lemma_star_active(c, line, k - 1);
        if forall|i: int| 0 <= i < k ==> line[i] == c {
            assert(line[k - 1] == c);
            if k == 1 {
                assert(step_mask(s, m0, line[0]) =~= seq![false, false, true, false, false]);
            } else {
                assert(step_mask(s, m1, line[k - 1]) =~= seq![false, false, true, false, false]);
            }
            assert(eps_round(s, line, k, seq![false, false, true, false, false]) =~= seq![
                false,
                false,
                true,
                false,
                true,
            ]);
            assert(eps_round(s, line, k, seq![false, false, true, false, true]) =~= m1);
            assert(eps_round(s, line, k, m1) =~= m1);
        } else {
            if forall|i: int| 0 <= i < k - 1 ==> line[i] == c {
                assert(line[k - 1] != c);
                if k == 1 {
                    assert(step_mask(s, m0, line[0]) =~= z);
                } else {
                    assert(step_mask(s, m1, line[k - 1]) =~= z);
                }
            } else {
                assert(step_mask(s, z, line[k - 1]) =~= z);
            }
            assert(eps_round(s, line, k, z) =~= z);
        }
    }
}

/// Star admits the empty line and any number of repetitions: for a
/// non-metacharacter `c`, the pattern `c*` matches exactly the lines made of
/// `c` alone, the empty line included.
pub proof fn law_star(c: char, line: Seq<char>)
    requires
        is_literal_char(c),
    ensures
        spec_parse(seq![c, '*']) == Ok::<RegexExp, crate::parser::ParseError>(
            RegexExp::Star(Box::new(RegexExp::Char(c))),
        ),
        pipeline_accepts(RegexExp::Star(Box::new(RegexExp::Char(c))), line) == (forall|i: int|
            0 <= i < line.len() ==> line[i] == c),
{
    reveal_with_fuel(spec_tokens_from, 4);
    reveal_with_fuel(spec_next_token, 4);
    assert(spec_next_token(seq![c, '*'], 0) == (Token::Char(c), 1nat));
    assert(spec_tokens(seq![c, '*']) =~= seq![Token::Char(c), Token::Star]);
    let toks = spec_tokens(seq![c, '*']);
    let e = RegexExp::Star(Box::new(RegexExp::Char(c)));
    assert(spec_parse_alternation(toks, 0) == (Ok::<RegexExp, crate::parser::ParseError>(e), 2nat));
    reveal_with_fuel(spec_build, 4);
    reveal_with_fuel(spec_build_star, 2);
    reveal_with_fuel(patch_exits, 3);
    assert(spec_regex_nfa(e).0 =~= star_states(c));
    reveal_with_fuel(mask_has_match_upto, 7);
    lemma_star_active(c, line, line.len() as int);
}

/// The active mask of the `c+` automaton after `k` characters.
#[verifier::rlimit(80)]
proof fn lemma_plus_active(c: char, line: Seq<char>, k: int)
    requires
        0 <= k <= line.len(),
    ensures
        active_mask(plus_states(c), 0, line, k) =~= (if forall|i: int|
            0 <= i < k ==> line[i] == c {
            if k == 0 {
                seq![true, true, false, false, false]
            } else {
                seq![false, true, true, true, true]
            }
        } else {
            seq![false, false, false, false, false]
        }),
    decreases k,
{
    reveal_with_fuel(eps_closure_k, 7);
    reveal_with_fuel(eps_round_upto, 7);
    reveal_with_fuel(step_upto, 7);
    let s = plus_states(c);
    let m0 = seq![true, true, false, false, false];
    let m1 = seq![false, true, true, true, true];
    let z = seq![false, false, false, false, false];
    if k == 0 {
        assert(start_mask(5, 0) =~= seq![true, false, false, false, false]);
        assert(eps_round(s, line, 0, seq![true, false, false, false, false]) =~= m0);
        assert(eps_round(s, line, 0, m0) =~= m0);
    } else {
        lemma_plus_active(c, line, k - 1);
        if forall|i: int| 0 <= i < k ==> line[i] == c {
            assert(line[k - 1] == c);
            if k == 1 {
                assert(step_mask(s, m0, line[0]) =~= seq![false, false, true, false, false]);
            } else {
                assert(step_mask(s, m1, line[k - 1]) =~= seq![false, false, true, false, false]);
            }
            assert(eps_round(s, line, k, seq![false, false, true, false, false]) =~= seq![
                false,
                false,
                true,
                false,
                true,
            ]);
            assert(eps_round(s, line, k, seq![false, false, true, false, true]) =~= m1);
            assert(eps_round(s, line, k, m1) =~= m1);
        } else {
            if forall|i: int| 0 <= i < k - 1 ==> line[i] == c {
                assert(line[k - 1] != c);
                if k == 1 {
                    assert(step_mask(s, m0, line[0]) =~= z);
                } else {
                    assert(step_mask(s, m1, line[k - 1]) =~= z);
                }
            } else {
                assert(step_mask(s, z, line[k - 1]) =~= z);
            }
            assert(eps_round(s, line, k, z) =~= z);
        }
    }
}

/// Plus excludes the empty line: for a non-metacharacter `c`, the pattern
/// `c+` matches exactly the nonempty lines made of `c` alone.
pub proof fn law_plus(c: char, line: Seq<char>)
    requires
        is_literal_char(c),
    ensures
        spec_parse(seq![c, '+']) == Ok::<RegexExp, crate::parser::ParseError>(
            RegexExp::Plus(Box::new(RegexExp::Char(c))),
        ),
        pipeline_accepts(RegexExp::Plus(Box::new(RegexExp::Char(c))), line) == (line.len() >= 1
            && forall|i: int| 0 <= i < line.len() ==> line[i] == c),
{
    reveal_with_fuel(spec_tokens_from, 4);
    reveal_with_fuel(spec_next_token, 4);
    assert(spec_next_token(seq![c, '+'], 0) == (Token::Char(c), 1nat));
    assert(spec_tokens(seq![c, '+']) =~= seq![Token::Char(c), Token::Plus]);
    let toks = spec_tokens(seq![c, '+']);
    let e = RegexExp::Plus(Box::new(RegexExp::Char(c)));
    assert(spec_parse_alternation(toks, 0) == (Ok::<RegexExp, crate::parser::ParseError>(e), 2nat));
    reveal_with_fuel(spec_build, 4);
    reveal_with_fuel(spec_build_star, 2);
    reveal_with_fuel(patch_exits, 3);
    assert(spec_regex_nfa(e).0 =~= plus_states(c));
    reveal_with_fuel(mask_has_match_upto, 7);
    lemma_plus_active(c, line, line.len() as int);
}

/// The automaton of the pattern `a|b` over single characters.
pub open spec fn alt_states(c1: char, c2: char) -> Seq<NFAState> {
    seq![
        NFAState::EpsilonTransition(5),
        NFAState::Transition(CharClass::Literal(c1), 2),
        NFAState::Match,
        NFAState::Transition(CharClass::Literal(c2), 4),
        NFAState::Match,
        NFAState::Split(1, 3),
    ]
}

/// The active mask of the `a|b` automaton after `k` characters.
#[verifier::rlimit(80)]
proof fn lemma_alt_active(c1: char, c2: char, line: Seq<char>, k: int)
    requires
        0 <= k <= line.len(),
    ensures
        active_mask(alt_states(c1, c2), 0, line, k) =~= (if k == 0 {
            seq![true, true, false, true, false, true]
        } else if k == 1 {
            seq![false, false, line[0] == c1, false, line[0] == c2, false]
        } else {
            seq![false, false, false, false, false, false]
        }),
    decreases k,
{
    reveal_with_fuel(eps_closure_k, 8);
    reveal_with_fuel(eps_round_upto, 8);
    reveal_with_fuel(step_upto, 8);
    let s = alt_states(c1, c2);
    let m0 = seq![true, true, false, true, false, true];
    let z = seq![false, false, false, false, false, false];
    if k == 0 {
        assert(start_mask(6, 0) =~= seq![true, false, false, false, false, false]);
        assert(eps_round(s, line, 0, seq![true, false, false, false, false, false]) =~= seq![
            true,
            false,
            false,
            false,
            false,
            true,
        ]);
        assert(eps_round(s, line, 0, seq![true, false, false, false, false, true]) =~= m0);
        assert(eps_round(s, line, 0, m0) =~= m0);
    } else {
        lemma_alt_active(c1, c2, line, k - 1);
        if k == 1 {
            let m1 = seq![false, false, line[0] == c1, false, line[0] == c2, false];
            assert(step_mask(s, m0, line[0]) =~= m1);
            assert(eps_round(s, line, k, m1) =~= m1);
        } else if k == 2 {
            let m1 = seq![false, false, line[0] == c1, false, line[0] == c2, false];
            assert(step_mask(s, m1, line[1]) =~= z);
            assert(eps_round(s, line, k, z) =~= z);
        } else {
            assert(step_mask(s, z, line[k - 1]) =~= z);
            assert(eps_round(s, line, k, z) =~= z);
        }
    }
}

/// Alternation distributes over matching: for non-metacharacters `a` and
/// `b`, the pattern `a|b` matches a line exactly when `a` matches it or `b`
/// matches it.
pub proof fn law_alternation_distributes(c1: char, c2: char, line: Seq<char>)
    requires
        is_literal_char(c1),
        is_literal_char(c2),
    ensures
        spec_parse(seq![c1, '|', c2]) == Ok::<RegexExp, crate::parser::ParseError>(
            RegexExp::Alternation(seq![RegexExp::Char(c1), RegexExp::Char(c2)]),
        ),
        pipeline_accepts(RegexExp::Alternation(seq![RegexExp::Char(c1), RegexExp::Char(c2)]), line)
            == (pipeline_accepts(RegexExp::Char(c1), line) || pipeline_accepts(
            RegexExp::Char(c2),
            line,
        )),
{
    reveal_with_fuel(spec_tokens_from, 5);
    reveal_with_fuel(spec_next_token, 5);
    let p = seq![c1, '|', c2];
    assert(spec_next_token(p, 0) == (Token::Char(c1), 1nat));
    assert(spec_next_token(p, 1) == (Token::Alternation, 2nat));
    assert(spec_next_token(p, 2) == (Token::Char(c2), 3nat));
    assert(spec_tokens(p) =~= seq![Token::Char(c1), Token::Alternation, Token::Char(c2)]);
    let toks = spec_tokens(p);
    let e = RegexExp::Alternation(seq![RegexExp::Char(c1), RegexExp::Char(c2)]);
    reveal_with_fuel(spec_parse_alternation_rest, 3);
    reveal_with_fuel(spec_build_branches, 4);
    reveal_with_fuel(spec_split_chain, 3);
    assert(spec_parse_concat(toks, 0) == (Ok::<RegexExp, crate::parser::ParseError>(
        RegexExp::Char(c1),
    ), 1nat));
    assert(spec_parse_concat(toks, 2) == (Ok::<RegexExp, crate::parser::ParseError>(
        RegexExp::Char(c2),
    ), 3nat));
    assert(seq![RegexExp::Char(c1)].push(RegexExp::Char(c2)) =~= seq![
        RegexExp::Char(c1),
        RegexExp::Char(c2),
    ]);
    assert(spec_parse_alternation_rest(toks, 1, seq![RegexExp::Char(c1)]) == (Ok::<
        Seq<RegexExp>,
        crate::parser::ParseError,
    >(seq![RegexExp::Char(c1), RegexExp::Char(c2)]), 3nat));
    assert(spec_parse_alternation(toks, 0) == (Ok::<RegexExp, crate::parser::ParseError>(e), 3nat));
    reveal_with_fuel(spec_build, 4);
    reveal_with_fuel(spec_build_star, 2);
    reveal_with_fuel(patch_exits, 3);
    assert(spec_regex_nfa(e).0 =~= alt_states(c1, c2));
    reveal_with_fuel(mask_has_match_upto, 8);
    lemma_alt_active(c1, c2, line, line.len() as int);
    lemma_nfa_of_char(c1);
    lemma_nfa_of_char(c2);
    lemma_prim_accepts(CharClass::Literal(c1), line);
    lemma_prim_accepts(CharClass::Literal(c2), line);
}

/// Parser error determinism, unmatched group: the pattern `(a` fails naming
/// the missing closing parenthesis against the end of the pattern.
pub proof fn law_unmatched_group_error()
    ensures
        spec_parse(seq!['(', 'a']) == Err::<RegexExp, crate::parser::ParseError>(
            crate::parser::ParseError::Unexpected {
                expected: Token::CloseParen,
                found: Token::EOF,
            },
        ),
{
    reveal_with_fuel(spec_tokens_from, 4);
    reveal_with_fuel(spec_next_token, 4);
    let p = seq!['(', 'a'];
    assert(spec_next_token(p, 0) == (Token::OpenParen, 1nat));
    assert(spec_next_token(p, 1) == (Token::Char('a'), 2nat));
    assert(spec_tokens(p) =~= seq![Token::OpenParen, Token::Char('a')]);
    let toks = spec_tokens(p);
    assert(spec_parse_alternation(toks, 1) == (Ok::<RegexExp, crate::parser::ParseError>(
        RegexExp::Char('a'),
    ), 2nat));
}

/// Parser error determinism, doubled quantifier: the pattern `a**` is an
/// error — the second star has no primary to bind to.
pub proof fn law_double_star_error()
    ensures
        spec_parse(seq!['a', '*', '*']) == Err::<RegexExp, crate::parser::ParseError>(
            crate::parser::ParseError::UnexpectedToken { found: Token::Star },
        ),
{
    reveal_with_fuel(spec_tokens_from, 5);
    reveal_with_fuel(spec_next_token, 5);
    let p = seq!['a', '*', '*'];
    assert(spec_next_token(p, 0) == (Token::Char('a'), 1nat));
    assert(spec_next_token(p, 1) == (Token::Star, 2nat));
    assert(spec_next_token(p, 2) == (Token::Star, 3nat));
    assert(spec_tokens(p) =~= seq![Token::Char('a'), Token::Star, Token::Star]);
    let toks = spec_tokens(p);
    assert(spec_parse_atom(toks, 0) == (Ok::<RegexExp, crate::parser::ParseError>(
        RegexExp::Star(Box::new(RegexExp::Char('a'))),
    ), 2nat));
    assert(spec_parse_atom(toks, 2).0 == Err::<RegexExp, crate::parser::ParseError>(
        crate::parser::ParseError::UnexpectedToken { found: Token::Star },
    ));
}

} // verus!