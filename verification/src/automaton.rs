//! Compilation of pattern trees into a nondeterministic finite automaton,
//! and whole-line matching by simulating it.
//!
//! The automaton is an arena of [`NFAState`]s addressed by index.  Each
//! consuming edge carries a tagged [`CharClass`] predicate evaluated against
//! the real input character, never a sentinel value.  Zero-width anchors are
//! their own [`NFAState::Assertion`] edges, special-cased by the matcher and
//! evaluated against the surrounding line context rather than consuming a
//! character.  Construction glues fragments — an entry index plus the set of
//! dangling exit indices — with explicit epsilon edges, Thompson style;
//! [`NFAState::Split`] is the two-way branch state this calls for.
//!
//! Matching simulates the automaton over the whole line: the set of active
//! states starts as the epsilon closure of the start state and is advanced
//! through every character by one consuming step followed by an epsilon
//! closure; the line matches exactly when a `Match`-tagged state is active
//! after the last character.  The spec functions below state that procedure
//! mathematically, and both the builder and the matcher are proved to return
//! exactly what their spec counterparts compute.

use vstd::prelude::*;
use vstd::string::StrSliceExecFns;

use crate::ast::{RegexExp, RegexNode, nodes_view, lemma_nodes_view_index};

verus! {

/// The predicate of a consuming edge.
#[derive(Debug, Clone, Copy, PartialEq, Eq, Structural)]
pub enum CharClass {
    /// Exactly this character.
    Literal(char),
    /// Any character.
    Any,
    /// An ASCII digit.
    Digit,
    /// A letter, digit or underscore.
    WordChar,
    /// Space, tab, carriage return or newline.
    Whitespace,
}

/// A zero-width assertion against the line context.
#[derive(Debug, Clone, Copy, PartialEq, Eq, Structural)]
pub enum AnchorKind {
    StartLine,
    EndLine,
    StartInput,
    EndInput,
    WordBoundary,
}

/// One automaton state.
#[derive(Debug, Clone, Copy, PartialEq, Eq, Structural)]
pub enum NFAState {
    /// Placeholder for a state not yet wired up.
    Start,
    /// Accepting: active after the last character, the line matches.
    Match,
    /// Consumes one character satisfying the predicate.
    Transition(CharClass, usize),
    /// Moves without consuming anything.
    EpsilonTransition(usize),
    /// Moves to either target without consuming anything.
    Split(usize, usize),
    /// Moves without consuming anything, but only where the anchor holds.
    Assertion(AnchorKind, usize),
}

pub open spec fn is_digit_char(c: char) -> bool {
    48 <= c as int <= 57
}

pub open spec fn is_word_char(c: char) -> bool {
    is_digit_char(c) || (65 <= c as int <= 90) || (97 <= c as int <= 122) || c == '_'
}

pub open spec fn is_space_char(c: char) -> bool {
    c == ' ' || c == '\t' || c == '\n' || c == '\r'
}

/// Whether a character satisfies a predicate.
pub open spec fn class_matches(cc: CharClass, c: char) -> bool {
    match cc {
        CharClass::Literal(l) => c == l,
        CharClass::Any => true,
        CharClass::Digit => is_digit_char(c),
        CharClass::WordChar => is_word_char(c),
        CharClass::Whitespace => is_space_char(c),
    }
}

/// Whether an anchor holds between the characters of `line` at `pos`.
pub open spec fn anchor_holds(k: AnchorKind, line: Seq<char>, pos: int) -> bool {
    match k {
        AnchorKind::StartLine => pos == 0,
        AnchorKind::StartInput => pos == 0,
        AnchorKind::EndLine => pos == line.len(),
        AnchorKind::EndInput => pos == line.len(),
        AnchorKind::WordBoundary => (pos > 0 && is_word_char(line[pos - 1])) != (0 <= pos
            < line.len() && is_word_char(line[pos])),
    }
}

/// A target index out of range would make the simulation meaningless; the
/// builder never produces one.
pub open spec fn state_wf(s: NFAState, n: nat) -> bool {
    match s {
        NFAState::Transition(_, t) => (t as nat) < n,
        NFAState::EpsilonTransition(t) => (t as nat) < n,
        NFAState::Split(a, b) => (a as nat) < n && (b as nat) < n,
        NFAState::Assertion(_, t) => (t as nat) < n,
        NFAState::Start => true,
        NFAState::Match => true,
    }
}

/// Every edge of every state stays inside the arena.
pub open spec fn arena_wf(states: Seq<NFAState>) -> bool {
    forall|i: int| 0 <= i < states.len() ==> state_wf(#[trigger] states[i], states.len())
}

// ---------------------------------------------------------------------------
// The matcher's mathematical model: masks of active states.
// ---------------------------------------------------------------------------

/// No state active.
pub open spec fn empty_mask(n: nat) -> Seq<bool> {
    Seq::new(n, |i: int| false)
}

/// Mark one state active.
pub open spec fn mask_set(m: Seq<bool>, t: int) -> Seq<bool> {
    if 0 <= t < m.len() {
        m.update(t, true)
    } else {
        m
    }
}

/// Only the start state active.
pub open spec fn start_mask(n: nat, start: usize) -> Seq<bool> {
    mask_set(empty_mask(n), start as int)
}

/// The states one non-consuming edge of `s` reaches, added to `m`.
pub open spec fn eps_apply(s: NFAState, line: Seq<char>, pos: int, m: Seq<bool>) -> Seq<bool> {
    match s {
        NFAState::EpsilonTransition(t) => mask_set(m, t as int),
        NFAState::Split(a, b) => mask_set(mask_set(m, a as int), b as int),
        NFAState::Assertion(k, t) => if anchor_holds(k, line, pos) {
            mask_set(m, t as int)
        } else {
            m
        },
        _ => m,
    }
}

/// One round of following non-consuming edges out of the states active in
/// `m`, having looked at states `0..k`.
pub open spec fn eps_round_upto(
    states: Seq<NFAState>,
    line: Seq<char>,
    pos: int,
    m: Seq<bool>,
    k: nat,
) -> Seq<bool>
    decreases k,
{
    if k == 0 {
        m
    } else {
        let prev = eps_round_upto(states, line, pos, m, (k - 1) as nat);
        let i = k - 1;
        if i < states.len() && i < m.len() && m[i] {
            eps_apply(states[i], line, pos, prev)
        } else {
            prev
        }
    }
}

/// One full round of following non-consuming edges.
pub open spec fn eps_round(states: Seq<NFAState>, line: Seq<char>, pos: int, m: Seq<bool>) -> Seq<
    bool,
> {
    eps_round_upto(states, line, pos, m, states.len())
}

/// `k` rounds of following non-consuming edges.
pub open spec fn eps_closure_k(
    states: Seq<NFAState>,
    line: Seq<char>,
    pos: int,
    m: Seq<bool>,
    k: nat,
) -> Seq<bool>
    decreases k,
{
    if k == 0 {
        m
    } else {
        eps_round(states, line, pos, eps_closure_k(states, line, pos, m, (k - 1) as nat))
    }
}

/// The epsilon closure of `m`: as many rounds as there are states, which
/// saturates, since a simple epsilon path visits each state at most once.
pub open spec fn eps_closure(states: Seq<NFAState>, line: Seq<char>, pos: int, m: Seq<bool>) -> Seq<
    bool,
> {
    eps_closure_k(states, line, pos, m, states.len())
}

/// The states reached from `m` by consuming `c` over one satisfied
/// [`NFAState::Transition`] edge, having looked at states `0..k`.
pub open spec fn step_upto(states: Seq<NFAState>, m: Seq<bool>, c: char, k: nat) -> Seq<bool>
    decreases k,
{
    if k == 0 {
        empty_mask(m.len())
    } else {
        let prev = step_upto(states, m, c, (k - 1) as nat);
        let i = k - 1;
        if i < states.len() && i < m.len() && m[i] {
            match states[i] {
                NFAState::Transition(cc, t) => if class_matches(cc, c) {
                    mask_set(prev, t as int)
                } else {
                    prev
                },
                _ => prev,
            }
        } else {
            prev
        }
    }
}

/// The consuming step of the simulation.
pub open spec fn step_mask(states: Seq<NFAState>, m: Seq<bool>, c: char) -> Seq<bool> {
    step_upto(states, m, c, states.len())
}

/// Whether a `Match`-tagged state among `0..k` is active in `m`.
pub open spec fn mask_has_match_upto(states: Seq<NFAState>, m: Seq<bool>, k: nat) -> bool
    decreases k,
{
    if k == 0 {
        false
    } else {
        mask_has_match_upto(states, m, (k - 1) as nat) || ({
            let i = k - 1;
            i < states.len() && i < m.len() && m[i] && states[i] == NFAState::Match
        })
    }
}

/// Whether any active state is accepting.
pub open spec fn mask_has_match(states: Seq<NFAState>, m: Seq<bool>) -> bool {
    mask_has_match_upto(states, m, states.len())
}

/// The active-state mask after the first `k` characters of `line`: the
/// epsilon closure of the start state, then for each character one consuming
/// step followed by an epsilon closure at the new position.
pub open spec fn active_mask(states: Seq<NFAState>, start: usize, line: Seq<char>, k: int) -> Seq<
    bool,
>
    decreases k,
{
    if k <= 0 {
        eps_closure(states, line, 0, start_mask(states.len(), start))
    } else {
        eps_closure(
            states,
            line,
            k,
            step_mask(states, active_mask(states, start, line, k - 1), line[k - 1]),
        )
    }
}

/// Whole-line acceptance: after consuming all of `line`, some `Match`-tagged
/// state is active.  An empty line is accepted exactly when the epsilon
/// closure of the start state already contains one.
pub open spec fn nfa_accepts(states: Seq<NFAState>, start: usize, line: Seq<char>) -> bool {
    mask_has_match(states, active_mask(states, start, line, line.len() as int))
}

// ---------------------------------------------------------------------------
// The builder's mathematical model: fragments over a growing arena.
// ---------------------------------------------------------------------------

/// A fragment matching one character class: a consuming edge into a fresh
/// dangling state.
pub open spec fn spec_prim_trans(states: Seq<NFAState>, cc: CharClass) -> (
    Seq<NFAState>,
    usize,
    Seq<usize>,
) {
    let en = states.len() as usize;
    let ex = (states.len() + 1) as usize;
    (states.push(NFAState::Transition(cc, ex)).push(NFAState::Match), en, seq![ex])
}

/// A fragment asserting one anchor: a non-consuming assertion edge into a
/// fresh dangling state.
pub open spec fn spec_prim_assert(states: Seq<NFAState>, k: AnchorKind) -> (
    Seq<NFAState>,
    usize,
    Seq<usize>,
) {
    let en = states.len() as usize;
    let ex = (states.len() + 1) as usize;
    (states.push(NFAState::Assertion(k, ex)).push(NFAState::Match), en, seq![ex])
}

/// A fragment matching only the empty string: a single dangling state.
pub open spec fn spec_empty_frag(states: Seq<NFAState>) -> (Seq<NFAState>, usize, Seq<usize>) {
    (states.push(NFAState::Match), states.len() as usize, seq![states.len() as usize])
}

/// Rewires the dangling exits `exits[from..]` into epsilon edges onto
/// `target`, gluing one fragment to the next.
pub open spec fn patch_exits(
    states: Seq<NFAState>,
    exits: Seq<usize>,
    from: int,
    target: usize,
) -> Seq<NFAState>
    decreases exits.len() - from,
{
    if from < 0 || from >= exits.len() {
        states
    } else {
        let e = exits[from] as int;
        let s2 = if 0 <= e < states.len() {
            states.update(e, NFAState::EpsilonTransition(target))
        } else {
            states
        };
        patch_exits(s2, exits, from + 1, target)
    }
}

/// The fragment of a pattern tree built on top of `states`: the grown arena,
/// the fragment's entry index, and its dangling exit indices.
pub open spec fn spec_build(states: Seq<NFAState>, e: RegexExp) -> (Seq<NFAState>, usize, Seq<usize>)
    decreases e, 0nat, 0int,
{
    match e {
        RegexExp::Char(c) => spec_prim_trans(states, CharClass::Literal(c)),
        RegexExp::AnyChar => spec_prim_trans(states, CharClass::Any),
        RegexExp::Digit => spec_prim_trans(states, CharClass::Digit),
        RegexExp::WordChar => spec_prim_trans(states, CharClass::WordChar),
        RegexExp::Whitespace => spec_prim_trans(states, CharClass::Whitespace),
        RegexExp::StartLine => spec_prim_assert(states, AnchorKind::StartLine),
        RegexExp::EndLine => spec_prim_assert(states, AnchorKind::EndLine),
        RegexExp::StartInput => spec_prim_assert(states, AnchorKind::StartInput),
        RegexExp::EndInput => spec_prim_assert(states, AnchorKind::EndInput),
        RegexExp::WordBoundary => spec_prim_assert(states, AnchorKind::WordBoundary),
        RegexExp::Concat(es) => {
            if es.len() == 0 {
                spec_empty_frag(states)
            } else {
                let (s1, en, ex) = spec_build(states, es[0]);
                spec_build_seq(s1, es, 1, en, ex)
            }
        },
        RegexExp::Alternation(es) => {
            if es.len() == 0 {
                spec_empty_frag(states)
            } else {
                let (s1, ens, exs) = spec_build_branches(
                    states,
                    es,
                    0,
                    Seq::<usize>::empty(),
                    Seq::<usize>::empty(),
                );
                let (s2, en) = spec_split_chain(s1, ens, 0);
                (s2, en, exs)
            }
        },
        RegexExp::Star(b) => spec_build_star(states, *b),
        RegexExp::Plus(b) => {
            let (s1, en, ex) = spec_build(states, *b);
            let out = s1.len() as usize;
            let s2 = s1.push(NFAState::Match);
            let head = s2.len() as usize;
            let s3 = s2.push(NFAState::Split(en, out));
            let s4 = patch_exits(s3, ex, 0, head);
            (s4, en, seq![out])
        },
        RegexExp::Question(b) => {
            let (s1, en, ex) = spec_build(states, *b);
            let out = s1.len() as usize;
            let s2 = s1.push(NFAState::Match);
            let head = s2.len() as usize;
            let s3 = s2.push(NFAState::Split(en, out));
            (s3, head, ex.push(out))
        },
        RegexExp::Group(b) => spec_build(states, *b),
        RegexExp::Repeat(b, mn, mx) => spec_build_repeat(states, *b, mn, mx),
    }
}

/// A loop fragment: the body may be traversed any number of times, zero
/// included; the loop head both enters the body and leaves it.
pub open spec fn spec_build_star(states: Seq<NFAState>, e: RegexExp) -> (
    Seq<NFAState>,
    usize,
    Seq<usize>,
)
    decreases e, 1nat, 0int,
{
    let (s1, en, ex) = spec_build(states, e);
    let out = s1.len() as usize;
    let s2 = s1.push(NFAState::Match);
    let head = s2.len() as usize;
    let s3 = s2.push(NFAState::Split(en, out));
    let s4 = patch_exits(s3, ex, 0, head);
    (s4, head, seq![out])
}

/// Threads the children `es[from..]` one after another behind a fragment
/// already built: each child is built, and the previous exits are glued to
/// its entry.
pub open spec fn spec_build_seq(
    states: Seq<NFAState>,
    es: Seq<RegexExp>,
    from: int,
    entry: usize,
    exits: Seq<usize>,
) -> (Seq<NFAState>, usize, Seq<usize>)
    decreases es, 1nat, es.len() - from,
{
    if from < 0 || from >= es.len() {
        (states, entry, exits)
    } else {
        let (s1, en2, ex2) = spec_build(states, es[from]);
        let s2 = patch_exits(s1, exits, 0, en2);
        spec_build_seq(s2, es, from + 1, entry, ex2)
    }
}

/// Builds the branches `es[from..]` side by side, collecting every branch's
/// entry and all their exits.
pub open spec fn spec_build_branches(
    states: Seq<NFAState>,
    es: Seq<RegexExp>,
    from: int,
    entries: Seq<usize>,
    exits: Seq<usize>,
) -> (Seq<NFAState>, Seq<usize>, Seq<usize>)
    decreases es, 1nat, es.len() - from,
{
    if from < 0 || from >= es.len() {
        (states, entries, exits)
    } else {
        let (s1, en, ex) = spec_build(states, es[from]);
        spec_build_branches(s1, es, from + 1, entries.push(en), exits + ex)
    }
}

/// A right-leaning chain of [`NFAState::Split`] states fanning out to every
/// branch entry; the chain's head is the alternation's entry.
pub open spec fn spec_split_chain(states: Seq<NFAState>, entries: Seq<usize>, from: int) -> (
    Seq<NFAState>,
    usize,
)
    decreases entries.len() - from,
{
    if from < 0 || from + 1 >= entries.len() {
        (states, if 0 <= from < entries.len() {
            entries[from]
        } else {
            0
        })
    } else {
        let (s2, t) = spec_split_chain(states, entries, from + 1);
        (s2.push(NFAState::Split(entries[from], t)), s2.len() as usize)
    }
}

/// A counted repetition: `min` mandatory copies in sequence; then a bounded
/// tail of optional copies, or an unbounded star-style loop.
pub open spec fn spec_build_repeat(
    states: Seq<NFAState>,
    e: RegexExp,
    min: nat,
    mx: Option<nat>,
) -> (Seq<NFAState>, usize, Seq<usize>)
    decreases e, 1nat, min + (match mx {
        Some(k) => k,
        None => 0,
    }) + 1,
{
    if min > 0 {
        let mx2 = match mx {
            Some(k) => Some(
                if k > 0 {
                    (k - 1) as nat
                } else {
                    0
                },
            ),
            None => None::<nat>,
        };
        let (s1, en1, ex1) = spec_build(states, e);
        let (s2, en2, ex2) = spec_build_repeat(s1, e, (min - 1) as nat, mx2);
        (patch_exits(s2, ex1, 0, en2), en1, ex2)
    } else {
        match mx {
            None => spec_build_star(states, e),
            Some(k) => {
                if k == 0 {
                    spec_empty_frag(states)
                } else {
                    let (s1, en1, ex1) = spec_build(states, e);
                    let (s2, en2, ex2) = spec_build_repeat(s1, e, 0, Some((k - 1) as nat));
                    let s3 = patch_exits(s2, ex1, 0, en2);
                    let out = s3.len() as usize;
                    let s4 = s3.push(NFAState::Match);
                    let head = s4.len() as usize;
                    let s5 = s4.push(NFAState::Split(en1, out));
                    (s5, head, ex2.push(out))
                }
            },
        }
    }
}

/// The automaton of a whole pattern tree: the fragment is built over the
/// placeholder start state, which is then rewired to enter it.  The `accept`
/// field records the first dangling exit as a hint; acceptance itself goes by
/// the `Match` tags.
pub open spec fn spec_regex_nfa(e: RegexExp) -> (Seq<NFAState>, usize, usize) {
    let (sts, en, exs) = spec_build(seq![NFAState::Start], e);
    (
        sts.update(0, NFAState::EpsilonTransition(en)),
        0,
        if exs.len() > 0 {
            exs[0]
        } else {
            0
        },
    )
}

// ---------------------------------------------------------------------------
// Executable automaton.
// ---------------------------------------------------------------------------

/// A fragment under construction: its entry state and its dangling exits.
struct Fragment {
    entry: usize,
    exits: Vec<usize>,
}

/// A compiled automaton: the state arena, the start state, and the exit hint
/// recorded at construction.
#[derive(Debug, Clone)]
pub struct NFA {
    pub states: Vec<NFAState>,
    pub start: usize,
    pub accept: usize,
}

impl NFA {
    /// The arena stays navigable and the start state stays inside it.
    pub open spec fn wf(&self) -> bool {
        arena_wf(self.states@) && (self.start as int) < self.states@.len()
    }

    /// An automaton of one placeholder state, matching nothing yet.
    pub fn new() -> (nfa: Self)
        ensures
            nfa.states@ == seq![NFAState::Start],
            nfa.start == 0usize,
            nfa.accept == 0usize,
            nfa.wf(),
    {
        Self { states: vec![NFAState::Start], start: 0, accept: 0 }
    }

    /// Compiles a pattern tree: exactly the automaton that
    /// [`spec_regex_nfa`] describes.
    pub fn from_regex(node: &RegexNode) -> (nfa: Self)
        ensures
            (nfa.states@, nfa.start, nfa.accept) == spec_regex_nfa(node@),
            nfa.wf(),
    {
        let mut nfa = Self::new();
        let f = nfa.build_from_node(node);
        nfa.states.set(0, NFAState::EpsilonTransition(f.entry));
        nfa.start = 0;
        nfa.accept = if f.exits.len() > 0 {
            f.exits[0]
        } else {
            0
        };
        nfa
    }

    /// Builds the fragment of `node` on top of the current arena.
    #[verifier::loop_isolation(false)]
    fn build_from_node(&mut self, node: &RegexNode) -> (f: Fragment)
        requires
            arena_wf(old(self).states@),
        ensures
            arena_wf(final(self).states@),
            old(self).states@.len() <= final(self).states@.len(),
            (final(self).states@, f.entry, f.exits@) == spec_build(old(self).states@, node@),
            f.entry < final(self).states@.len(),
            forall|i: int|
                0 <= i < f.exits@.len() ==> (#[trigger] f.exits@[i]) < final(self).states@.len(),
            f.exits@.len() >= 1,
            final(self).start == old(self).start,
            final(self).accept == old(self).accept,
        decreases *node, 0nat, 0int,
    {
        match node {
            RegexNode::Char(c) => self.push_trans(CharClass::Literal(*c)),
            RegexNode::AnyChar => self.push_trans(CharClass::Any),
            RegexNode::Digit => self.push_trans(CharClass::Digit),
            RegexNode::WordChar => self.push_trans(CharClass::WordChar),
            RegexNode::Whitespace => self.push_trans(CharClass::Whitespace),
            RegexNode::StartLine => self.push_assert(AnchorKind::StartLine),
            RegexNode::EndLine => self.push_assert(AnchorKind::EndLine),
            RegexNode::StartInput => self.push_assert(AnchorKind::StartInput),
            RegexNode::EndInput => self.push_assert(AnchorKind::EndInput),
            RegexNode::WordBoundary => self.push_assert(AnchorKind::WordBoundary),
            RegexNode::Concat(ns) => {
                proof {
                    lemma_nodes_view_index(ns@);
                }
                if ns.len() == 0 {
                    self.push_empty()
                } else {
                    let f0 = self.build_from_node(&ns[0]);
                    let ghost s1 = self.states@;
                    let entry: usize = f0.entry;
                    let mut exits: Vec<usize> = f0.exits;
                    let mut from: usize = 1;
                    while from < ns.len()
                        invariant
                            arena_wf(self.states@),
                            1 <= from <= ns@.len(),
                            s1.len() <= self.states@.len(),
                            exits@.len() >= 1,
                            forall|i: int|
                                0 <= i < exits@.len() ==> (#[trigger] exits@[i])
                                    < self.states@.len(),
                            spec_build_seq(s1, nodes_view(ns@), 1, f0.entry, f0.exits@)
                                == spec_build_seq(
                                self.states@,
                                nodes_view(ns@),
                                from as int,
                                entry,
                                exits@,
                            ),
                            self.start == old(self).start,
                            self.accept == old(self).accept,
                        decreases ns@.len() - from,
                    {
                        let fi = self.build_from_node(&ns[from]);
                        self.patch_all(&exits, fi.entry);
                        exits = fi.exits;
                        from = from + 1;
                    }
                    Fragment { entry, exits }
                }
            },
            RegexNode::Alternation(ns) => {
                proof {
                    lemma_nodes_view_index(ns@);
                }
                if ns.len() == 0 {
                    self.push_empty()
                } else {
                    let ghost s0 = self.states@;
                    let mut entries: Vec<usize> = Vec::new();
                    let mut exits: Vec<usize> = Vec::new();
                    let mut from: usize = 0;
                    while from < ns.len()
                        invariant
                            arena_wf(self.states@),
                            0 <= from <= ns@.len(),
                            s0.len() <= self.states@.len(),
                            entries@.len() == from,
                            forall|i: int|
                                0 <= i < entries@.len() ==> (#[trigger] entries@[i])
                                    < self.states@.len(),
                            forall|i: int|
                                0 <= i < exits@.len() ==> (#[trigger] exits@[i])
                                    < self.states@.len(),
                            from > 0 ==> exits@.len() >= 1,
                            spec_build_branches(
                                s0,
                                nodes_view(ns@),
                                0,
                                Seq::<usize>::empty(),
                                Seq::<usize>::empty(),
                            ) == spec_build_branches(
                                self.states@,
                                nodes_view(ns@),
                                from as int,
                                entries@,
                                exits@,
                            ),
                            self.start == old(self).start,
                            self.accept == old(self).accept,
                        decreases ns@.len() - from,
                    {
                        let fi = self.build_from_node(&ns[from]);
                        entries.push(fi.entry);
                        push_all(&mut exits, &fi.exits);
                        from = from + 1;
                    }
                    let entry = self.split_chain(&entries, 0);
                    Fragment { entry, exits }
                }
            },
            RegexNode::Star(b) => self.build_star(b),
            RegexNode::Plus(b) => {
                let fb = self.build_from_node(b);
                let ghost sa = self.states@;
                let out: usize = self.states.len();
                self.states.push(NFAState::Match);
                let head: usize = self.states.len();
                self.states.push(NFAState::Split(fb.entry, out));
                proof {
                    lemma_arena_wf_extend(sa, self.states@);
                }
                self.patch_all(&fb.exits, head);
                Fragment { entry: fb.entry, exits: vec![out] }
            },
            RegexNode::Question(b) => {
                let fb = self.build_from_node(b);
                let ghost sa = self.states@;
                let out: usize = self.states.len();
                self.states.push(NFAState::Match);
                let head: usize = self.states.len();
                self.states.push(NFAState::Split(fb.entry, out));
                proof {
                    lemma_arena_wf_extend(sa, self.states@);
                }
                let mut exits = fb.exits;
                exits.push(out);
                Fragment { entry: head, exits }
            },
            RegexNode::Group(b) => self.build_from_node(b),
            RegexNode::Repeat(b, r) => self.build_repeat(b, r.min, r.max),
        }
    }

    /// Builds the star of `node`: its body fragment wrapped in a loop.
    fn build_star(&mut self, node: &RegexNode) -> (f: Fragment)
        requires
            arena_wf(old(self).states@),
        ensures
            arena_wf(final(self).states@),
            old(self).states@.len() <= final(self).states@.len(),
            (final(self).states@, f.entry, f.exits@) == spec_build_star(old(self).states@, node@),
            f.entry < final(self).states@.len(),
            forall|i: int|
                0 <= i < f.exits@.len() ==> (#[trigger] f.exits@[i]) < final(self).states@.len(),
            f.exits@.len() >= 1,
            final(self).start == old(self).start,
            final(self).accept == old(self).accept,
        decreases *node, 1nat, 0int,
    {
        let fb = self.build_from_node(node);
        let ghost sa = self.states@;
        let out: usize = self.states.len();
        self.states.push(NFAState::Match);
        let head: usize = self.states.len();
        self.states.push(NFAState::Split(fb.entry, out));
        proof {
            lemma_arena_wf_extend(sa, self.states@);
        }
        self.patch_all(&fb.exits, head);
        Fragment { entry: head, exits: vec![out] }
    }

    /// Builds `min` mandatory copies of `node`, then the optional or
    /// unbounded tail.
    fn build_repeat(&mut self, node: &RegexNode, min: usize, mx: Option<usize>) -> (f: Fragment)
        requires
            arena_wf(old(self).states@),
        ensures
            arena_wf(final(self).states@),
            old(self).states@.len() <= final(self).states@.len(),
            (final(self).states@, f.entry, f.exits@) == spec_build_repeat(
                old(self).states@,
                node@,
                min as nat,
                (match mx {
                    Some(k) => Some(k as nat),
                    None => None,
                }),
            ),
            f.entry < final(self).states@.len(),
            forall|i: int|
                0 <= i < f.exits@.len() ==> (#[trigger] f.exits@[i]) < final(self).states@.len(),
            f.exits@.len() >= 1,
            final(self).start == old(self).start,
            final(self).accept == old(self).accept,
        decreases *node, 1nat, min + (match mx {
            Some(k) => k as int,
            None => 0int,
        }) + 1,
    {
        if min > 0 {
            let mx2 = match mx {
                Some(k) => Some(
                    if k > 0 {
                        k - 1
                    } else {
                        0
                    },
                ),
                None => None,
            };
            let f1 = self.build_from_node(node);
            let f2 = self.build_repeat(node, min - 1, mx2);
            self.patch_all(&f1.exits, f2.entry);
            Fragment { entry: f1.entry, exits: f2.exits }
        } else {
            match mx {
                None => self.build_star(node),
                Some(k) => {
                    if k == 0 {
                        self.push_empty()
                    } else {
                        let f1 = self.build_from_node(node);
                        let f2 = self.build_repeat(node, 0, Some(k - 1));
                        self.patch_all(&f1.exits, f2.entry);
                        let ghost sa = self.states@;
                        let out: usize = self.states.len();
                        self.states.push(NFAState::Match);
                        let head: usize = self.states.len();
                        self.states.push(NFAState::Split(f1.entry, out));
                        proof {
                            lemma_arena_wf_extend(sa, self.states@);
                        }
                        let mut exits = f2.exits;
                        exits.push(out);
                        Fragment { entry: head, exits }
                    }
                },
            }
        }
    }

    /// Appends the split chain fanning out to `entries[from..]` and returns
    /// its head.
    fn split_chain(&mut self, entries: &Vec<usize>, from: usize) -> (en: usize)
        requires
            arena_wf(old(self).states@),
            from < entries@.len(),
            forall|i: int|
                0 <= i < entries@.len() ==> (#[trigger] entries@[i]) < old(self).states@.len(),
        ensures
            arena_wf(final(self).states@),
            old(self).states@.len() <= final(self).states@.len(),
            (final(self).states@, en) == spec_split_chain(old(self).states@, entries@, from as int),
            en < final(self).states@.len(),
            final(self).start == old(self).start,
            final(self).accept == old(self).accept,
        decreases entries@.len() - from,
    {
        let n: usize = entries.len();
        if from + 1 >= n {
            entries[from]
        } else {
            let t = self.split_chain(entries, from + 1);
            let ghost sa = self.states@;
            let idx: usize = self.states.len();
            self.states.push(NFAState::Split(entries[from], t));
            proof {
                lemma_arena_wf_extend(sa, self.states@);
            }
            idx
        }
    }

    /// Appends a consuming-edge fragment for one character class.
    fn push_trans(&mut self, cc: CharClass) -> (f: Fragment)
        requires
            arena_wf(old(self).states@),
        ensures
            arena_wf(final(self).states@),
            old(self).states@.len() <= final(self).states@.len(),
            (final(self).states@, f.entry, f.exits@) == spec_prim_trans(old(self).states@, cc),
            f.entry < final(self).states@.len(),
            forall|i: int|
                0 <= i < f.exits@.len() ==> (#[trigger] f.exits@[i]) < final(self).states@.len(),
            f.exits@.len() >= 1,
            final(self).start == old(self).start,
            final(self).accept == old(self).accept,
    {
        let en: usize = self.states.len();
        self.states.push(NFAState::Start);
        let ex: usize = self.states.len();
        self.states.push(NFAState::Match);
        self.states.set(en, NFAState::Transition(cc, ex));
        proof {
            assert(self.states@ =~= old(self).states@.push(NFAState::Transition(cc, ex)).push(
                NFAState::Match,
            ));
            lemma_arena_wf_extend(old(self).states@, self.states@);
        }
        Fragment { entry: en, exits: vec![ex] }
    }

    /// Appends an assertion-edge fragment for one anchor.
    fn push_assert(&mut self, k: AnchorKind) -> (f: Fragment)
        requires
            arena_wf(old(self).states@),
        ensures
            arena_wf(final(self).states@),
            old(self).states@.len() <= final(self).states@.len(),
            (final(self).states@, f.entry, f.exits@) == spec_prim_assert(old(self).states@, k),
            f.entry < final(self).states@.len(),
            forall|i: int|
                0 <= i < f.exits@.len() ==> (#[trigger] f.exits@[i]) < final(self).states@.len(),
            f.exits@.len() >= 1,
            final(self).start == old(self).start,
            final(self).accept == old(self).accept,
    {
        let en: usize = self.states.len();
        self.states.push(NFAState::Start);
        let ex: usize = self.states.len();
        self.states.push(NFAState::Match);
        self.states.set(en, NFAState::Assertion(k, ex));
        proof {
            assert(self.states@ =~= old(self).states@.push(NFAState::Assertion(k, ex)).push(
                NFAState::Match,
            ));
            lemma_arena_wf_extend(old(self).states@, self.states@);
        }
        Fragment { entry: en, exits: vec![ex] }
    }

    /// Appends the fragment matching only the empty string.
    fn push_empty(&mut self) -> (f: Fragment)
        requires
            arena_wf(old(self).states@),
        ensures
            arena_wf(final(self).states@),
            old(self).states@.len() <= final(self).states@.len(),
            (final(self).states@, f.entry, f.exits@) == spec_empty_frag(old(self).states@),
            f.entry < final(self).states@.len(),
            forall|i: int|
                0 <= i < f.exits@.len() ==> (#[trigger] f.exits@[i]) < final(self).states@.len(),
            f.exits@.len() >= 1,
            final(self).start == old(self).start,
            final(self).accept == old(self).accept,
    {
        let en: usize = self.states.len();
        self.states.push(NFAState::Match);
        proof {
            lemma_arena_wf_extend(old(self).states@, self.states@);
        }
        Fragment { entry: en, exits: vec![en] }
    }

    /// Rewires every listed dangling exit into an epsilon edge onto `target`.
    #[verifier::loop_isolation(false)]
    fn patch_all(&mut self, exits: &Vec<usize>, target: usize)
        requires
            arena_wf(old(self).states@),
            target < old(self).states@.len(),
            forall|i: int|
                0 <= i < exits@.len() ==> (#[trigger] exits@[i]) < old(self).states@.len(),
        ensures
            arena_wf(final(self).states@),
            final(self).states@ == patch_exits(old(self).states@, exits@, 0, target),
            final(self).states@.len() == old(self).states@.len(),
            final(self).start == old(self).start,
            final(self).accept == old(self).accept,
    {
        let mut k: usize = 0;
        while k < exits.len()
            invariant
                arena_wf(self.states@),
                k <= exits@.len(),
                self.states@.len() == old(self).states@.len(),
                target < self.states@.len(),
                forall|i: int| 0 <= i < exits@.len() ==> (#[trigger] exits@[i]) < self.states@.len(),
                patch_exits(old(self).states@, exits@, 0, target) == patch_exits(
                    self.states@,
                    exits@,
                    k as int,
                    target,
                ),
                self.start == old(self).start,
                self.accept == old(self).accept,
            decreases exits@.len() - k,
        {
            let e: usize = exits[k];
            self.states.set(e, NFAState::EpsilonTransition(target));
            k = k + 1;
        }
    }

    /// Whether the automaton accepts the whole input line, as
    /// [`nfa_accepts`] states it.
    #[verifier::loop_isolation(false)]
    pub fn matches(&self, input: &str) -> (r: bool)
        requires
            self.wf(),
        ensures
            r == nfa_accepts(self.states@, self.start, input@),
    {
        let line = chars_of(input);
        let mut cur = self.start_mask_exec();
        cur = self.eps_closure_exec(&line, 0, cur);
        let mut k: usize = 0;
        while k < line.len()
            invariant
                self.wf(),
                k <= line@.len(),
                line@ == input@,
                cur@.len() == self.states@.len(),
                cur@ == active_mask(self.states@, self.start, input@, k as int),
            decreases line@.len() - k,
        {
            let c = line[k];
            let next = self.step_exec(&cur, c);
            cur = self.eps_closure_exec(&line, k + 1, next);
            k = k + 1;
        }
        self.has_match_exec(&cur)
    }

    /// The mask with only the start state active.
    #[verifier::loop_isolation(false)]
    fn start_mask_exec(&self) -> (m: Vec<bool>)
        requires
            self.wf(),
        ensures
            m@ == start_mask(self.states@.len(), self.start),
            m@.len() == self.states@.len(),
    {
        let n = self.states.len();
        let mut m: Vec<bool> = Vec::new();
        let mut i: usize = 0;
        while i < n
            invariant
                i <= n,
                m@ =~= empty_mask(i as nat),
            decreases n - i,
        {
            m.push(false);
            proof {
                assert(m@ =~= empty_mask((i + 1) as nat));
            }
            i = i + 1;
        }
        m.set(self.start, true);
        proof {
            assert(m@ =~= start_mask(self.states@.len(), self.start));
        }
        m
    }

    /// One round of following non-consuming edges out of `m`.
    #[verifier::loop_isolation(false)]
    fn eps_round_exec(&self, line: &Vec<char>, pos: usize, m: &Vec<bool>) -> (r: Vec<bool>)
        requires
            self.wf(),
            m@.len() == self.states@.len(),
            pos <= line@.len(),
        ensures
            r@ == eps_round(self.states@, line@, pos as int, m@),
            r@.len() == m@.len(),
    {
        let n = self.states.len();
        let mut out = copy_mask(m);
        let mut i: usize = 0;
        while i < n
            invariant
                self.wf(),
                i <= n,
                n == self.states@.len(),
                m@.len() == n,
                pos <= line@.len(),
                out@.len() == n,
                out@ == eps_round_upto(self.states@, line@, pos as int, m@, i as nat),
            decreases n - i,
        {
            if m[i] {
                match self.states[i] {
                    NFAState::EpsilonTransition(t) => {
                        out.set(t, true);
                    },
                    NFAState::Split(a, b) => {
                        out.set(a, true);
                        out.set(b, true);
                    },
                    NFAState::Assertion(k, t) => {
                        if anchor_test(k, line, pos) {
                            out.set(t, true);
                        }
                    },
                    _ => {},
                }
            }
            i = i + 1;
        }
        out
    }

    /// The epsilon closure of `m`: one round per state, which saturates.
    #[verifier::loop_isolation(false)]
    fn eps_closure_exec(&self, line: &Vec<char>, pos: usize, m: Vec<bool>) -> (r: Vec<bool>)
        requires
            self.wf(),
            m@.len() == self.states@.len(),
            pos <= line@.len(),
        ensures
            r@ == eps_closure(self.states@, line@, pos as int, m@),
            r@.len() == m@.len(),
    {
        let n = self.states.len();
        let mut cur = m;
        let mut round: usize = 0;
        while round < n
            invariant
                self.wf(),
                round <= n,
                n == self.states@.len(),
                pos <= line@.len(),
                cur@.len() == n,
                cur@ == eps_closure_k(self.states@, line@, pos as int, m@, round as nat),
            decreases n - round,
        {
            cur = self.eps_round_exec(line, pos, &cur);
            round = round + 1;
        }
        cur
    }

    /// The consuming step: every satisfied `Transition` edge out of `m`.
    #[verifier::loop_isolation(false)]
    fn step_exec(&self, m: &Vec<bool>, c: char) -> (r: Vec<bool>)
        requires
            self.wf(),
            m@.len() == self.states@.len(),
        ensures
            r@ == step_mask(self.states@, m@, c),
            r@.len() == m@.len(),
    {
        let n = self.states.len();
        let mut out: Vec<bool> = Vec::new();
        let mut i: usize = 0;
        while i < n
            invariant
                i <= n,
                out@ =~= empty_mask(i as nat),
            decreases n - i,
        {
            out.push(false);
            proof {
                assert(out@ =~= empty_mask((i + 1) as nat));
            }
            i = i + 1;
        }
        let mut i: usize = 0;
        while i < n
            invariant
                self.wf(),
                i <= n,
                n == self.states@.len(),
                m@.len() == n,
                out@.len() == n,
                out@ == step_upto(self.states@, m@, c, i as nat),
            decreases n - i,
        {
            if m[i] {
                match self.states[i] {
                    NFAState::Transition(cc, t) => {
                        if class_test(cc, c) {
                            out.set(t, true);
                        }
                    },
                    _ => {},
                }
            }
            i = i + 1;
        }
        out
    }

    /// Whether any active state is accepting.
    #[verifier::loop_isolation(false)]
    fn has_match_exec(&self, m: &Vec<bool>) -> (r: bool)
        requires
            m@.len() == self.states@.len(),
        ensures
            r == mask_has_match(self.states@, m@),
    {
        let n = self.states.len();
        let mut found = false;
        let mut i: usize = 0;
        while i < n
            invariant
                i <= n,
                n == self.states@.len(),
                m@.len() == n,
                found == mask_has_match_upto(self.states@, m@, i as nat),
            decreases n - i,
        {
            if m[i] {
                match self.states[i] {
                    NFAState::Match => {
                        found = true;
                    },
                    _ => {},
                }
            }
            i = i + 1;
        }
        found
    }
}

/// State well-formedness only loosens as the arena grows.
proof fn lemma_state_wf_mono(s: NFAState, n: nat, m: nat)
    requires
        state_wf(s, n),
        n <= m,
    ensures
        state_wf(s, m),
{
}

/// An arena stays well-formed when states are appended whose targets lie in
/// the grown arena.
proof fn lemma_arena_wf_extend(olds: Seq<NFAState>, news: Seq<NFAState>)
    requires
        arena_wf(olds),
        olds.len() <= news.len(),
        forall|i: int| 0 <= i < olds.len() ==> news[i] == olds[i],
        forall|i: int|
            olds.len() <= i < news.len() ==> state_wf(#[trigger] news[i], news.len()),
    ensures
        arena_wf(news),
{
    assert forall|i: int| 0 <= i < news.len() implies state_wf(#[trigger] news[i], news.len()) by {
        if i < olds.len() {
            lemma_state_wf_mono(olds[i], olds.len(), news.len());
        }
    }
}

/// Executable counterpart of [`class_matches`].
fn class_test(cc: CharClass, c: char) -> (r: bool)
    ensures
        r == class_matches(cc, c),
{
    match cc {
        CharClass::Literal(l) => c == l,
        CharClass::Any => true,
        CharClass::Digit => is_digit_test(c),
        CharClass::WordChar => is_word_test(c),
        CharClass::Whitespace => c == ' ' || c == '\t' || c == '\n' || c == '\r',
    }
}

/// Executable counterpart of [`is_digit_char`].
fn is_digit_test(c: char) -> (r: bool)
    ensures
        r == is_digit_char(c),
{
    let d = c as u32;
    48 <= d && d <= 57
}

/// Executable counterpart of [`is_word_char`].
fn is_word_test(c: char) -> (r: bool)
    ensures
        r == is_word_char(c),
{
    let d = c as u32;
    (48 <= d && d <= 57) || (65 <= d && d <= 90) || (97 <= d && d <= 122) || c == '_'
}

/// Executable counterpart of [`anchor_holds`].
fn anchor_test(k: AnchorKind, line: &Vec<char>, pos: usize) -> (r: bool)
    requires
        pos <= line@.len(),
    ensures
        r == anchor_holds(k, line@, pos as int),
{
    match k {
        AnchorKind::StartLine => pos == 0,
        AnchorKind::StartInput => pos == 0,
        AnchorKind::EndLine => pos == line.len(),
        AnchorKind::EndInput => pos == line.len(),
        AnchorKind::WordBoundary => {
            let before = pos > 0 && is_word_test(line[pos - 1]);
            let after = pos < line.len() && is_word_test(line[pos]);
            before != after
        },
    }
}

/// The characters of a line, in order.
#[verifier::loop_isolation(false)]
fn chars_of(s: &str) -> (v: Vec<char>)
    ensures
        v@ == s@,
{
    let n = s.unicode_len();
    let mut v: Vec<char> = Vec::new();
    let mut i: usize = 0;
    while i < n
        invariant
            i <= n,
            n as nat == s@.len(),
            v@ =~= s@.subrange(0, i as int),
        decreases n - i,
    {
        let c = s.get_char(i);
        v.push(c);
        proof {
            assert(v@ =~= s@.subrange(0, (i + 1) as int));
        }
        i = i + 1;
    }
    proof {
        assert(v@ =~= s@);
    }
    v
}

/// A copy of a mask.
#[verifier::loop_isolation(false)]
fn copy_mask(m: &Vec<bool>) -> (r: Vec<bool>)
    ensures
        r@ == m@,
{
    let n = m.len();
    let mut r: Vec<bool> = Vec::new();
    let mut i: usize = 0;
    while i < n
        invariant
            i <= n,
            n == m@.len(),
            r@ =~= m@.subrange(0, i as int),
        decreases n - i,
    {
        r.push(m[i]);
        proof {
            assert(r@ =~= m@.subrange(0, (i + 1) as int));
        }
        i = i + 1;
    }
    proof {
        assert(r@ =~= m@);
    }
    r
}

/// Appends all of `src` to `dst`.
#[verifier::loop_isolation(false)]
fn push_all(dst: &mut Vec<usize>, src: &Vec<usize>)
    ensures
        final(dst)@ == old(dst)@ + src@,
{
    let ghost orig = dst@;
    let n = src.len();
    let mut i: usize = 0;
    while i < n
        invariant
            i <= n,
            n == src@.len(),
            dst@ =~= orig + src@.subrange(0, i as int),
        decreases n - i,
    {
        dst.push(src[i]);
        proof {
            assert(dst@ =~= orig + src@.subrange(0, (i + 1) as int));
        }
        i = i + 1;
    }
    proof {
        assert(dst@ =~= orig + src@);
    }
}

} // verus!
