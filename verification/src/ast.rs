//! The abstract syntax tree of the pattern language, together with its
//! mathematical model.
//!
//! [`RegexNode`] is the executable tree the parser builds; [`RegexExp`] is
//! its spec-level counterpart, with `Seq` in place of `Vec` and unbounded
//! integers in place of machine ones, so that contracts and proofs can
//! construct and take apart trees freely.

use vstd::prelude::*;

verus! {

/// Spec-level pattern tree: the model of [`RegexNode`].
pub enum RegexExp {
    Char(char),
    AnyChar,
    Digit,
    WordChar,
    Whitespace,
    Concat(Seq<RegexExp>),
    Alternation(Seq<RegexExp>),
    /// Inner expression, minimum count, optional maximum count.
    Repeat(Box<RegexExp>, nat, Option<nat>),
    Plus(Box<RegexExp>),
    Star(Box<RegexExp>),
    Question(Box<RegexExp>),
    Group(Box<RegexExp>),
    StartLine,
    EndLine,
    StartInput,
    EndInput,
    WordBoundary,
}

/// A repetition bound `{min,max}`; `max == None` means unbounded above.
#[derive(Debug, Clone, Copy, PartialEq, Eq)]
pub struct RepeatRange {
    pub min: usize,
    pub max: Option<usize>,
}

impl RepeatRange {
    /// A present upper bound is at least the lower bound.
    pub open spec fn wf(&self) -> bool {
        match self.max {
            Some(m) => self.min <= m,
            None => true,
        }
    }

    /// The model of the upper bound.
    pub open spec fn max_model(&self) -> Option<nat> {
        match self.max {
            Some(m) => Some(m as nat),
            None => None,
        }
    }

    pub fn new(min: usize, max: Option<usize>) -> (r: Self)
        requires
            (match max {
                Some(m) => min <= m,
                None => true,
            }),
        ensures
            r.min == min,
            r.max == max,
            r.wf(),
    {
        Self { min, max }
    }

    pub fn exactly(n: usize) -> (r: Self)
        ensures
            r.min == n,
            r.max == Some(n),
            r.wf(),
    {
        Self::new(n, Some(n))
    }

    pub fn min(n: usize) -> (r: Self)
        ensures
            r.min == n,
            r.max == None::<usize>,
            r.wf(),
    {
        Self::new(n, None)
    }
}

/// Executable pattern tree.  `Group` is structurally transparent: it only
/// records grouping for quantifier binding and introduces no capture
/// semantics.
#[derive(Debug, PartialEq)]
pub enum RegexNode {
    Char(char),
    AnyChar,
    Digit,
    WordChar,
    Whitespace,
    Concat(Vec<RegexNode>),
    Alternation(Vec<RegexNode>),
    Repeat(Box<RegexNode>, RepeatRange),
    Plus(Box<RegexNode>),
    Star(Box<RegexNode>),
    Question(Box<RegexNode>),
    Group(Box<RegexNode>),
    StartLine,
    EndLine,
    StartInput,
    EndInput,
    WordBoundary,
}

/// The model of an executable pattern tree.
pub open spec fn node_view(n: RegexNode) -> RegexExp
    decreases n,
{
    match n {
        RegexNode::Char(c) => RegexExp::Char(c),
        RegexNode::AnyChar => RegexExp::AnyChar,
        RegexNode::Digit => RegexExp::Digit,
        RegexNode::WordChar => RegexExp::WordChar,
        RegexNode::Whitespace => RegexExp::Whitespace,
        RegexNode::Concat(ns) => RegexExp::Concat(nodes_view(ns@)),
        RegexNode::Alternation(ns) => RegexExp::Alternation(nodes_view(ns@)),
        RegexNode::Repeat(b, r) => RegexExp::Repeat(
            Box::new(node_view(*b)),
            r.min as nat,
            r.max_model(),
        ),
        RegexNode::Plus(b) => RegexExp::Plus(Box::new(node_view(*b))),
        RegexNode::Star(b) => RegexExp::Star(Box::new(node_view(*b))),
        RegexNode::Question(b) => RegexExp::Question(Box::new(node_view(*b))),
        RegexNode::Group(b) => RegexExp::Group(Box::new(node_view(*b))),
        RegexNode::StartLine => RegexExp::StartLine,
        RegexNode::EndLine => RegexExp::EndLine,
        RegexNode::StartInput => RegexExp::StartInput,
        RegexNode::EndInput => RegexExp::EndInput,
        RegexNode::WordBoundary => RegexExp::WordBoundary,
    }
}

/// The models of a sequence of executable pattern trees, in order.
pub open spec fn nodes_view(ns: Seq<RegexNode>) -> Seq<RegexExp>
    decreases ns,
{
    if ns.len() == 0 {
        Seq::<RegexExp>::empty()
    } else {
        seq![node_view(ns[0])] + nodes_view(ns.drop_first())
    }
}

impl View for RegexNode {
    type V = RegexExp;

    open spec fn view(&self) -> RegexExp {
        node_view(*self)
    }
}

/// `nodes_view` is pointwise `node_view`.
pub proof fn lemma_nodes_view_index(ns: Seq<RegexNode>)
    ensures
        nodes_view(ns).len() == ns.len(),
        forall|i: int| 0 <= i < ns.len() ==> nodes_view(ns)[i] == node_view(ns[i]),
    decreases ns,
{
    if ns.len() > 0 {
        lemma_nodes_view_index(ns.drop_first());
    }
}

/// `nodes_view` distributes over `push`.
pub proof fn lemma_nodes_view_push(ns: Seq<RegexNode>, n: RegexNode)
    ensures
        nodes_view(ns.push(n)) == nodes_view(ns).push(node_view(n)),
{
    lemma_nodes_view_index(ns.push(n));
    lemma_nodes_view_index(ns);
    assert(nodes_view(ns.push(n)) =~= nodes_view(ns).push(node_view(n)));
}

} // verus!
