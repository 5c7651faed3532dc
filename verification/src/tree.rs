//! The concrete parse tree: a node is labeled with a grammar rule and holds
//! either the matched text span or an ordered list of child nodes.

use vstd::prelude::*;

verus! {

broadcast use {
    vstd::std_specs::vec::axiom_vec_index_decreases,
    vstd::std_specs::vec::axiom_vec_decreases_to_view,
    vstd::seq::axiom_seq_index_decreases,
    vstd::seq::axiom_seq_subrange_decreases,
};

/// Identifiers of the grammar rules. The leaf rules under `EnglishUnit`,
/// `MetricUnit` and `ImpreciseUnit` double as the canonical unit names.
#[derive(Clone, Copy, Debug, PartialEq, Eq, Structural)]
pub enum RuleId {
    MultipartQuantity,
    QuantityFragment,
    Quantity,
    AmountWithConversion,
    AmountWithAttachedUnits,
    AmountWithMultiplier,
    AmountImprecise,
    ParenthesizedQuantity,
    Conversion,
    Amount,
    MixedNumber,
    Fraction,
    MulticharacterFraction,
    UnicodeFraction,
    Float,
    Integer,
    Separator,
    Number,
    NumberWord,
    Unit,
    EnglishUnit,
    MetricUnit,
    ImpreciseUnit,
    Ingredient,
    Cup,
    FluidOunce,
    Gallon,
    Ounce,
    Pint,
    Pound,
    Quart,
    Tablespoon,
    Teaspoon,
    Calorie,
    Gram,
    Joule,
    Kilogram,
    Kilojoule,
    Liter,
    Milligram,
    Milliliter,
    Dash,
    Handful,
    Pinch,
    Touch,
}

/// A node of the concrete parse tree.
pub enum ParseNode {
    Leaf { rule: RuleId, text: Vec<char> },
    Branch { rule: RuleId, children: Vec<ParseNode> },
}

/// The mathematical shape of a parse tree node.
#[verifier::ext_equal]
pub ghost enum SNode {
    Leaf { rule: RuleId, text: Seq<char> },
    Branch { rule: RuleId, children: Seq<SNode> },
}

pub open spec fn node_view(n: ParseNode) -> SNode
    decreases n,
{
    match n {
        ParseNode::Leaf { rule, text } => SNode::Leaf { rule, text: text@ },
        ParseNode::Branch { rule, children } => SNode::Branch {
            rule,
            children: seq_node_view(children@),
        },
    }
}

pub open spec fn seq_node_view(s: Seq<ParseNode>) -> Seq<SNode>
    decreases s,
{
    if s.len() == 0 {
        Seq::empty()
    } else {
        seq_node_view(s.subrange(0, s.len() - 1)).push(node_view(s[s.len() - 1]))
    }
}

impl View for ParseNode {
    type V = SNode;

    open spec fn view(&self) -> SNode {
        node_view(*self)
    }
}

impl SNode {
    pub open spec fn rule(self) -> RuleId {
        match self {
            SNode::Leaf { rule, .. } => rule,
            SNode::Branch { rule, .. } => rule,
        }
    }
}

impl ParseNode {
    /// The rule that labels this node.
    pub fn rule(&self) -> (r: RuleId)
        ensures
            r == self@.rule(),
    {
        match self {
            ParseNode::Leaf { rule, .. } => *rule,
            ParseNode::Branch { rule, .. } => *rule,
        }
    }
}

/// The views of a list of nodes.
pub open spec fn nodes_view(v: Seq<ParseNode>) -> Seq<SNode> {
    seq_node_view(v)
}

/// Pointwise description of `seq_node_view`.
pub proof fn lemma_seq_node_view(s: Seq<ParseNode>)
    ensures
        seq_node_view(s).len() == s.len(),
        forall|i: int| 0 <= i < s.len() ==> seq_node_view(s)[i] == node_view(s[i]),
    decreases s.len(),
{
    if s.len() > 0 {
        lemma_seq_node_view(s.subrange(0, s.len() - 1));
    }
}

/// A leaf node holding the text span `text`.
pub fn leaf(rule: RuleId, text: Vec<char>) -> (r: ParseNode)
    ensures
        r@ == (SNode::Leaf { rule, text: text@ }),
{
    ParseNode::Leaf { rule, text }
}

/// A branch node with a single child.
pub fn branch1(rule: RuleId, a: ParseNode) -> (r: ParseNode)
    ensures
        r@ == (SNode::Branch { rule, children: seq![a@] }),
{
    let ghost ga = a@;
    let children = vec![a];
    let ghost gcs = children@;
    let r = ParseNode::Branch { rule, children };
    proof {
        lemma_seq_node_view(gcs);
        assert(seq_node_view(gcs) =~= seq![ga]);
    }
    r
}

/// A branch node with two children.
pub fn branch2(rule: RuleId, a: ParseNode, b: ParseNode) -> (r: ParseNode)
    ensures
        r@ == (SNode::Branch { rule, children: seq![a@, b@] }),
{
    let ghost ga = a@;
    let ghost gb = b@;
    let children = vec![a, b];
    let ghost gcs = children@;
    let r = ParseNode::Branch { rule, children };
    proof {
        lemma_seq_node_view(gcs);
        assert(seq_node_view(gcs) =~= seq![ga, gb]);
    }
    r
}

/// A branch node with three children.
pub fn branch3(rule: RuleId, a: ParseNode, b: ParseNode, c: ParseNode) -> (r: ParseNode)
    ensures
        r@ == (SNode::Branch { rule, children: seq![a@, b@, c@] }),
{
    let ghost ga = a@;
    let ghost gb = b@;
    let ghost gc = c@;
    let children = vec![a, b, c];
    let ghost gcs = children@;
    let r = ParseNode::Branch { rule, children };
    proof {
        lemma_seq_node_view(gcs);
        assert(seq_node_view(gcs) =~= seq![ga, gb, gc]);
    }
    r
}

} // verus!
