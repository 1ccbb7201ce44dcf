//! The trigger rule: a tree of predicates on one listing, joined by
//! conjunction, disjunction and negation, together with the mode in which the
//! tree is applied to a whole set of listings.

use vstd::prelude::*;
use crate::listing::Listing;

verus! {

/// The attribute of a listing that a predicate reads.
#[derive(Clone, Copy, Debug, PartialEq, Eq, Structural)]
pub enum Field {
    Price,
    Quantity,
    Quality,
}

/// The relation between the attribute and the threshold.
#[derive(Clone, Copy, Debug, PartialEq, Eq, Structural)]
pub enum Comparator {
    Less,
    LessOrEqual,
    Equal,
    GreaterOrEqual,
    Greater,
}

/// How a rule is applied to a set of listings.
#[derive(Clone, Copy, Debug, PartialEq, Eq, Structural)]
pub enum Aggregation {
    /// At least one listing satisfies the tree.
    Any,
    /// Every listing satisfies the tree, and there is at least one.
    All,
}

/// A node of the rule tree.
#[derive(Debug)]
pub enum Node {
    Predicate { field: Field, op: Comparator, threshold: i32 },
    And(NodeList),
    Or(NodeList),
    Not(Box<Node>),
}

/// The children of a combinator, in order.
#[derive(Debug)]
pub enum NodeList {
    Nil,
    Cons(Box<Node>, Box<NodeList>),
}

/// A rule tree with its aggregation mode.
#[derive(Debug)]
pub struct TriggerRule {
    pub aggregation: Aggregation,
    pub root: Node,
}

/// The value of a field on a listing. The quality flag reads as 0 or 1.
pub open spec fn field_value(field: Field, listing: Listing) -> int {
    match field {
        Field::Price => listing.price_per_unit as int,
        Field::Quantity => listing.quantity as int,
        Field::Quality => if listing.hq { 1 } else { 0 },
    }
}

/// Whether `value op threshold` holds, under the order of the integers.
pub open spec fn compare(op: Comparator, value: int, threshold: int) -> bool {
    match op {
        Comparator::Less => value < threshold,
        Comparator::LessOrEqual => value <= threshold,
        Comparator::Equal => value == threshold,
        Comparator::GreaterOrEqual => value >= threshold,
        Comparator::Greater => value > threshold,
    }
}

/// Whether a listing satisfies a node.
pub open spec fn node_holds(node: Node, listing: Listing) -> bool
    decreases node,
{
    match node {
        Node::Predicate { field, op, threshold } => compare(
            op,
            field_value(field, listing),
            threshold as int,
        ),
        Node::And(children) => all_hold(children, listing),
        Node::Or(children) => some_holds(children, listing),
        Node::Not(child) => !node_holds(*child, listing),
    }
}

/// Whether a listing satisfies every node of a list; true of the empty list.
pub open spec fn all_hold(list: NodeList, listing: Listing) -> bool
    decreases list,
{
    match list {
        NodeList::Nil => true,
        NodeList::Cons(head, tail) => node_holds(*head, listing) && all_hold(*tail, listing),
    }
}

/// Whether a listing satisfies at least one node of a list; false of the
/// empty list.
pub open spec fn some_holds(list: NodeList, listing: Listing) -> bool
    decreases list,
{
    match list {
        NodeList::Nil => false,
        NodeList::Cons(head, tail) => node_holds(*head, listing) || some_holds(*tail, listing),
    }
}

/// The list that holds the nodes of `nodes` from index `from` on, in order.
pub open spec fn list_from(nodes: Seq<Node>, from: int) -> NodeList
    decreases nodes.len() - from,
{
    if 0 <= from < nodes.len() {
        NodeList::Cons(Box::new(nodes[from]), Box::new(list_from(nodes, from + 1)))
    } else {
        NodeList::Nil
    }
}

impl Field {
    pub fn read(self, listing: &Listing) -> (v: i32)
        ensures
            v == field_value(self, *listing),
    {
        match self {
            Field::Price => listing.price_per_unit,
            Field::Quantity => listing.quantity,
            Field::Quality => if listing.hq { 1 } else { 0 },
        }
    }
}

impl Comparator {
    pub fn test(self, value: i32, threshold: i32) -> (b: bool)
        ensures
            b == compare(self, value as int, threshold as int),
    {
        match self {
            Comparator::Less => value < threshold,
            Comparator::LessOrEqual => value <= threshold,
            Comparator::Equal => value == threshold,
            Comparator::GreaterOrEqual => value >= threshold,
            Comparator::Greater => value > threshold,
        }
    }
}

impl NodeList {
    /// The list of the given nodes, in their order.
    pub fn from_vec(nodes: Vec<Node>) -> (list: NodeList)
        ensures
            list == list_from(nodes@, 0),
    {
        let mut nodes = nodes;
        let ghost all = nodes@;
        let mut list = NodeList::Nil;
        while nodes.len() > 0
            invariant
                nodes@.len() <= all.len(),
                nodes@ == all.subrange(0, nodes@.len() as int),
                list == list_from(all, nodes@.len() as int),
            decreases nodes.len(),
        {
            let ghost before = nodes@;
            let node = nodes.pop().unwrap();
            proof {
                assert(node == all[nodes@.len() as int]) by {
                    assert(before[before.len() - 1] == all[before.len() - 1]);
                }
                assert(nodes@ =~= all.subrange(0, nodes@.len() as int));
            }
            list = NodeList::Cons(Box::new(node), Box::new(list));
        }
        list
    }

    /// Whether the listing satisfies every node of the list.
    pub fn all_hold(&self, listing: &Listing) -> (b: bool)
        ensures
            b == all_hold(*self, *listing),
        decreases self,
    {
        match self {
            NodeList::Nil => true,
            NodeList::Cons(head, tail) => {
                let first = head.holds(listing);
                let rest = tail.all_hold(listing);
                first && rest
            },
        }
    }

    /// Whether the listing satisfies at least one node of the list.
    pub fn some_holds(&self, listing: &Listing) -> (b: bool)
        ensures
            b == some_holds(*self, *listing),
        decreases self,
    {
        match self {
            NodeList::Nil => false,
            NodeList::Cons(head, tail) => {
                let first = head.holds(listing);
                let rest = tail.some_holds(listing);
                first || rest
            },
        }
    }
}

impl Node {
    pub fn predicate(field: Field, op: Comparator, threshold: i32) -> (node: Node)
        ensures
            node == (Node::Predicate { field, op, threshold }),
    {
        Node::Predicate { field, op, threshold }
    }

    /// The conjunction of the given nodes.
    pub fn and(children: Vec<Node>) -> (node: Node)
        ensures
            node == Node::And(list_from(children@, 0)),
    {
        Node::And(NodeList::from_vec(children))
    }

    /// The disjunction of the given nodes.
    pub fn or(children: Vec<Node>) -> (node: Node)
        ensures
            node == Node::Or(list_from(children@, 0)),
    {
        Node::Or(NodeList::from_vec(children))
    }

    /// The negation of the given node.
    pub fn not(child: Node) -> (node: Node)
        ensures
            node == Node::Not(Box::new(child)),
    {
        Node::Not(Box::new(child))
    }

    /// Whether the listing satisfies the node.
    pub fn holds(&self, listing: &Listing) -> (b: bool)
        ensures
            b == node_holds(*self, *listing),
        decreases self,
    {
        match self {
            Node::Predicate { field, op, threshold } => op.test(field.read(listing), *threshold),
            Node::And(children) => children.all_hold(listing),
            Node::Or(children) => children.some_holds(listing),
            Node::Not(child) => !child.holds(listing),
        }
    }
}

impl TriggerRule {
    pub fn new(aggregation: Aggregation, root: Node) -> (rule: TriggerRule)
        ensures
            rule.aggregation == aggregation,
            rule.root == root,
    {
        TriggerRule { aggregation, root }
    }
}

/// A predicate holds of a listing exactly when the listing's field stands in
/// the predicate's relation to the threshold.
pub proof fn predicate_holds_iff_comparison(
    field: Field,
    op: Comparator,
    threshold: i32,
    listing: Listing,
)
    ensures
        node_holds(Node::Predicate { field, op, threshold }, listing) == compare(
            op,
            field_value(field, listing),
            threshold as int,
        ),
{
}

/// The empty conjunction holds of every listing, the empty disjunction of
/// none.
pub proof fn empty_combinators(listing: Listing)
    ensures
        node_holds(Node::And(NodeList::Nil), listing),
        !node_holds(Node::Or(NodeList::Nil), listing),
{
    assert(all_hold(NodeList::Nil, listing));
    assert(!some_holds(NodeList::Nil, listing));
}

/// Negating a node twice gives a node that holds of the same listings.
pub proof fn double_negation(node: Node, listing: Listing)
    ensures
        node_holds(Node::Not(Box::new(Node::Not(Box::new(node)))), listing) == node_holds(
            node,
            listing,
        ),
{
    reveal_with_fuel(node_holds, 3);
}

} // verus!
