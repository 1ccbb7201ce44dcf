//! The stored text of a trigger rule.
//!
//! A rule is written in ASCII, in prefix form:
//!
//! ```text
//! rule      := mode node
//! mode      := '?'            any listing
//!            | '*'            all listings
//! node      := 'p' field op threshold
//!            | '&' list       conjunction
//!            | '|' list       disjunction
//!            | '!' node       negation
//! list      := '.'            no further child
//!            | ',' node list
//! field     := 'p' | 'q' | 'h'
//! op        := '<' | 'l' | '=' | 'g' | '>'
//! threshold := eight lower-case hexadecimal digits
//! ```
//!
//! The threshold is written in excess notation: the digits give the threshold
//! plus 2^31, so that every 32-bit threshold has exactly one text. Every rule
//! has exactly one text, and a text that is none of a rule is rejected.

use vstd::prelude::*;
use crate::engine::reported_price;
use crate::listing::Listing;
use crate::rule::{Aggregation, Comparator, Field, Node, NodeList, TriggerRule};

verus! {

pub const MODE_ANY: u8 = 63;

pub const MODE_ALL: u8 = 42;

pub const TAG_PREDICATE: u8 = 112;

pub const TAG_AND: u8 = 38;

pub const TAG_OR: u8 = 124;

pub const TAG_NOT: u8 = 33;

pub const LIST_END: u8 = 46;

pub const LIST_ITEM: u8 = 44;

/// The length of a predicate's text: tag, field, comparator, eight digits.
pub const PREDICATE_LEN: usize = 11;

/// The offset that makes a threshold non-negative: 2^31.
pub const EXCESS: i64 = 0x8000_0000;

pub open spec fn field_code(field: Field) -> u8 {
    match field {
        Field::Price => 112,
        Field::Quantity => 113,
        Field::Quality => 104,
    }
}

pub open spec fn field_of_code(code: u8) -> Option<Field> {
    if code == 112 {
        Some(Field::Price)
    } else if code == 113 {
        Some(Field::Quantity)
    } else if code == 104 {
        Some(Field::Quality)
    } else {
        None
    }
}

pub open spec fn op_code(op: Comparator) -> u8 {
    match op {
        Comparator::Less => 60,
        Comparator::LessOrEqual => 108,
        Comparator::Equal => 61,
        Comparator::GreaterOrEqual => 103,
        Comparator::Greater => 62,
    }
}

pub open spec fn op_of_code(code: u8) -> Option<Comparator> {
    if code == 60 {
        Some(Comparator::Less)
    } else if code == 108 {
        Some(Comparator::LessOrEqual)
    } else if code == 61 {
        Some(Comparator::Equal)
    } else if code == 103 {
        Some(Comparator::GreaterOrEqual)
    } else if code == 62 {
        Some(Comparator::Greater)
    } else {
        None
    }
}

pub open spec fn mode_code(mode: Aggregation) -> u8 {
    match mode {
        Aggregation::Any => MODE_ANY,
        Aggregation::All => MODE_ALL,
    }
}

pub open spec fn mode_of_code(code: u8) -> Option<Aggregation> {
    if code == MODE_ANY {
        Some(Aggregation::Any)
    } else if code == MODE_ALL {
        Some(Aggregation::All)
    } else {
        None
    }
}

/// The digit character of a value below sixteen.
pub open spec fn hex_digit(n: int) -> u8 {
    if n < 10 {
        (48 + n) as u8
    } else {
        (87 + n) as u8
    }
}

/// The value of a digit character, if it is one.
pub open spec fn hex_value(c: u8) -> Option<int> {
    if 48 <= c <= 57 {
        Some(c - 48)
    } else if 97 <= c <= 102 {
        Some(c - 87)
    } else {
        None
    }
}

/// The eight digits of a threshold.
pub open spec fn threshold_text(threshold: i32) -> Seq<u8> {
    let u = threshold + EXCESS;
    let q1 = u / 16;
    let q2 = q1 / 16;
    let q3 = q2 / 16;
    let q4 = q3 / 16;
    let q5 = q4 / 16;
    let q6 = q5 / 16;
    let q7 = q6 / 16;
    seq![
        hex_digit(q7 % 16),
        hex_digit(q6 % 16),
        hex_digit(q5 % 16),
        hex_digit(q4 % 16),
        hex_digit(q3 % 16),
        hex_digit(q2 % 16),
        hex_digit(q1 % 16),
        hex_digit(u % 16),
    ]
}

/// The threshold whose eight digits stand at `pos`, if eight digits stand
/// there.
pub open spec fn threshold_at(s: Seq<u8>, pos: int) -> Option<i32> {
    if 0 <= pos && pos + 8 <= s.len() && (forall|k: int| 0 <= k < 8 ==> hex_value(#[trigger] s[pos + k]) is Some) {
        Some(
            (hex_value(s[pos])->0 * 0x1000_0000 + hex_value(s[pos + 1])->0 * 0x100_0000
                + hex_value(s[pos + 2])->0 * 0x10_0000 + hex_value(s[pos + 3])->0 * 0x1_0000
                + hex_value(s[pos + 4])->0 * 0x1000 + hex_value(s[pos + 5])->0 * 0x100
                + hex_value(s[pos + 6])->0 * 0x10 + hex_value(s[pos + 7])->0 - EXCESS) as i32,
        )
    } else {
        None
    }
}

/// The text of a node.
pub open spec fn node_text(node: Node) -> Seq<u8>
    decreases node,
{
    match node {
        Node::Predicate { field, op, threshold } => seq![
            TAG_PREDICATE,
            field_code(field),
            op_code(op),
        ] + threshold_text(threshold),
        Node::And(children) => seq![TAG_AND] + list_text(children),
        Node::Or(children) => seq![TAG_OR] + list_text(children),
        Node::Not(child) => seq![TAG_NOT] + node_text(*child),
    }
}

/// The text of the children of a combinator.
pub open spec fn list_text(list: NodeList) -> Seq<u8>
    decreases list,
{
    match list {
        NodeList::Nil => seq![LIST_END],
        NodeList::Cons(head, tail) => seq![LIST_ITEM] + node_text(*head) + list_text(*tail),
    }
}

/// The text of a rule.
pub open spec fn rule_text(rule: TriggerRule) -> Seq<u8> {
    seq![mode_code(rule.aggregation)] + node_text(rule.root)
}

/// The node whose text starts at `pos`, with the position behind it.
pub open spec fn parse_node(s: Seq<u8>, pos: int) -> Option<(Node, int)>
    decreases s.len() - pos,
{
    if pos < 0 || pos >= s.len() {
        None
    } else if s[pos] == TAG_PREDICATE {
        if pos + PREDICATE_LEN <= s.len() {
            match (field_of_code(s[pos + 1]), op_of_code(s[pos + 2]), threshold_at(s, pos + 3)) {
                (Some(field), Some(op), Some(threshold)) => Some(
                    (Node::Predicate { field, op, threshold }, pos + PREDICATE_LEN),
                ),
                _ => None,
            }
        } else {
            None
        }
    } else if s[pos] == TAG_AND {
        match parse_list(s, pos + 1) {
            Some((children, end)) => Some((Node::And(children), end)),
            None => None,
        }
    } else if s[pos] == TAG_OR {
        match parse_list(s, pos + 1) {
            Some((children, end)) => Some((Node::Or(children), end)),
            None => None,
        }
    } else if s[pos] == TAG_NOT {
        match parse_node(s, pos + 1) {
            Some((child, end)) => Some((Node::Not(Box::new(child)), end)),
            None => None,
        }
    } else {
        None
    }
}

/// The list of children whose text starts at `pos`, with the position behind
/// it.
pub open spec fn parse_list(s: Seq<u8>, pos: int) -> Option<(NodeList, int)>
    decreases s.len() - pos,
{
    if pos < 0 || pos >= s.len() {
        None
    } else if s[pos] == LIST_END {
        Some((NodeList::Nil, pos + 1))
    } else if s[pos] == LIST_ITEM {
        match parse_node(s, pos + 1) {
            Some((head, mid)) => if pos < mid <= s.len() {
                match parse_list(s, mid) {
                    Some((tail, end)) => Some(
                        (NodeList::Cons(Box::new(head), Box::new(tail)), end),
                    ),
                    None => None,
                }
            } else {
                None
            },
            None => None,
        }
    } else {
        None
    }
}

/// The rule that a text stands for, if it is the text of a rule.
pub open spec fn parse_rule(s: Seq<u8>) -> Option<TriggerRule> {
    if s.len() == 0 {
        None
    } else {
        match (mode_of_code(s[0]), parse_node(s, 1)) {
            (Some(aggregation), Some((root, end))) => if end == s.len() {
                Some(TriggerRule { aggregation, root })
            } else {
                None
            },
            _ => None,
        }
    }
}

/// The digit character of a value below sixteen.
fn digit_of(n: u32) -> (c: u8)
    requires
        n < 16,
    ensures
        c == hex_digit(n as int),
{
    if n < 10 {
        (48 + n) as u8
    } else {
        (87 + n) as u8
    }
}

/// The value of a digit character, if it is one.
fn value_of(c: u8) -> (v: Option<u32>)
    ensures
        v is Some == hex_value(c) is Some,
        v matches Some(n) ==> n == hex_value(c)->0 && n < 16,
{
    if 48 <= c && c <= 57 {
        Some((c - 48) as u32)
    } else if 97 <= c && c <= 102 {
        Some((c - 87) as u32)
    } else {
        None
    }
}

fn write_threshold(threshold: i32, out: &mut Vec<u8>)
    ensures
        final(out)@ == old(out)@ + threshold_text(threshold),
{
    let u: u32 = (threshold as i64 + EXCESS) as u32;
    let q1: u32 = u / 16;
    let q2: u32 = q1 / 16;
    let q3: u32 = q2 / 16;
    let q4: u32 = q3 / 16;
    let q5: u32 = q4 / 16;
    let q6: u32 = q5 / 16;
    let q7: u32 = q6 / 16;
    out.push(digit_of(q7 % 16));
    out.push(digit_of(q6 % 16));
    out.push(digit_of(q5 % 16));
    out.push(digit_of(q4 % 16));
    out.push(digit_of(q3 % 16));
    out.push(digit_of(q2 % 16));
    out.push(digit_of(q1 % 16));
    out.push(digit_of(u % 16));
    proof {
        assert(out@ =~= old(out)@ + threshold_text(threshold));
    }
}

/// The value of the digit character at `at`, if it is one.
fn digit_at(bytes: &[u8], at: usize) -> (v: Option<u32>)
    requires
        at < bytes@.len(),
    ensures
        v is Some == hex_value(bytes@[at as int]) is Some,
        v matches Some(n) ==> n == hex_value(bytes@[at as int])->0 && n < 16,
{
    value_of(bytes[at])
}

fn read_threshold(bytes: &[u8], pos: usize) -> (t: Option<i32>)
    requires
        pos + 8 <= bytes@.len(),
        pos + 8 <= usize::MAX,
    ensures
        t == threshold_at(bytes@, pos as int),
{
    let digits = (
        digit_at(bytes, pos),
        digit_at(bytes, pos + 1),
        digit_at(bytes, pos + 2),
        digit_at(bytes, pos + 3),
        digit_at(bytes, pos + 4),
        digit_at(bytes, pos + 5),
        digit_at(bytes, pos + 6),
        digit_at(bytes, pos + 7),
    );
    match digits {
        (Some(d0), Some(d1), Some(d2), Some(d3), Some(d4), Some(d5), Some(d6), Some(d7)) => {
            let u: u32 = d0 * 0x1000_0000 + d1 * 0x100_0000 + d2 * 0x10_0000 + d3 * 0x1_0000 + d4 * 0x1000
                + d5 * 0x100 + d6 * 0x10 + d7;
            proof {
                assert forall|k: int| 0 <= k < 8 implies hex_value(#[trigger] bytes@[pos + k]) is Some by {
                    assert(k == 0 || k == 1 || k == 2 || k == 3 || k == 4 || k == 5 || k == 6 || k == 7);
                }
            }
            Some((u as i64 - EXCESS) as i32)
        },
        _ => {
            proof {
                assert(hex_value(bytes@[pos + 0]) is None || hex_value(bytes@[pos + 1]) is None || hex_value(
                    bytes@[pos + 2],
                ) is None || hex_value(bytes@[pos + 3]) is None || hex_value(bytes@[pos + 4]) is None
                    || hex_value(bytes@[pos + 5]) is None || hex_value(bytes@[pos + 6]) is None || hex_value(
                    bytes@[pos + 7],
                ) is None);
            }
            None
        },
    }
}

impl Field {
    fn code(self) -> (c: u8)
        ensures
            c == field_code(self),
    {
        match self {
            Field::Price => 112,
            Field::Quantity => 113,
            Field::Quality => 104,
        }
    }

    fn of_code(code: u8) -> (f: Option<Field>)
        ensures
            f == field_of_code(code),
    {
        if code == 112 {
            Some(Field::Price)
        } else if code == 113 {
            Some(Field::Quantity)
        } else if code == 104 {
            Some(Field::Quality)
        } else {
            None
        }
    }
}

impl Comparator {
    fn code(self) -> (c: u8)
        ensures
            c == op_code(self),
    {
        match self {
            Comparator::Less => 60,
            Comparator::LessOrEqual => 108,
            Comparator::Equal => 61,
            Comparator::GreaterOrEqual => 103,
            Comparator::Greater => 62,
        }
    }

    fn of_code(code: u8) -> (op: Option<Comparator>)
        ensures
            op == op_of_code(code),
    {
        if code == 60 {
            Some(Comparator::Less)
        } else if code == 108 {
            Some(Comparator::LessOrEqual)
        } else if code == 61 {
            Some(Comparator::Equal)
        } else if code == 103 {
            Some(Comparator::GreaterOrEqual)
        } else if code == 62 {
            Some(Comparator::Greater)
        } else {
            None
        }
    }
}

impl NodeList {
    /// Appends the text of the list.
    pub fn write_text(&self, out: &mut Vec<u8>)
        ensures
            final(out)@ == old(out)@ + list_text(*self),
        decreases self,
    {
        match self {
            NodeList::Nil => {
                out.push(LIST_END);
                proof {
                    assert(out@ =~= old(out)@ + list_text(*self));
                }
            },
            NodeList::Cons(head, tail) => {
                out.push(LIST_ITEM);
                head.write_text(out);
                tail.write_text(out);
                proof {
                    assert(out@ =~= old(out)@ + list_text(*self));
                }
            },
        }
    }

    /// Reads the list whose text starts at `pos`; gives it with the position
    /// behind it.
    pub fn read_text(bytes: &[u8], pos: usize) -> (r: Option<(NodeList, usize)>)
        ensures
            r is Some == parse_list(bytes@, pos as int) is Some,
            r matches Some((list, end)) ==> parse_list(bytes@, pos as int) == Some((list, end as int))
                && pos < end <= bytes@.len(),
        decreases bytes@.len() - pos,
    {
        if pos >= bytes.len() {
            return None;
        }
        let tag = bytes[pos];
        if tag == LIST_END {
            Some((NodeList::Nil, pos + 1))
        } else if tag == LIST_ITEM {
            match Node::read_text(bytes, pos + 1) {
                Some((head, mid)) => match NodeList::read_text(bytes, mid) {
                    Some((tail, end)) => Some((NodeList::Cons(Box::new(head), Box::new(tail)), end)),
                    None => None,
                },
                None => None,
            }
        } else {
            None
        }
    }
}

impl Node {
    /// Appends the text of the node.
    pub fn write_text(&self, out: &mut Vec<u8>)
        ensures
            final(out)@ == old(out)@ + node_text(*self),
        decreases self,
    {
        match self {
            Node::Predicate { field, op, threshold } => {
                out.push(TAG_PREDICATE);
                out.push(field.code());
                out.push(op.code());
                write_threshold(*threshold, out);
            },
            Node::And(children) => {
                out.push(TAG_AND);
                children.write_text(out);
            },
            Node::Or(children) => {
                out.push(TAG_OR);
                children.write_text(out);
            },
            Node::Not(child) => {
                out.push(TAG_NOT);
                child.write_text(out);
            },
        }
        proof {
            assert(out@ =~= old(out)@ + node_text(*self));
        }
    }

    /// Reads the node whose text starts at `pos`; gives it with the position
    /// behind it.
    pub fn read_text(bytes: &[u8], pos: usize) -> (r: Option<(Node, usize)>)
        ensures
            r is Some == parse_node(bytes@, pos as int) is Some,
            r matches Some((node, end)) ==> parse_node(bytes@, pos as int) == Some((node, end as int))
                && pos < end <= bytes@.len(),
        decreases bytes@.len() - pos,
    {
        if pos >= bytes.len() {
            return None;
        }
        let tag = bytes[pos];
        if tag == TAG_PREDICATE {
            if bytes.len() - pos < PREDICATE_LEN {
                return None;
            }
            let field = Field::of_code(bytes[pos + 1]);
            let op = Comparator::of_code(bytes[pos + 2]);
            let threshold = read_threshold(bytes, pos + 3);
            match (field, op, threshold) {
                (Some(field), Some(op), Some(threshold)) => Some(
                    (Node::Predicate { field, op, threshold }, pos + PREDICATE_LEN),
                ),
                _ => None,
            }
        } else if tag == TAG_AND {
            match NodeList::read_text(bytes, pos + 1) {
                Some((children, end)) => Some((Node::And(children), end)),
                None => None,
            }
        } else if tag == TAG_OR {
            match NodeList::read_text(bytes, pos + 1) {
                Some((children, end)) => Some((Node::Or(children), end)),
                None => None,
            }
        } else if tag == TAG_NOT {
            match Node::read_text(bytes, pos + 1) {
                Some((child, end)) => Some((Node::Not(Box::new(child)), end)),
                None => None,
            }
        } else {
            None
        }
    }
}

impl Aggregation {
    fn code(self) -> (c: u8)
        ensures
            c == mode_code(self),
    {
        match self {
            Aggregation::Any => MODE_ANY,
            Aggregation::All => MODE_ALL,
        }
    }

    fn of_code(code: u8) -> (m: Option<Aggregation>)
        ensures
            m == mode_of_code(code),
    {
        if code == MODE_ANY {
            Some(Aggregation::Any)
        } else if code == MODE_ALL {
            Some(Aggregation::All)
        } else {
            None
        }
    }
}

impl TriggerRule {
    /// The text of the rule.
    pub fn serialize(&self) -> (out: Vec<u8>)
        ensures
            out@ == rule_text(*self),
    {
        let mut out: Vec<u8> = Vec::new();
        out.push(self.aggregation.code());
        self.root.write_text(&mut out);
        proof {
            assert(out@ =~= rule_text(*self));
        }
        out
    }

    /// The rule that the text stands for, or `None` where it is the text of
    /// no rule.
    pub fn parse(bytes: &[u8]) -> (r: Option<TriggerRule>)
        ensures
            r == parse_rule(bytes@),
    {
        if bytes.len() == 0 {
            return None;
        }
        let mode = Aggregation::of_code(bytes[0]);
        let node = Node::read_text(bytes, 1);
        match (mode, node) {
            (Some(aggregation), Some((root, end))) => {
                if end == bytes.len() {
                    Some(TriggerRule { aggregation, root })
                } else {
                    None
                }
            },
            _ => None,
        }
    }
}

/// A digit character stands for the value it was written for.
pub proof fn digit_round_trip(n: int)
    requires
        0 <= n < 16,
    ensures
        hex_value(hex_digit(n)) == Some(n),
{
}

/// Reading the digits of a threshold gives the threshold back.
pub proof fn threshold_round_trip(threshold: i32, s: Seq<u8>, pos: int)
    requires
        0 <= pos,
        pos + 8 <= s.len(),
        s.subrange(pos, pos + 8) == threshold_text(threshold),
    ensures
        threshold_at(s, pos) == Some(threshold),
{
    let u = threshold + EXCESS;
    let t = threshold_text(threshold);
    assert forall|k: int| 0 <= k < 8 implies s[pos + k] == t[k] by {
        assert(s.subrange(pos, pos + 8)[k] == s[pos + k]);
    }
    let q1 = u / 16;
    let q2 = q1 / 16;
    let q3 = q2 / 16;
    let q4 = q3 / 16;
    let q5 = q4 / 16;
    let q6 = q5 / 16;
    let q7 = q6 / 16;
    assert(s[pos + 0] == t[0] && s[pos + 1] == t[1] && s[pos + 2] == t[2] && s[pos + 3] == t[3]);
    assert(s[pos + 4] == t[4] && s[pos + 5] == t[5] && s[pos + 6] == t[6] && s[pos + 7] == t[7]);
    digit_round_trip(q7 % 16);
    digit_round_trip(q6 % 16);
    digit_round_trip(q5 % 16);
    digit_round_trip(q4 % 16);
    digit_round_trip(q3 % 16);
    digit_round_trip(q2 % 16);
    digit_round_trip(q1 % 16);
    digit_round_trip(u % 16);
    assert forall|k: int| 0 <= k < 8 implies hex_value(#[trigger] s[pos + k]) is Some by {
        assert(s[pos + k] == t[k]);
    }
}

/// A part of a text that stands in a longer text stands there too.
proof fn part_stands(s: Seq<u8>, pos: int, whole: Seq<u8>, from: int, part: Seq<u8>)
    requires
        0 <= pos,
        pos + whole.len() <= s.len(),
        s.subrange(pos, pos + whole.len()) == whole,
        0 <= from,
        from + part.len() <= whole.len(),
        whole.subrange(from, from + part.len()) == part,
    ensures
        s.subrange(pos + from, pos + from + part.len()) == part,
{
    assert(s.subrange(pos + from, pos + from + part.len()) =~= s.subrange(pos, pos + whole.len()).subrange(
        from,
        from + part.len(),
    ));
}

/// The byte of a text that stands in a longer text stands there too.
proof fn byte_stands(s: Seq<u8>, pos: int, whole: Seq<u8>, k: int)
    requires
        0 <= pos,
        pos + whole.len() <= s.len(),
        s.subrange(pos, pos + whole.len()) == whole,
        0 <= k < whole.len(),
    ensures
        s[pos + k] == whole[k],
{
    assert(s.subrange(pos, pos + whole.len())[k] == s[pos + k]);
}

/// Reading the text of a predicate, wherever it stands, gives the predicate
/// back.
proof fn predicate_round_trip(field: Field, op: Comparator, threshold: i32, s: Seq<u8>, pos: int)
    requires
        0 <= pos,
        pos + 11 <= s.len(),
        s.subrange(pos, pos + 11) == node_text(Node::Predicate { field, op, threshold }),
    ensures
        parse_node(s, pos) == Some((Node::Predicate { field, op, threshold }, pos + 11)),
{
    let text = node_text(Node::Predicate { field, op, threshold });
    let digits = threshold_text(threshold);
    assert(text.len() == 11);
    byte_stands(s, pos, text, 0);
    byte_stands(s, pos, text, 1);
    byte_stands(s, pos, text, 2);
    assert(text.subrange(3, 11) =~= digits);
    part_stands(s, pos, text, 3, digits);
    threshold_round_trip(threshold, s, pos + 3);
}

/// Reading the text of a node, wherever it stands, gives the node back and
/// stops behind the text.
pub proof fn node_round_trip(node: Node, s: Seq<u8>, pos: int)
    requires
        0 <= pos,
        pos + node_text(node).len() <= s.len(),
        s.subrange(pos, pos + node_text(node).len()) == node_text(node),
    ensures
        parse_node(s, pos) == Some((node, pos + node_text(node).len())),
        node_text(node).len() > 0,
    decreases node,
{
    let text = node_text(node);
    byte_stands(s, pos, text, 0);
    match node {
        Node::Predicate { field, op, threshold } => {
            predicate_round_trip(field, op, threshold, s, pos);
        },
        Node::And(children) => {
            let part = list_text(children);
            assert(text.subrange(1, 1 + part.len() as int) =~= part);
            part_stands(s, pos, text, 1, part);
            list_round_trip(children, s, pos + 1);
        },
        Node::Or(children) => {
            let part = list_text(children);
            assert(text.subrange(1, 1 + part.len() as int) =~= part);
            part_stands(s, pos, text, 1, part);
            list_round_trip(children, s, pos + 1);
        },
        Node::Not(child) => {
            let part = node_text(*child);
            assert(text.subrange(1, 1 + part.len() as int) =~= part);
            part_stands(s, pos, text, 1, part);
            node_round_trip(*child, s, pos + 1);
        },
    }
}

/// Reading the text of a list of children, wherever it stands, gives the list
/// back and stops behind the text.
pub proof fn list_round_trip(list: NodeList, s: Seq<u8>, pos: int)
    requires
        0 <= pos,
        pos + list_text(list).len() <= s.len(),
        s.subrange(pos, pos + list_text(list).len()) == list_text(list),
    ensures
        parse_list(s, pos) == Some((list, pos + list_text(list).len())),
        list_text(list).len() > 0,
    decreases list,
{
    let text = list_text(list);
    byte_stands(s, pos, text, 0);
    match list {
        NodeList::Nil => {},
        NodeList::Cons(head, tail) => {
            let h = node_text(*head);
            let t = list_text(*tail);
            assert(text.subrange(1, 1 + h.len() as int) =~= h);
            part_stands(s, pos, text, 1, h);
            node_round_trip(*head, s, pos + 1);
            assert(text.subrange(1 + h.len() as int, 1 + h.len() as int + t.len() as int) =~= t);
            part_stands(s, pos, text, 1 + h.len() as int, t);
            list_round_trip(*tail, s, pos + 1 + h.len());
        },
    }
}

/// Reading the text of a rule gives the rule back: the same tree in the same
/// mode, which therefore fires on the same listings and reports the same
/// listing.
pub proof fn rule_round_trip(rule: TriggerRule)
    ensures
        parse_rule(rule_text(rule)) == Some(rule),
{
    let s = rule_text(rule);
    assert(s.subrange(1, 1 + node_text(rule.root).len() as int) =~= node_text(rule.root));
    node_round_trip(rule.root, s, 1);
}

/// A digit character is the character of its value.
pub proof fn digit_of_value(c: u8)
    requires
        hex_value(c) is Some,
    ensures
        hex_digit(hex_value(c)->0) == c,
        0 <= hex_value(c)->0 < 16,
{
}

/// The eight digits that were read as a threshold are the digits of that
/// threshold.
pub proof fn threshold_text_of_parsed(s: Seq<u8>, pos: int)
    requires
        threshold_at(s, pos) is Some,
    ensures
        s.subrange(pos, pos + 8) == threshold_text(threshold_at(s, pos)->0),
{
    let d0 = hex_value(s[pos + 0])->0;
    let d1 = hex_value(s[pos + 1])->0;
    let d2 = hex_value(s[pos + 2])->0;
    let d3 = hex_value(s[pos + 3])->0;
    let d4 = hex_value(s[pos + 4])->0;
    let d5 = hex_value(s[pos + 5])->0;
    let d6 = hex_value(s[pos + 6])->0;
    let d7 = hex_value(s[pos + 7])->0;
    digit_of_value(s[pos + 0]);
    digit_of_value(s[pos + 1]);
    digit_of_value(s[pos + 2]);
    digit_of_value(s[pos + 3]);
    digit_of_value(s[pos + 4]);
    digit_of_value(s[pos + 5]);
    digit_of_value(s[pos + 6]);
    digit_of_value(s[pos + 7]);
    let u = d0 * 0x1000_0000 + d1 * 0x100_0000 + d2 * 0x10_0000 + d3 * 0x1_0000 + d4 * 0x1000 + d5 * 0x100
        + d6 * 0x10 + d7;
    let t = threshold_at(s, pos)->0;
    assert(t + EXCESS == u);
    let q1 = u / 16;
    let q2 = q1 / 16;
    let q3 = q2 / 16;
    let q4 = q3 / 16;
    let q5 = q4 / 16;
    let q6 = q5 / 16;
    let q7 = q6 / 16;
    assert(q1 == d0 * 0x100_0000 + d1 * 0x10_0000 + d2 * 0x1_0000 + d3 * 0x1000 + d4 * 0x100 + d5 * 0x10 + d6
        && u % 16 == d7);
    assert(q2 == d0 * 0x10_0000 + d1 * 0x1_0000 + d2 * 0x1000 + d3 * 0x100 + d4 * 0x10 + d5 && q1 % 16 == d6);
    assert(q3 == d0 * 0x1_0000 + d1 * 0x1000 + d2 * 0x100 + d3 * 0x10 + d4 && q2 % 16 == d5);
    assert(q4 == d0 * 0x1000 + d1 * 0x100 + d2 * 0x10 + d3 && q3 % 16 == d4);
    assert(q5 == d0 * 0x100 + d1 * 0x10 + d2 && q4 % 16 == d3);
    assert(q6 == d0 * 0x10 + d1 && q5 % 16 == d2);
    assert(q7 == d0 && q6 % 16 == d1);
    assert(s.subrange(pos, pos + 8) =~= threshold_text(t));
}

/// The text from which a node was read is the text of that node.
pub proof fn node_text_of_parsed(s: Seq<u8>, pos: int)
    requires
        parse_node(s, pos) is Some,
    ensures
        pos < parse_node(s, pos).unwrap().1 <= s.len(),
        s.subrange(pos, parse_node(s, pos).unwrap().1) == node_text(parse_node(s, pos).unwrap().0),
    decreases s.len() - pos,
{
    let (node, end) = parse_node(s, pos)->0;
    if s[pos] == TAG_PREDICATE {
        threshold_text_of_parsed(s, pos + 3);
        assert(s.subrange(pos, end) =~= seq![s[pos], s[pos + 1], s[pos + 2]] + s.subrange(pos + 3, pos + 3 + 8));
    } else if s[pos] == TAG_AND || s[pos] == TAG_OR {
        list_text_of_parsed(s, pos + 1);
        assert(s.subrange(pos, end) =~= seq![s[pos]] + s.subrange(pos + 1, end));
    } else {
        node_text_of_parsed(s, pos + 1);
        assert(s.subrange(pos, end) =~= seq![s[pos]] + s.subrange(pos + 1, end));
    }
}

/// The text from which a list of children was read is the text of that list.
pub proof fn list_text_of_parsed(s: Seq<u8>, pos: int)
    requires
        parse_list(s, pos) is Some,
    ensures
        pos < parse_list(s, pos).unwrap().1 <= s.len(),
        s.subrange(pos, parse_list(s, pos).unwrap().1) == list_text(parse_list(s, pos).unwrap().0),
    decreases s.len() - pos,
{
    let (list, end) = parse_list(s, pos)->0;
    if s[pos] == LIST_END {
        assert(s.subrange(pos, end) =~= seq![LIST_END]);
    } else {
        node_text_of_parsed(s, pos + 1);
        let mid = parse_node(s, pos + 1).unwrap().1;
        list_text_of_parsed(s, mid);
        assert(s.subrange(pos, end) =~= seq![s[pos]] + s.subrange(pos + 1, mid) + s.subrange(mid, end));
    }
}

/// A text is read as a rule exactly when it is the text of that rule: every
/// rule has one text, and no other text is read as it.
pub proof fn text_is_unique(rule: TriggerRule, s: Seq<u8>)
    ensures
        parse_rule(s) == Some(rule) <==> s == rule_text(rule),
{
    rule_round_trip(rule);
    if parse_rule(s) == Some(rule) {
        node_text_of_parsed(s, 1);
        assert(s =~= seq![s[0]] + s.subrange(1, s.len() as int));
    }
}

/// A rule that is written and read back fires on the same listings as the
/// rule that was written, and reports the same price.
pub proof fn round_trip_evaluates_identically(rule: TriggerRule, listings: Seq<Listing>)
    ensures
        parse_rule(rule_text(rule)) is Some,
        reported_price(parse_rule(rule_text(rule))->0, listings) == reported_price(rule, listings),
{
    rule_round_trip(rule);
}

} // verus!
