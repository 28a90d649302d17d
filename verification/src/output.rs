//! How results are shown: raw JSON for agents, or an indented tree of lines
//! for people at a terminal.

use vstd::prelude::*;
use crate::laws::{branch_count, count_lines, leaf_count};

verus! {

/// The output mode: raw JSON for agents (the default), or colored text for
/// people at a terminal.
#[derive(Clone, Copy, Debug, PartialEq, Eq, Structural)]
pub enum Mode {
    Json,
    Human,
}

/// A JSON value as the human output walks it.
#[derive(Debug)]
pub enum JsonTree {
    /// `null`, a boolean or a number, as its JSON text.
    Scalar(String),
    /// A string: its value, and its JSON text (quoted and escaped).
    Text { value: String, json: String },
    /// An array's items, in order.
    Array(Vec<JsonTree>),
    /// An object's members, in order.
    Object(Vec<(String, JsonTree)>),
}

/// One line of human output, indented by `indent` spaces.
#[derive(Clone, Debug, PartialEq, Eq)]
pub enum HumanLine {
    /// A member whose value (an object or an array) follows below.
    Key { indent: usize, key: String },
    /// A member and its value on one line: `key: value`.
    Field { indent: usize, key: String, value: String },
    /// The position of an array item that follows below: `[index]`.
    Index { indent: usize, index: usize },
    /// A value standing alone.
    Plain { indent: usize, text: String },
}

/// Two more columns of indentation (saturating at the largest `usize`).
pub open spec fn deeper(indent: usize) -> usize {
    if indent + 2 > usize::MAX {
        usize::MAX
    } else {
        (indent + 2) as usize
    }
}

/// The human lines of a JSON value at `indent`: an object shows each member
/// as `key: value` (a string member as its value, any other as its JSON
/// text), or its key with its value (an object or an array) two
/// columns deeper below; an array shows each item's `[index]` with the item
/// two columns deeper below; any other value stands alone as its JSON text.
pub open spec fn spec_human_lines(value: JsonTree, indent: usize) -> Seq<HumanLine>
    decreases value,
{
    match value {
        JsonTree::Object(members) => member_lines(members@, indent),
        JsonTree::Array(items) => item_lines(items@, indent, 0),
        JsonTree::Scalar(t) => seq![HumanLine::Plain { indent, text: t }],
        JsonTree::Text { json, .. } => seq![HumanLine::Plain { indent, text: json }],
    }
}

/// The lines of object members at `indent`.
pub open spec fn member_lines(members: Seq<(String, JsonTree)>, indent: usize) -> Seq<HumanLine>
    decreases members,
{
    if members.len() == 0 {
        Seq::empty()
    } else {
        let (k, v) = members[0];
        let first = match v {
            JsonTree::Object(_) | JsonTree::Array(_) => seq![HumanLine::Key { indent, key: k }]
                + spec_human_lines(v, deeper(indent)),
            JsonTree::Scalar(t) => seq![HumanLine::Field { indent, key: k, value: t }],
            JsonTree::Text { value: text, .. } => seq![HumanLine::Field { indent, key: k, value: text }],
        };
        first + member_lines(members.subrange(1, members.len() as int), indent)
    }
}

/// The lines of array items at `indent`, the first of them at position `index`.
pub open spec fn item_lines(items: Seq<JsonTree>, indent: usize, index: nat) -> Seq<HumanLine>
    decreases items,
{
    if items.len() == 0 {
        Seq::empty()
    } else {
        seq![HumanLine::Index { indent, index: index as usize }] + spec_human_lines(items[0], deeper(indent))
            + item_lines(items.subrange(1, items.len() as int), indent, index + 1)
    }
}

fn deeper_exec(indent: usize) -> (r: usize)
    ensures
        r == deeper(indent),
{
    indent.saturating_add(2)
}

fn append_lines(out: &mut Vec<HumanLine>, more: Vec<HumanLine>)
    ensures
        final(out)@ == old(out)@ + more@,
{
    let mut more = more;
    out.append(&mut more);
}

/// The human lines of a JSON value at `indent`.
pub fn human_lines(value: &JsonTree, indent: usize) -> (r: Vec<HumanLine>)
    ensures
        r@ == spec_human_lines(*value, indent),
        count_lines(r@, true) == leaf_count(*value),
        count_lines(r@, false) == branch_count(*value),
    decreases *value,
{
    proof {
        crate::laws::law_human_lines_show_every_leaf(*value, indent);
    }
    match value {
        JsonTree::Scalar(t) => {
            let mut out = Vec::new();
            out.push(HumanLine::Plain { indent, text: t.clone() });
            assert(out@ =~= seq![HumanLine::Plain { indent, text: *t }]);
            out
        },
        JsonTree::Text { json, .. } => {
            let mut out = Vec::new();
            out.push(HumanLine::Plain { indent, text: json.clone() });
            assert(out@ =~= seq![HumanLine::Plain { indent, text: *json }]);
            out
        },
        JsonTree::Array(items) => {
            let mut out: Vec<HumanLine> = Vec::new();
            let n = items.len();
            let mut i: usize = 0;
            assert(items@.subrange(0, n as int) =~= items@);
            while i < n
                invariant
                    i <= n,
                    n == items@.len(),
                    *value == JsonTree::Array(*items),
                    item_lines(items@, indent, 0) == out@ + item_lines(
                        items@.subrange(i as int, n as int),
                        indent,
                        i as nat,
                    ),
                decreases n - i,
            {
                let ghost rest = items@.subrange(i as int, n as int);
                assert(rest[0] == items@[i as int]);
                assert(rest.subrange(1, rest.len() as int) =~= items@.subrange(i + 1, n as int));
                assert(decreases_to!(*value => (*value)->Array_0));
                assert(decreases_to!(*items => items@));
                assert(decreases_to!(items@ => items@[i as int]));
                assert(decreases_to!(*value => items@[i as int]));
                out.push(HumanLine::Index { indent, index: i });
                let sub = human_lines(&items[i], deeper_exec(indent));
                append_lines(&mut out, sub);
                i = i + 1;
            }
            assert(out@ =~= out@ + Seq::<HumanLine>::empty());
            out
        },
        JsonTree::Object(members) => {
            let mut out: Vec<HumanLine> = Vec::new();
            let n = members.len();
            let mut i: usize = 0;
            assert(members@.subrange(0, n as int) =~= members@);
            while i < n
                invariant
                    i <= n,
                    n == members@.len(),
                    *value == JsonTree::Object(*members),
                    member_lines(members@, indent) == out@ + member_lines(
                        members@.subrange(i as int, n as int),
                        indent,
                    ),
                decreases n - i,
            {
                let ghost rest = members@.subrange(i as int, n as int);
                assert(rest[0] == members@[i as int]);
                assert(rest.subrange(1, rest.len() as int) =~= members@.subrange(i + 1, n as int));
                let member = &members[i];
                let k = &member.0;
                let v = &member.1;
                match v {
                    JsonTree::Object(_) | JsonTree::Array(_) => {
                        assert(decreases_to!(*value => (*value)->Object_0));
                        assert(decreases_to!(*members => members@));
                        assert(decreases_to!(members@ => members@[i as int]));
                        assert(decreases_to!(members@[i as int] => members@[i as int].1));
                        assert(decreases_to!(*value => members@[i as int].1));
                        out.push(HumanLine::Key { indent, key: k.clone() });
                        let sub = human_lines(v, deeper_exec(indent));
                        append_lines(&mut out, sub);
                    },
                    JsonTree::Scalar(t) => {
                        out.push(HumanLine::Field { indent, key: k.clone(), value: t.clone() });
                    },
                    JsonTree::Text { value: s, .. } => {
                        out.push(HumanLine::Field { indent, key: k.clone(), value: s.clone() });
                    },
                }
                i = i + 1;
            }
            assert(out@ =~= out@ + Seq::<HumanLine>::empty());
            out
        },
    }
}

} // verus!
