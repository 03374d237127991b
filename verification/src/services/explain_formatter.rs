//! Query plans as indented lines. Plans come as text or as JSON, in the form of
//! PostgreSQL or of MySQL.

use vstd::prelude::*;

use crate::json::{trees, Json, JsonTree};
use crate::snapshot::{array_field, bool_field, text_field, text_field_or, text_or, uint_field};
use crate::text::{
    chars_of, concat2, concat3, concat4, concat5, contains_seq, contains_text, decimal,
    decimal_text, pieces, split_pieces, text_of, texts,
};

verus! {

/// How much of a plan is shown.
#[derive(Debug, Clone)]
pub struct FormatOptions {
    /// How deep the plan is followed.
    pub max_depth: usize,
    /// How many lines are shown; all where it is not set.
    pub max_lines: Option<usize>,
    /// What is shown where the depth or the number of lines is exceeded.
    pub truncation_hint: &'static str,
}

impl FormatOptions {
    /// The whole plan, for a terminal.
    pub fn cli() -> (r: FormatOptions)
        ensures
            r.max_depth == 6,
            r.max_lines is None,
            r.truncation_hint@ == "... (use --json for full plan)"@,
    {
        FormatOptions {
            max_depth: 6,
            max_lines: None,
            truncation_hint: "... (use --json for full plan)",
        }
    }

    /// A short form, for a chat window: deep enough for the joins and the
    /// tables below them.
    pub fn slack() -> (r: FormatOptions)
        ensures
            r.max_depth == 3,
            r.max_lines == Some(6usize),
            r.truncation_hint@ == "..."@,
    {
        FormatOptions { max_depth: 3, max_lines: Some(6), truncation_hint: "..." }
    }
}

/// The blanks before a line.
pub open spec fn indent(depth: nat) -> Seq<char>
    decreases depth,
{
    if depth == 0 {
        seq![]
    } else {
        indent((depth - 1) as nat) + "  "@
    }
}

fn indent_text(depth: usize) -> (r: String)
    ensures
        r@ == indent(depth as nat),
{
    let mut out = String::new();
    let mut i: usize = 0;
    assert(out@ =~= indent(0));
    while i < depth
        invariant
            i <= depth,
            out@ == indent(i as nat),
        decreases depth - i,
    {
        out.append("  ");
        i += 1;
    }
    out
}

/// The first `n` characters.
pub open spec fn head(s: Seq<char>, n: nat) -> Seq<char> {
    if s.len() <= n {
        s
    } else {
        s.take(n as int)
    }
}

fn head_text(s: &str, n: usize) -> (r: String)
    ensures
        r@ == head(s@, n as nat),
{
    let cs = chars_of(s);
    let m: usize = if cs.len() <= n {
        cs.len()
    } else {
        n
    };
    let r = text_of(&cs, 0, m);
    assert(r@ =~= head(s@, n as nat));
    r
}

/// The unsigned integer of a member, or zero.
pub open spec fn uint_or_zero(t: JsonTree, key: Seq<char>) -> nat {
    match t.at(key).as_uint() {
        Some(n) => n as nat,
        None => 0,
    }
}

/// The number of a member without decimals, or a default.
pub open spec fn rounded_or(t: JsonTree, key: Seq<char>, default: Seq<char>) -> Seq<char> {
    match t.at(key).as_rounded() {
        Some(s) => s,
        None => default,
    }
}

fn rounded_field_or(t: &Json, key: &str, default: &str) -> (r: String)
    ensures
        r@ == rounded_or(t@, key@, default@),
{
    match t.get(key) {
        Some(v) => match v.as_rounded() {
            Some(s) => s,
            None => default.to_string(),
        },
        None => default.to_string(),
    }
}

/// The member `key`, unless it is missing or null.
fn present<'a>(j: &'a Json, key: &str) -> (r: Option<&'a Json>)
    ensures
        match r {
            Some(v) => j@.at(key@) == v@ && !(v@ is Null),
            None => j@.at(key@) is Null,
        },
{
    match j.get(key) {
        Some(v) => match v {
            Json::Null => None,
            _ => Some(v),
        },
        None => None,
    }
}

// --- PostgreSQL ---

/// The line of a node: what it does, on which table, how many rows and at what
/// cost, and the beginning of its filter.
pub open spec fn plan_line(node: JsonTree, depth: nat) -> Seq<char> {
    let relation = text_or(node, "Relation Name"@, ""@);
    let on_part = if relation.len() == 0 {
        Seq::<char>::empty()
    } else {
        " on "@ + relation
    };
    let line = indent(depth) + text_or(node, "Node Type"@, "?"@) + on_part + " (rows="@ + decimal(
        uint_or_zero(node, "Plan Rows"@),
    ) + ", cost="@ + rounded_or(node, "Total Cost"@, "0"@) + ")"@;
    match node.at("Filter"@).as_text() {
        Some(f) => line + ("  Filter: "@ + head(f, 60)),
        None => line,
    }
}

/// The lines of a node and the nodes below it, in order; below the deepest
/// level the hint stands.
pub open spec fn plan_lines(node: JsonTree, depth: nat, max: nat, hint: Seq<char>) -> Seq<Seq<char>>
    decreases max + 1 - depth, 0nat,
{
    if depth > max {
        seq![indent(depth) + hint]
    } else {
        seq![plan_line(node, depth)] + match node.at("Plans"@).as_array() {
            Some(children) => child_lines(children, depth + 1, max, hint),
            None => Seq::<Seq<char>>::empty(),
        }
    }
}

/// The lines of nodes beside each other.
pub open spec fn child_lines(children: Seq<JsonTree>, depth: nat, max: nat, hint: Seq<char>) -> Seq<
    Seq<char>,
>
    decreases max + 1 - depth, children.len(),
{
    if children.len() == 0 {
        seq![]
    } else {
        child_lines(children.drop_last(), depth, max, hint) + plan_lines(
            children.last(),
            depth,
            max,
            hint,
        )
    }
}

fn show_plan_line(node: &Json, pad: &str, Ghost(depth): Ghost<nat>) -> (r: String)
    requires
        pad@ == indent(depth),
    ensures
        r@ == plan_line(node@, depth),
{
    let node_type = text_field_or(node, "Node Type", "?");
    let relation = text_field_or(node, "Relation Name", "");
    let rows: u64 = match uint_field(node, "Plan Rows") {
        Some(n) => n,
        None => 0,
    };
    let cost = rounded_field_or(node, "Total Cost", "0");
    let relation_chars = chars_of(relation.as_str());
    let on_part: String = if relation_chars.len() == 0 {
        let none = String::new();
        assert(none@ =~= Seq::<char>::empty());
        none
    } else {
        concat2(" on ", relation.as_str())
    };
    let start = concat5(
        pad,
        node_type.as_str(),
        on_part.as_str(),
        " (rows=",
        decimal_text(rows).as_str(),
    );
    let line = concat4(start.as_str(), ", cost=", cost.as_str(), ")");
    match text_field(node, "Filter") {
        Some(f) => concat2(
            line.as_str(),
            concat2("  Filter: ", head_text(f.as_str(), 60).as_str()).as_str(),
        ),
        None => line,
    }
}

/// How many levels may follow after one that `left` levels may follow.
fn one_less(left: Option<usize>) -> (r: Option<usize>)
    ensures
        r == match left {
            Some(n) => if n == 0 {
                None
            } else {
                Some((n - 1) as usize)
            },
            None => None,
        },
{
    match left {
        Some(n) => if n == 0 {
            None
        } else {
            Some(n - 1)
        },
        None => None,
    }
}

/// Follows a node at a depth, before whose lines `pad` stands; `left` levels may
/// follow it, or it is itself below the deepest.
fn walk_plan_node(
    node: &Json,
    pad: &str,
    left: Option<usize>,
    opts: &FormatOptions,
    out: &mut Vec<String>,
    Ghost(depth): Ghost<nat>,
)
    requires
        pad@ == indent(depth),
        match left {
            Some(n) => depth + n == opts.max_depth,
            None => depth > opts.max_depth,
        },
    ensures
        texts(final(out)@) == texts(old(out)@) + plan_lines(
            node@,
            depth,
            opts.max_depth as nat,
            opts.truncation_hint@,
        ),
    decreases opts.max_depth + 1 - depth,
{
    let ghost base = texts(out@);
    let ghost max = opts.max_depth as nat;
    let ghost hint = opts.truncation_hint@;
    if left.is_none() {
        push_line(out, concat2(pad, opts.truncation_hint));
        return;
    }
    let line = show_plan_line(node, pad, Ghost(depth));
    let ghost shown = line@;
    push_line(out, line);
    let ghost first = base + seq![shown];
    let below = concat2(pad, "  ");
    let rest = one_less(left);
    match array_field(node, "Plans") {
        Some(plans) => {
            let n: usize = plans.len();
            let mut i: usize = 0;
            assert(texts(out@) =~= first + child_lines(
                trees(plans@).take(0),
                depth + 1,
                max,
                hint,
            ));
            while i < n
                invariant
                    i <= n,
                    n == plans@.len(),
                    depth <= opts.max_depth,
                    below@ == indent(depth + 1),
                    match rest {
                        Some(k) => depth + 1 + k == opts.max_depth,
                        None => depth + 1 > opts.max_depth,
                    },
                    max == opts.max_depth,
                    hint == opts.truncation_hint@,
                    node@.at("Plans"@).as_array() == Some(trees(plans@)),
                    texts(out@) == first + child_lines(
                        trees(plans@).take(i as int),
                        depth + 1,
                        max,
                        hint,
                    ),
                decreases n - i,
            {
                let ghost before = child_lines(
                    trees(plans@).take(i as int),
                    depth + 1,
                    max,
                    hint,
                );
                proof {
                    assert(trees(plans@).take(i + 1).drop_last() =~= trees(plans@).take(i as int));
                    assert(trees(plans@).take(i + 1).last() == plans@[i as int]@);
                }
                walk_plan_node(&plans[i], below.as_str(), rest, opts, out, Ghost(depth + 1));
                assert(texts(out@) =~= first + (before + plan_lines(
                    plans@[i as int]@,
                    depth + 1,
                    max,
                    hint,
                )));
                i += 1;
            }
            proof {
                assert(trees(plans@).take(n as int) =~= trees(plans@));
                let rest_lines = child_lines(trees(plans@), depth + 1, max, hint);
                assert(first + rest_lines =~= base + (seq![shown] + rest_lines));
            }
        },
        None => {
            assert(first =~= base + (seq![shown] + Seq::<Seq<char>>::empty()));
        },
    }
}

// --- MySQL ---

/// How many rows a table access looks at or yields.
pub open spec fn table_rows(t: JsonTree) -> nat {
    match t.at("rows_examined_per_scan"@).as_uint() {
        Some(n) => n as nat,
        None => uint_or_zero(t, "rows_produced_per_join"@),
    }
}

/// The line of a table access: how, on which table, how many rows and how many
/// of them pass, and the beginning of its condition.
pub open spec fn table_line(t: JsonTree, depth: nat) -> Seq<char> {
    let line = indent(depth) + text_or(t, "access_type"@, "?"@) + " on "@ + text_or(
        t,
        "table_name"@,
        "?"@,
    ) + " (rows="@ + decimal(table_rows(t)) + ", filtered="@ + rounded_or(t, "filtered"@, "100"@)
        + "%)"@;
    match t.at("attached_condition"@).as_text() {
        Some(c) => line + ("  WHERE: "@ + head(c, 50)),
        None => line,
    }
}

/// The line of a table access; below the deepest level the hint stands.
pub open spec fn table_lines(t: JsonTree, depth: nat, max: nat, hint: Seq<char>) -> Seq<Seq<char>> {
    if depth > max {
        seq![indent(depth) + hint]
    } else {
        seq![table_line(t, depth)]
    }
}

/// The lines of the table accesses of a loop, in order.
pub open spec fn loop_lines(
    items: Seq<JsonTree>,
    depth: nat,
    max: nat,
    hint: Seq<char>,
) -> Seq<Seq<char>>
    decreases items.len(),
{
    if items.len() == 0 {
        seq![]
    } else {
        loop_lines(items.drop_last(), depth, max, hint) + match items.last().field("table"@) {
            Some(t) => table_lines(t, depth, max, hint),
            None => Seq::<Seq<char>>::empty(),
        }
    }
}

/// The lines of the loop of a block, where it has one.
pub open spec fn loop_of(t: JsonTree, depth: nat, max: nat, hint: Seq<char>) -> Seq<
    Seq<char>,
> {
    match t.at("nested_loop"@).as_array() {
        Some(items) => loop_lines(items, depth, max, hint),
        None => Seq::<Seq<char>>::empty(),
    }
}

/// The lines of the table of a block, where it has one.
pub open spec fn table_of(t: JsonTree, depth: nat, max: nat, hint: Seq<char>) -> Seq<
    Seq<char>,
> {
    if t.at("table"@) is Null {
        Seq::<Seq<char>>::empty()
    } else {
        table_lines(t.at("table"@), depth, max, hint)
    }
}

/// The lines of the joins of a block, where it has some.
pub open spec fn join_part(qb: JsonTree, depth: nat, max: nat, hint: Seq<char>) -> Seq<
    Seq<char>,
> {
    if qb.at("nested_loop"@).as_array() is Some {
        seq![indent(depth + 1) + "nested_loop"@] + loop_of(qb, depth + 2, max, hint)
    } else {
        Seq::<Seq<char>>::empty()
    }
}

/// The lines of the sorting of a block, where there is some.
pub open spec fn ordering_part(qb: JsonTree, depth: nat, max: nat, hint: Seq<char>) -> Seq<
    Seq<char>,
> {
    let o = qb.at("ordering_operation"@);
    if o is Null {
        Seq::<Seq<char>>::empty()
    } else {
        seq![
            indent(depth + 1) + "ordering_operation"@ + if o.at("using_filesort"@).as_bool()
                == Some(true) {
                " (filesort)"@
            } else {
                ""@
            },
        ] + loop_of(o, depth + 2, max, hint) + table_of(o, depth + 2, max, hint)
    }
}

/// The lines of the grouping of a block, where there is some.
pub open spec fn grouping_part(qb: JsonTree, depth: nat, max: nat, hint: Seq<char>) -> Seq<
    Seq<char>,
> {
    let g = qb.at("grouping_operation"@);
    if g is Null {
        Seq::<Seq<char>>::empty()
    } else {
        seq![indent(depth + 1) + "grouping_operation"@] + loop_of(g, depth + 2, max, hint)
    }
}

/// The lines of a query block.
pub open spec fn block_lines(qb: JsonTree, depth: nat, max: nat, hint: Seq<char>) -> Seq<Seq<char>> {
    if depth > max {
        seq![indent(depth) + hint]
    } else {
        seq![
            indent(depth) + "query_block (cost="@ + text_or(
                qb.at("cost_info"@),
                "query_cost"@,
                "?"@,
            ) + ")"@,
        ] + table_of(qb, depth + 1, max, hint) + join_part(qb, depth, max, hint) + ordering_part(
            qb,
            depth,
            max,
            hint,
        ) + grouping_part(qb, depth, max, hint)
    }
}

fn walk_mysql_table(table: &Json, depth: usize, opts: &FormatOptions, out: &mut Vec<String>)
    ensures
        texts(final(out)@) == texts(old(out)@) + table_lines(
            table@,
            depth as nat,
            opts.max_depth as nat,
            opts.truncation_hint@,
        ),
{
    let ghost base = texts(out@);
    if depth > opts.max_depth {
        push_line(out, concat2(indent_text(depth).as_str(), opts.truncation_hint));
        return;
    }
    let name = text_field_or(table, "table_name", "?");
    let access = text_field_or(table, "access_type", "?");
    let rows: u64 = match uint_field(table, "rows_examined_per_scan") {
        Some(n) => n,
        None => match uint_field(table, "rows_produced_per_join") {
            Some(n) => n,
            None => 0,
        },
    };
    let filtered = rounded_field_or(table, "filtered", "100");
    let start = concat5(
        indent_text(depth).as_str(),
        access.as_str(),
        " on ",
        name.as_str(),
        " (rows=",
    );
    let plain = concat5(
        start.as_str(),
        decimal_text(rows).as_str(),
        ", filtered=",
        filtered.as_str(),
        "%)",
    );
    let line: String = match text_field(table, "attached_condition") {
        Some(c) => concat2(
            plain.as_str(),
            concat2("  WHERE: ", head_text(c.as_str(), 50).as_str()).as_str(),
        ),
        None => plain,
    };
    out.push(line);
    assert(texts(out@) =~= base + seq![line@]);
}

fn walk_loop(t: &Json, depth: usize, opts: &FormatOptions, out: &mut Vec<String>)
    ensures
        texts(final(out)@) == texts(old(out)@) + loop_of(
            t@,
            depth as nat,
            opts.max_depth as nat,
            opts.truncation_hint@,
        ),
{
    let ghost base = texts(out@);
    let ghost max = opts.max_depth as nat;
    let ghost hint = opts.truncation_hint@;
    match array_field(t, "nested_loop") {
        Some(items) => {
            let n: usize = items.len();
            let mut i: usize = 0;
            assert(texts(out@) =~= base + loop_lines(
                trees(items@).take(0),
                depth as nat,
                max,
                hint,
            ));
            while i < n
                invariant
                    i <= n,
                    n == items@.len(),
                    max == opts.max_depth,
                    hint == opts.truncation_hint@,
                    t@.at("nested_loop"@).as_array() == Some(trees(items@)),
                    texts(out@) == base + loop_lines(
                        trees(items@).take(i as int),
                        depth as nat,
                        max,
                        hint,
                    ),
                decreases n - i,
            {
                let ghost before = loop_lines(
                    trees(items@).take(i as int),
                    depth as nat,
                    max,
                    hint,
                );
                proof {
                    assert(trees(items@).take(i + 1).drop_last() =~= trees(items@).take(i as int));
                    assert(trees(items@).take(i + 1).last() == items@[i as int]@);
                }
                match items[i].get("table") {
                    Some(table) => {
                        walk_mysql_table(table, depth, opts, out);
                        assert(texts(out@) =~= base + (before + table_lines(
                            table@,
                            depth as nat,
                            max,
                            hint,
                        )));
                    },
                    None => {
                        assert(before + Seq::<Seq<char>>::empty() =~= before);
                    },
                }
                i += 1;
            }
            assert(trees(items@).take(n as int) =~= trees(items@));
        },
        None => {
            assert(base + Seq::<Seq<char>>::empty() =~= base);
        },
    }
}

fn walk_table(t: &Json, depth: usize, opts: &FormatOptions, out: &mut Vec<String>)
    ensures
        texts(final(out)@) == texts(old(out)@) + table_of(
            t@,
            depth as nat,
            opts.max_depth as nat,
            opts.truncation_hint@,
        ),
{
    match present(t, "table") {
        Some(table) => {
            walk_mysql_table(table, depth, opts, out);
        },
        None => {
            assert(texts(out@) + Seq::<Seq<char>>::empty() =~= texts(out@));
        },
    }
}

fn push_line(out: &mut Vec<String>, line: String)
    ensures
        texts(final(out)@) == texts(old(out)@) + seq![line@],
{
    let ghost base = texts(out@);
    out.push(line);
    assert(texts(out@) =~= base + seq![line@]);
}

fn walk_joins(qb: &Json, depth: usize, opts: &FormatOptions, out: &mut Vec<String>)
    requires
        depth + 2 <= usize::MAX,
    ensures
        texts(final(out)@) == texts(old(out)@) + join_part(
            qb@,
            depth as nat,
            opts.max_depth as nat,
            opts.truncation_hint@,
        ),
{
    let ghost base = texts(out@);
    match array_field(qb, "nested_loop") {
        Some(_) => {
            push_line(out, concat2(indent_text(depth + 1).as_str(), "nested_loop"));
            walk_loop(qb, depth + 2, opts, out);
            assert(texts(out@) =~= base + join_part(
                qb@,
                depth as nat,
                opts.max_depth as nat,
                opts.truncation_hint@,
            ));
        },
        None => {
            assert(base + Seq::<Seq<char>>::empty() =~= base);
        },
    }
}

fn walk_ordering(qb: &Json, depth: usize, opts: &FormatOptions, out: &mut Vec<String>)
    requires
        depth + 2 <= usize::MAX,
    ensures
        texts(final(out)@) == texts(old(out)@) + ordering_part(
            qb@,
            depth as nat,
            opts.max_depth as nat,
            opts.truncation_hint@,
        ),
{
    let ghost base = texts(out@);
    match present(qb, "ordering_operation") {
        Some(o) => {
            let sorted: bool = match bool_field(o, "using_filesort") {
                Some(b) => b,
                None => false,
            };
            let mark: &str = if sorted {
                " (filesort)"
            } else {
                ""
            };
            push_line(out, concat3(indent_text(depth + 1).as_str(), "ordering_operation", mark));
            walk_loop(o, depth + 2, opts, out);
            walk_table(o, depth + 2, opts, out);
            assert(texts(out@) =~= base + ordering_part(
                qb@,
                depth as nat,
                opts.max_depth as nat,
                opts.truncation_hint@,
            ));
        },
        None => {
            assert(base + Seq::<Seq<char>>::empty() =~= base);
        },
    }
}

fn walk_grouping(qb: &Json, depth: usize, opts: &FormatOptions, out: &mut Vec<String>)
    requires
        depth + 2 <= usize::MAX,
    ensures
        texts(final(out)@) == texts(old(out)@) + grouping_part(
            qb@,
            depth as nat,
            opts.max_depth as nat,
            opts.truncation_hint@,
        ),
{
    let ghost base = texts(out@);
    match present(qb, "grouping_operation") {
        Some(g) => {
            push_line(out, concat2(indent_text(depth + 1).as_str(), "grouping_operation"));
            walk_loop(g, depth + 2, opts, out);
            assert(texts(out@) =~= base + grouping_part(
                qb@,
                depth as nat,
                opts.max_depth as nat,
                opts.truncation_hint@,
            ));
        },
        None => {
            assert(base + Seq::<Seq<char>>::empty() =~= base);
        },
    }
}

fn walk_mysql_query_block(qb: &Json, depth: usize, opts: &FormatOptions, out: &mut Vec<String>)
    requires
        depth + 2 <= usize::MAX,
    ensures
        texts(final(out)@) == texts(old(out)@) + block_lines(
            qb@,
            depth as nat,
            opts.max_depth as nat,
            opts.truncation_hint@,
        ),
{
    let ghost base = texts(out@);
    if depth > opts.max_depth {
        push_line(out, concat2(indent_text(depth).as_str(), opts.truncation_hint));
        return;
    }
    let cost: String = match qb.get("cost_info") {
        Some(info) => text_field_or(info, "query_cost", "?"),
        None => "?".to_string(),
    };
    push_line(
        out,
        concat4(indent_text(depth).as_str(), "query_block (cost=", cost.as_str(), ")"),
    );
    walk_table(qb, depth + 1, opts, out);
    walk_joins(qb, depth, opts, out);
    walk_ordering(qb, depth, opts, out);
    walk_grouping(qb, depth, opts, out);
    assert(texts(out@) =~= base + block_lines(
        qb@,
        depth as nat,
        opts.max_depth as nat,
        opts.truncation_hint@,
    ));
}

// --- lines ---

/// The lines that are shown: all, or the first ones and how many nodes are left
/// out.
pub open spec fn limited(lines: Seq<Seq<char>>, max: Option<usize>, hint: Seq<char>) -> Seq<Seq<char>> {
    match max {
        Some(m) => if lines.len() > m {
            lines.take(m as int).push(
                hint + " (+"@ + decimal((lines.len() - m) as nat) + " more nodes)"@,
            )
        } else {
            lines
        },
        None => lines,
    }
}

/// The lines that are shown: all, or the first ones and how many nodes are left
/// out.
pub fn apply_max_lines(lines: Vec<String>, opts: &FormatOptions) -> (r: Vec<String>)
    ensures
        texts(r@) == limited(texts(lines@), opts.max_lines, opts.truncation_hint@),
{
    match opts.max_lines {
        Some(max) => {
            let n: usize = lines.len();
            assert(texts(lines@).len() == lines@.len());
            if n > max {
                let mut out: Vec<String> = Vec::new();
                let mut i: usize = 0;
                while i < max
                    invariant
                        i <= max < n,
                        n == lines@.len(),
                        out@.len() == i,
                        forall|k: int| 0 <= k < i ==> (#[trigger] out@[k])@ == lines@[k]@,
                    decreases max - i,
                {
                    out.push(lines[i].clone());
                    i += 1;
                }
                let more = concat4(
                    opts.truncation_hint,
                    " (+",
                    decimal_text((n - max) as u64).as_str(),
                    " more nodes)",
                );
                out.push(more);
                assert(texts(out@) =~= texts(lines@).take(max as int).push(more@));
                return out;
            }
            lines
        },
        None => lines,
    }
}

/// A line without the carriage return at its end.
pub open spec fn without_cr(s: Seq<char>) -> Seq<char> {
    if s.len() > 0 && s.last() == '\r' {
        s.drop_last()
    } else {
        s
    }
}

/// The lines of a text: they end with a line feed, before which one carriage
/// return belongs to the line end; the last may go without.
pub open spec fn lines_of(s: Seq<char>) -> Seq<Seq<char>> {
    let parts = pieces(s, '\n');
    let n = (parts.len() - 1) as nat;
    let ended = Seq::new(n, |k: int| without_cr(parts[k]));
    if parts.last().len() == 0 {
        ended
    } else {
        ended.push(parts.last())
    }
}

fn strip_cr(s: &str) -> (r: String)
    ensures
        r@ == without_cr(s@),
{
    let cs = chars_of(s);
    let n: usize = cs.len();
    if n > 0 && cs[n - 1] == '\r' {
        let r = text_of(&cs, 0, n - 1);
        assert(r@ =~= s@.drop_last());
        r
    } else {
        s.to_string()
    }
}

fn split_lines(s: &str) -> (r: Vec<String>)
    ensures
        texts(r@) == lines_of(s@),
{
    let cs = chars_of(s);
    let parts = split_pieces(&cs, '\n');
    let n: usize = parts.len();
    let mut out: Vec<String> = Vec::new();
    let mut i: usize = 0;
    while i < n - 1
        invariant
            i <= n - 1,
            n == parts@.len(),
            n > 0,
            out@.len() == i,
            forall|k: int| 0 <= k < i ==> (#[trigger] out@[k])@ == without_cr(parts@[k]@),
        decreases n - i,
    {
        out.push(strip_cr(parts[i].as_str()));
        i += 1;
    }
    proof {
        let p = texts(parts@);
        assert(p.len() == n);
        assert(p.last() == parts@[n - 1]@);
        assert(texts(out@) =~= Seq::new((n - 1) as nat, |k: int| without_cr(p[k])));
    }
    let ghost ended = texts(out@);
    let last_chars = chars_of(parts[n - 1].as_str());
    if last_chars.len() > 0 {
        out.push(parts[n - 1].clone());
        assert(texts(out@) =~= ended.push(parts@[n - 1]@));
    }
    out
}

/// How many lines of a text are shown.
pub const MAX_TEXT_LINES: usize = 10;

/// The lines of a plan that is a text: the first ones, shortened like any plan,
/// and how many lines are left out unless a hint already says so.
pub open spec fn text_lines(s: Seq<char>, max: Option<usize>, hint: Seq<char>) -> Seq<Seq<char>> {
    let all = lines_of(s);
    if all.len() <= MAX_TEXT_LINES {
        limited(all, max, hint)
    } else {
        let shown = limited(all.take(MAX_TEXT_LINES as int), max, hint);
        if shown.len() > 0 && contains_seq(shown.last(), hint) {
            shown
        } else {
            shown.push(
                hint + " (+"@ + decimal((all.len() - MAX_TEXT_LINES) as nat) + " more lines)"@,
            )
        }
    }
}

fn format_text(s: &str, opts: &FormatOptions) -> (r: Vec<String>)
    ensures
        texts(r@) == text_lines(s@, opts.max_lines, opts.truncation_hint@),
{
    let all = split_lines(s);
    let total: usize = all.len();
    assert(texts(all@).len() == all@.len());
    if total <= MAX_TEXT_LINES {
        return apply_max_lines(all, opts);
    }
    let mut capped: Vec<String> = Vec::new();
    let mut i: usize = 0;
    while i < MAX_TEXT_LINES
        invariant
            i <= MAX_TEXT_LINES < total,
            total == all@.len(),
            capped@.len() == i,
            forall|k: int| 0 <= k < i ==> (#[trigger] capped@[k])@ == all@[k]@,
        decreases MAX_TEXT_LINES - i,
    {
        capped.push(all[i].clone());
        i += 1;
    }
    assert(texts(capped@) =~= texts(all@).take(MAX_TEXT_LINES as int));
    let mut lines = apply_max_lines(capped, opts);
    let ghost shown = texts(lines@);
    let n: usize = lines.len();
    assert(shown.len() == n);
    if n > 0 {
        assert(shown.last() == lines@[n - 1]@);
        if contains_text(lines[n - 1].as_str(), opts.truncation_hint) {
            return lines;
        }
    }
    let more = concat4(
        opts.truncation_hint,
        " (+",
        decimal_text((total - MAX_TEXT_LINES) as u64).as_str(),
        " more lines)",
    );
    lines.push(more);
    assert(texts(lines@) =~= shown.push(more@));
    lines
}

/// The plan in the first element of a list.
pub open spec fn first_plan(plan: JsonTree) -> JsonTree {
    match plan.as_array() {
        Some(a) => if a.len() > 0 {
            a[0].at("Plan"@)
        } else {
            JsonTree::Null
        },
        None => JsonTree::Null,
    }
}

/// The lines of the plan of an entry.
pub open spec fn entry_lines(
    entry: JsonTree,
    max_depth: nat,
    max_lines: Option<usize>,
    hint: Seq<char>,
) -> Seq<Seq<char>> {
    let plan = entry.at("plan"@);
    match plan.as_text() {
        Some(s) => text_lines(s, max_lines, hint),
        None => if !(first_plan(plan) is Null) {
            limited(plan_lines(first_plan(plan), 0, max_depth, hint), max_lines, hint)
        } else if !(plan.at("Plan"@) is Null) {
            limited(plan_lines(plan.at("Plan"@), 0, max_depth, hint), max_lines, hint)
        } else if !(plan.at("query_block"@) is Null) {
            limited(block_lines(plan.at("query_block"@), 0, max_depth, hint), max_lines, hint)
        } else {
            seq!["(plan format unknown)"@]
        },
    }
}

fn format_node(node: &Json, opts: &FormatOptions) -> (r: Vec<String>)
    ensures
        texts(r@) == limited(
            plan_lines(node@, 0, opts.max_depth as nat, opts.truncation_hint@),
            opts.max_lines,
            opts.truncation_hint@,
        ),
{
    let mut lines: Vec<String> = Vec::new();
    let ghost base = texts(lines@);
    let none = String::new();
    assert(none@ =~= indent(0));
    walk_plan_node(node, none.as_str(), Some(opts.max_depth), opts, &mut lines, Ghost(0));
    proof {
        let all = plan_lines(node@, 0, opts.max_depth as nat, opts.truncation_hint@);
        assert(base =~= Seq::<Seq<char>>::empty());
        assert(base + all =~= all);
    }
    apply_max_lines(lines, opts)
}

fn format_block(qb: &Json, opts: &FormatOptions) -> (r: Vec<String>)
    ensures
        texts(r@) == limited(
            block_lines(qb@, 0, opts.max_depth as nat, opts.truncation_hint@),
            opts.max_lines,
            opts.truncation_hint@,
        ),
{
    let mut lines: Vec<String> = Vec::new();
    let ghost base = texts(lines@);
    walk_mysql_query_block(qb, 0, opts, &mut lines);
    proof {
        let all = block_lines(qb@, 0, opts.max_depth as nat, opts.truncation_hint@);
        assert(base =~= Seq::<Seq<char>>::empty());
        assert(base + all =~= all);
    }
    apply_max_lines(lines, opts)
}

fn unknown_format() -> (r: Vec<String>)
    ensures
        texts(r@) == seq!["(plan format unknown)"@],
{
    let mut out: Vec<String> = Vec::new();
    out.push("(plan format unknown)".to_string());
    assert(texts(out@) =~= seq!["(plan format unknown)"@]);
    out
}

/// The lines of the plan of an entry.
pub fn format_explain_tree(entry: &Json, opts: &FormatOptions) -> (r: Vec<String>)
    ensures
        texts(r@) == entry_lines(
            entry@,
            opts.max_depth as nat,
            opts.max_lines,
            opts.truncation_hint@,
        ),
{
    let plan: &Json = match entry.get("plan") {
        Some(p) => p,
        None => {
            return unknown_format();
        },
    };
    match plan.as_str() {
        Some(s) => {
            return format_text(s.as_str(), opts);
        },
        None => {},
    }
    match plan.as_array() {
        Some(list) => {
            assert(trees(list@).len() == list@.len());
            if list.len() > 0 {
                match present(&list[0], "Plan") {
                    Some(node) => {
                        return format_node(node, opts);
                    },
                    None => {},
                }
            }
        },
        None => {},
    }
    match present(plan, "Plan") {
        Some(node) => {
            return format_node(node, opts);
        },
        None => {},
    }
    match present(plan, "query_block") {
        Some(qb) => {
            return format_block(qb, opts);
        },
        None => {},
    }
    unknown_format()
}

/// Shortened lines never exceed the limit by more than the line that says so,
/// and the lines that stay are the first ones.
pub proof fn shortening_keeps_the_first_lines(lines: Seq<Seq<char>>, max: usize, hint: Seq<char>)
    ensures
        limited(lines, Some(max), hint).len() <= max + 1,
        forall|k: int|
            0 <= k < lines.len() && k < max ==> #[trigger] limited(lines, Some(max), hint)[k]
                == lines[k],
{
}

/// Of a plan that is a text, however long, few lines are shown.
pub proof fn text_plan_is_short(s: Seq<char>, max: Option<usize>, hint: Seq<char>)
    ensures
        text_lines(s, max, hint).len() <= MAX_TEXT_LINES + 1,
{
}

/// A plan is followed no deeper than the limit: below it every node, every query
/// block and every table access is the hint alone.
pub proof fn deep_nodes_are_hinted(node: JsonTree, depth: nat, max: nat, hint: Seq<char>)
    requires
        depth > max,
    ensures
        plan_lines(node, depth, max, hint) == seq![indent(depth) + hint],
        block_lines(node, depth, max, hint) == seq![indent(depth) + hint],
        table_lines(node, depth, max, hint) == seq![indent(depth) + hint],
{
}

/// A terminal is shown six levels and every line, a chat window three levels and
/// six lines.
pub proof fn chats_are_shown_less(cli: FormatOptions, slack: FormatOptions)
    requires
        call_ensures(FormatOptions::cli, (), cli),
        call_ensures(FormatOptions::slack, (), slack),
    ensures
        cli.max_depth == 6,
        cli.max_lines is None,
        slack.max_depth == 3,
        slack.max_lines == Some(6usize),
        cli.truncation_hint@ == "... (use --json for full plan)"@,
        slack.truncation_hint@ == "..."@,
{
}

/// Lines are left out exactly if there are more than are shown; then one more
/// line tells how many are.
pub proof fn left_out_lines_are_counted(lines: Vec<String>, opts: FormatOptions, r: Vec<String>, k: int)
    requires
        call_ensures(apply_max_lines, (lines, &opts), r),
        0 <= k < lines@.len(),
    ensures
        opts.max_lines is None || lines@.len() <= opts.max_lines->0 ==> r@.len() == lines@.len()
            && r@[k]@ == lines@[k]@,
        opts.max_lines is Some && lines@.len() > opts.max_lines->0 ==> {
            let m = opts.max_lines->0;
            &&& r@.len() == m + 1
            &&& k < m ==> r@[k]@ == lines@[k]@
            &&& r@[m as int]@ == opts.truncation_hint@ + " (+"@ + decimal(
                (lines@.len() - m) as nat,
            ) + " more nodes)"@
        },
{
    assert(texts(lines@).len() == lines@.len());
    assert(texts(r@).len() == r@.len());
    assert(texts(lines@)[k] == lines@[k]@);
    if k < r@.len() {
        assert(texts(r@)[k] == r@[k]@);
    }
    if opts.max_lines is Some && lines@.len() > opts.max_lines->0 {
        let m = opts.max_lines->0 as int;
        assert(texts(r@)[m] == r@[m]@);
    }
}

/// The lines of a node begin with its own.
proof fn lemma_first_plan_line(node: JsonTree, max: nat, hint: Seq<char>)
    ensures
        plan_lines(node, 0, max, hint).len() >= 1,
        plan_lines(node, 0, max, hint)[0] == plan_line(node, 0),
{
}

/// A plan of PostgreSQL is shown from its top node: what it does, on which
/// table, how many rows it expects and at what cost, and the beginning of its
/// filter; in a list or by itself.
pub proof fn plans_begin_with_their_top_node(
    entry: Json,
    opts: FormatOptions,
    r: Vec<String>,
    node: JsonTree,
)
    requires
        call_ensures(format_explain_tree, (&entry, &opts), r),
        opts.max_lines != Some(0usize),
        !(node is Null),
        entry@.at("plan"@).as_text() is None,
        entry@.at("plan"@).as_array() matches Some(a) ==> a.len() > 0 && a[0].at("Plan"@) == node,
        entry@.at("plan"@).as_array() is None ==> entry@.at("plan"@).at("Plan"@) == node,
    ensures
        r@.len() >= 1,
        ({
            let kind = match node.at("Node Type"@).as_text() {
                Some(s) => s,
                None => "?"@,
            };
            let on = match node.at("Relation Name"@).as_text() {
                Some(s) => if s.len() > 0 {
                    " on "@ + s
                } else {
                    Seq::empty()
                },
                None => Seq::empty(),
            };
            let rows = match node.at("Plan Rows"@).as_uint() {
                Some(n) => n as nat,
                None => 0nat,
            };
            let cost = match node.at("Total Cost"@).as_rounded() {
                Some(s) => s,
                None => "0"@,
            };
            let line = kind + on + " (rows="@ + decimal(rows) + ", cost="@ + cost + ")"@;
            match node.at("Filter"@).as_text() {
                None => r@[0]@ == line,
                Some(f) => r@[0]@ == line + ("  Filter: "@ + if f.len() <= 60 {
                    f
                } else {
                    f.take(60)
                }),
            }
        }),
{
    reveal_strlit("");
    let hint = opts.truncation_hint@;
    let all = plan_lines(node, 0, opts.max_depth as nat, hint);
    lemma_first_plan_line(node, opts.max_depth as nat, hint);
    assert(first_plan(entry@.at("plan"@)) == node || entry@.at("plan"@).at("Plan"@) == node);
    assert(texts(r@) == limited(all, opts.max_lines, hint));
    assert(texts(r@).len() == r@.len());
    assert(texts(r@)[0] == r@[0]@);
    assert(texts(r@)[0] == plan_line(node, 0));
    assert(indent(0) =~= Seq::<char>::empty());
    let relation = text_or(node, "Relation Name"@, ""@);
    let on_part = if relation.len() == 0 {
        Seq::<char>::empty()
    } else {
        " on "@ + relation
    };
    assert(indent(0) + text_or(node, "Node Type"@, "?"@) =~= text_or(node, "Node Type"@, "?"@));
}

/// Every node below another is shown, one level deeper, as far as the depth
/// goes.
proof fn lemma_child_is_shown(
    children: Seq<JsonTree>,
    depth: nat,
    max: nat,
    hint: Seq<char>,
    c: int,
)
    requires
        0 <= c < children.len(),
        depth <= max,
    ensures
        child_lines(children, depth, max, hint).contains(plan_line(children[c], depth)),
    decreases children.len(),
{
    let before = child_lines(children.drop_last(), depth, max, hint);
    let last = plan_lines(children.last(), depth, max, hint);
    let all = child_lines(children, depth, max, hint);
    if c < children.len() - 1 {
        lemma_child_is_shown(children.drop_last(), depth, max, hint, c);
        assert(children.drop_last()[c] == children[c]);
        let k = choose|k: int|
            0 <= k < before.len() && before[k] == plan_line(children[c], depth);
        assert(all[k] == before[k]);
    } else {
        assert(last[0] == plan_line(children[c], depth));
        assert(all[before.len() as int] == last[0]);
    }
}

/// The nodes directly below the top node are shown, indented by two blanks.
pub proof fn lower_nodes_are_indented(
    entry: Json,
    opts: FormatOptions,
    r: Vec<String>,
    node: JsonTree,
    c: int,
)
    requires
        call_ensures(format_explain_tree, (&entry, &opts), r),
        opts.max_lines is None,
        opts.max_depth >= 1,
        !(node is Null),
        entry@.at("plan"@).as_text() is None,
        entry@.at("plan"@).as_array() matches Some(a) && a.len() > 0 && a[0].at("Plan"@) == node,
        node.at("Plans"@).as_array() is Some,
        0 <= c < node.at("Plans"@).as_array()->0.len(),
    ensures
        exists|k: int| 0 < k < r@.len() && (#[trigger] r@[k])@.len() >= 2 && r@[k]@.take(2) == "  "@,
{
    let hint = opts.truncation_hint@;
    let max = opts.max_depth as nat;
    let children = node.at("Plans"@).as_array()->0;
    let below = child_lines(children, 1, max, hint);
    lemma_child_is_shown(children, 1, max, hint, c);
    let k = choose|k: int| 0 <= k < below.len() && below[k] == plan_line(children[c], 1);
    assert(texts(r@) == plan_lines(node, 0, max, hint));
    assert(texts(r@).len() == r@.len());
    assert(texts(r@)[k + 1] == below[k]);
    assert(texts(r@)[k + 1] == r@[k + 1]@);
    reveal_with_fuel(indent, 2);
    reveal_strlit("  ");
    assert(indent(1) =~= "  "@);
    let line = plan_line(children[c], 1);
    assert(line.take(2) =~= "  "@);
}

/// A plan of MySQL is shown from its query block and its cost.
pub proof fn query_blocks_are_shown_with_their_cost(entry: Json, opts: FormatOptions, r: Vec<String>)
    requires
        call_ensures(format_explain_tree, (&entry, &opts), r),
        opts.max_lines != Some(0usize),
        entry@.at("plan"@) is Object,
        entry@.at("plan"@).at("Plan"@) is Null,
        !(entry@.at("plan"@).at("query_block"@) is Null),
    ensures
        r@.len() >= 1,
        ({
            let cost = entry@.at("plan"@).at("query_block"@).at("cost_info"@).at(
                "query_cost"@,
            ).as_text();
            &&& cost matches Some(c) ==> r@[0]@ == "query_block (cost="@ + c + ")"@
            &&& cost is None ==> r@[0]@ == "query_block (cost="@ + "?"@ + ")"@
        }),
{
    let plan = entry@.at("plan"@);
    let qb = plan.at("query_block"@);
    let hint = opts.truncation_hint@;
    let all = block_lines(qb, 0, opts.max_depth as nat, hint);
    let cost = text_or(qb.at("cost_info"@), "query_cost"@, "?"@);
    assert(texts(r@) == limited(all, opts.max_lines, hint));
    assert(indent(0) =~= Seq::<char>::empty());
    assert(indent(0) + "query_block (cost="@ =~= "query_block (cost="@);
    assert(all[0] == "query_block (cost="@ + cost + ")"@);
    assert(texts(r@).len() == r@.len());
    assert(texts(r@)[0] == r@[0]@);
    assert(texts(r@)[0] == all[0]);
}

/// What is neither a text nor a plan of either kind is said to be unknown.
pub proof fn unknown_plans_are_said_to_be(entry: Json, opts: FormatOptions, r: Vec<String>)
    requires
        call_ensures(format_explain_tree, (&entry, &opts), r),
        entry@.at("plan"@) is Null || entry@.at("plan"@) is Bool,
    ensures
        r@.len() == 1,
        r@[0]@ == "(plan format unknown)"@,
{
    assert(texts(r@).len() == r@.len());
    assert(texts(r@)[0] == r@[0]@);
}

/// A plan that is a text of one line is shown as it is.
pub proof fn one_line_is_shown_as_it_is(entry: Json, opts: FormatOptions, r: Vec<String>, s: Seq<char>)
    requires
        call_ensures(format_explain_tree, (&entry, &opts), r),
        entry@.at("plan"@) == JsonTree::Text(s),
        s.len() > 0,
        forall|i: int| 0 <= i < s.len() ==> #[trigger] s[i] != '\n',
        opts.max_lines != Some(0usize),
    ensures
        r@.len() == 1,
        r@[0]@ == s,
{
    crate::text::lemma_pieces(Seq::empty(), s, '\n');
    assert(lines_of(s) =~= seq![s]);
    assert(texts(r@).len() == r@.len());
    assert(texts(r@)[0] == r@[0]@);
}

/// Of a plan that is a text at most ten lines are shown, and one that says so
/// where there are more.
pub proof fn long_texts_are_cut(entry: Json, opts: FormatOptions, r: Vec<String>, s: Seq<char>)
    requires
        call_ensures(format_explain_tree, (&entry, &opts), r),
        entry@.at("plan"@) == JsonTree::Text(s),
    ensures
        r@.len() <= 11,
        opts.max_lines is None && lines_of(s).len() <= 10 ==> texts(r@) == lines_of(s),
        opts.max_lines is None && lines_of(s).len() > 10 ==> texts(r@).take(10) == lines_of(s).take(
            10,
        ),
{
    assert(texts(r@).len() == r@.len());
    if opts.max_lines is None && lines_of(s).len() > 10 {
        assert(texts(r@).take(10) =~= lines_of(s).take(10));
    }
}

/// A table of a MySQL plan is shown below its query block: how it is read, how
/// many rows and what share of them, and the beginning of its condition.
pub proof fn tables_of_a_query_block_are_shown(
    entry: Json,
    opts: FormatOptions,
    r: Vec<String>,
    t: JsonTree,
)
    requires
        call_ensures(format_explain_tree, (&entry, &opts), r),
        opts.max_lines is None,
        opts.max_depth >= 1,
        entry@.at("plan"@) is Object,
        entry@.at("plan"@).at("Plan"@) is Null,
        !(entry@.at("plan"@).at("query_block"@) is Null),
        entry@.at("plan"@).at("query_block"@).at("table"@) == t,
        !(t is Null),
    ensures
        r@.len() >= 2,
        ({
            let access = match t.at("access_type"@).as_text() {
                Some(s) => s,
                None => "?"@,
            };
            let name = match t.at("table_name"@).as_text() {
                Some(s) => s,
                None => "?"@,
            };
            let rows = match t.at("rows_examined_per_scan"@).as_uint() {
                Some(n) => n as nat,
                None => match t.at("rows_produced_per_join"@).as_uint() {
                    Some(n) => n as nat,
                    None => 0nat,
                },
            };
            let share = match t.at("filtered"@).as_rounded() {
                Some(s) => s,
                None => "100"@,
            };
            let line = "  "@ + access + " on "@ + name + " (rows="@ + decimal(rows)
                + ", filtered="@ + share + "%)"@;
            match t.at("attached_condition"@).as_text() {
                None => r@[1]@ == line,
                Some(c) => r@[1]@ == line + ("  WHERE: "@ + if c.len() <= 50 {
                    c
                } else {
                    c.take(50)
                }),
            }
        }),
{
    let qb = entry@.at("plan"@).at("query_block"@);
    let hint = opts.truncation_hint@;
    let all = block_lines(qb, 0, opts.max_depth as nat, hint);
    assert(texts(r@) == all);
    assert(texts(r@).len() == r@.len());
    reveal_with_fuel(indent, 2);
    reveal_strlit("  ");
    assert(indent(1) =~= "  "@);
    assert(table_of(qb, 1, opts.max_depth as nat, hint) == seq![table_line(t, 1)]);
    assert(all[1] == table_line(t, 1));
    assert(texts(r@)[1] == r@[1]@);
}

/// Joins, sorting and grouping of a MySQL query block each have their line.
pub proof fn joins_sorting_and_grouping_are_shown(
    entry: Json,
    opts: FormatOptions,
    r: Vec<String>,
    qb: JsonTree,
)
    requires
        call_ensures(format_explain_tree, (&entry, &opts), r),
        opts.max_lines is None,
        entry@.at("plan"@) is Object,
        entry@.at("plan"@).at("Plan"@) is Null,
        entry@.at("plan"@).at("query_block"@) == qb,
        !(qb is Null),
    ensures
        qb.at("nested_loop"@).as_array() is Some ==> texts(r@).contains("  "@ + "nested_loop"@),
        !(qb.at("grouping_operation"@) is Null) ==> texts(r@).contains(
            "  "@ + "grouping_operation"@,
        ),
        !(qb.at("ordering_operation"@) is Null) && qb.at("ordering_operation"@).at(
            "using_filesort"@,
        ).as_bool() == Some(true) ==> texts(r@).contains(
            "  "@ + "ordering_operation"@ + " (filesort)"@,
        ),
        !(qb.at("ordering_operation"@) is Null) && qb.at("ordering_operation"@).at(
            "using_filesort"@,
        ).as_bool() != Some(true) ==> texts(r@).contains("  "@ + "ordering_operation"@ + ""@),
{
    let hint = opts.truncation_hint@;
    let max = opts.max_depth as nat;
    let all = block_lines(qb, 0, max, hint);
    assert(texts(r@) == all);
    reveal_with_fuel(indent, 2);
    reveal_strlit("  ");
    assert(indent(1) =~= "  "@);
    let a = table_of(qb, 1, max, hint);
    let b = join_part(qb, 0, max, hint);
    let c = ordering_part(qb, 0, max, hint);
    let d = grouping_part(qb, 0, max, hint);
    if qb.at("nested_loop"@).as_array() is Some {
        assert(all[1 + a.len() as int] == b[0]);
        assert(b[0] == "  "@ + "nested_loop"@);
    }
    if !(qb.at("ordering_operation"@) is Null) {
        assert(all[1 + a.len() as int + b.len() as int] == c[0]);
    }
    if !(qb.at("grouping_operation"@) is Null) {
        assert(all[1 + a.len() as int + b.len() as int + c.len() as int] == d[0]);
        assert(d[0] == "  "@ + "grouping_operation"@);
    }
}

} // verus!
