//! Shared risk analysis: what a statement touches and what a deletion drags
//! along through cascading foreign keys.

use vstd::prelude::*;

use crate::domain::{Operation, Workflow};
use crate::error::AppError;
use crate::json::{parsed_json, trees, Json, JsonTree};
use crate::ports::SchemaSnapshotRecord;
use crate::snapshot::{
    array_field, cascades, collect_cascade_refs, has_cascade, int_field, is_cascade,
    table_cascade_refs, table_cascades, text_field, text_field_or, text_or,
};
use crate::text::{
    concat3, eq_ignore_case, holds_text, lemma_holds_text, lemma_lex_irreflexive, lemma_lex_total,
    lemma_lex_trans, lex_less, lex_lt, list_holds, lowercase, same_ignoring_case, same_text, texts,
    to_lowercase,
};
use crate::use_cases::decision_trace::SchemaStatus;

verus! {

/// A table that a statement names.
pub struct TableRef {
    pub schema: Option<String>,
    pub name: String,
}

/// A table that loses rows when a row of another table is deleted.
pub struct CascadeChildInfo {
    pub table_name: String,
    pub schema_name: Option<String>,
    pub estimated_rows: i64,
    pub depth: u8,
}

impl CascadeChildInfo {
    /// A copy of the entry.
    pub fn copy(&self) -> (r: CascadeChildInfo)
        ensures
            r == *self,
    {
        CascadeChildInfo {
            table_name: self.table_name.clone(),
            schema_name: self.schema_name.clone(),
            estimated_rows: self.estimated_rows,
            depth: self.depth,
        }
    }
}

/// What is known about the risk of touching a table.
pub struct TableRiskInfo {
    pub name: String,
    pub estimated_rows: i64,
    pub has_cascade_fk: bool,
    pub cascade_targets: Vec<String>,
    pub cascade_children: Vec<CascadeChildInfo>,
    pub cascade_children_truncated: bool,
}

/// The state of the schema of a database, and when it was collected.
pub open spec fn schema_status_of(
    snapshot: Result<Option<SchemaSnapshotRecord>, AppError>,
) -> (SchemaStatus, Option<String>) {
    match snapshot {
        Ok(Some(s)) => if s.status@ == "ready"@ {
            (SchemaStatus::Ready, Some(s.collected_at))
        } else {
            (SchemaStatus::Failed, Some(s.collected_at))
        },
        _ => (SchemaStatus::NotSynced, None),
    }
}

/// The state of the schema of a database, and when it was collected, from the
/// reply of the snapshot lookup; a failed lookup counts as no snapshot.
pub fn resolve_schema_status(snapshot: &Result<Option<SchemaSnapshotRecord>, AppError>) -> (r: (
    SchemaStatus,
    Option<String>,
))
    ensures
        r == schema_status_of(*snapshot),
{
    match snapshot {
        Ok(Some(s)) => {
            if same_text(s.status.as_str(), "ready") {
                (SchemaStatus::Ready, Some(s.collected_at.clone()))
            } else {
                (SchemaStatus::Failed, Some(s.collected_at.clone()))
            }
        },
        _ => (SchemaStatus::NotSynced, None),
    }
}

/// Whether `r` says what the table document `t` says.
pub open spec fn risk_info_of(r: TableRiskInfo, t: JsonTree) -> bool {
    &&& r.name@ == text_or(t, "name"@, ""@)
    &&& r.estimated_rows == (match t.at("estimated_rows"@).as_int() {
        Some(n) => n,
        None => 0i64,
    })
    &&& r.has_cascade_fk == table_cascades(t)
    &&& texts(r.cascade_targets@) == table_cascade_refs(t)
    &&& r.cascade_children@.len() == 0
    &&& !r.cascade_children_truncated
}

/// Whether `r` lists what the table documents say, one entry each, in order.
pub open spec fn risk_infos_of(r: Seq<TableRiskInfo>, tables: Seq<JsonTree>) -> bool {
    r.len() == tables.len() && forall|i: int|
        0 <= i < r.len() ==> risk_info_of(#[trigger] r[i], tables[i])
}

/// The elements of a document that is an array; none otherwise.
pub open spec fn documents(text: Seq<char>) -> Seq<JsonTree> {
    match parsed_json(text) {
        Some(JsonTree::Array(s)) => s,
        _ => Seq::empty(),
    }
}

/// What the table documents say, one entry each, in order.
pub fn table_risk_infos(tables: &Vec<Json>) -> (r: Vec<TableRiskInfo>)
    ensures
        risk_infos_of(r@, trees(tables@)),
{
    let mut out: Vec<TableRiskInfo> = Vec::new();
    let n: usize = tables.len();
    let mut i: usize = 0;
    while i < n
        invariant
            i <= n,
            n == tables@.len(),
            out@.len() == i,
            forall|k: int| 0 <= k < i ==> risk_info_of(#[trigger] out@[k], trees(tables@)[k]),
        decreases n - i,
    {
        let t = &tables[i];
        assert(trees(tables@)[i as int] == t@);
        out.push(
            TableRiskInfo {
                name: text_field_or(t, "name", ""),
                estimated_rows: match int_field(t, "estimated_rows") {
                    Some(v) => v,
                    None => 0,
                },
                has_cascade_fk: has_cascade(t),
                cascade_targets: collect_cascade_refs(t),
                cascade_children: Vec::new(),
                cascade_children_truncated: false,
            },
        );
        i += 1;
    }
    out
}

/// What a text of table documents says about the risk of each table; nothing
/// where the text is no JSON array.
pub fn parse_table_risk_info(json: &str) -> (r: Vec<TableRiskInfo>)
    ensures
        risk_infos_of(r@, documents(json@)),
{
    match Json::parse(json) {
        Some(Json::Array(tables)) => table_risk_infos(&tables),
        _ => Vec::new(),
    }
}

/// The text that the risk of the named tables is read from: none where no
/// table is named, or where the lookup found nothing or failed.
pub open spec fn table_risk_source(
    tables: Seq<TableRef>,
    found: Result<Option<String>, AppError>,
) -> Option<String> {
    match found {
        Ok(Some(json)) => if tables.len() == 0 {
            None
        } else {
            Some(json)
        },
        _ => None,
    }
}

/// What is known about the risk of the named tables, from the reply of the
/// schema lookup.
pub fn resolve_table_risk(tables: &Vec<TableRef>, found: &Result<Option<String>, AppError>) -> (r:
    Vec<TableRiskInfo>)
    ensures
        match table_risk_source(tables@, *found) {
            Some(json) => risk_infos_of(r@, documents(json@)),
            None => r@.len() == 0,
        },
{
    if tables.len() == 0 {
        return Vec::new();
    }
    match found {
        Ok(Some(json)) => parse_table_risk_info(json.as_str()),
        _ => Vec::new(),
    }
}

/// Whether a read-only statement may pass without approval.
pub fn compute_allow_read_only(operation: Operation, workflow: &Workflow) -> (r: bool)
    ensures
        r == (operation is ExecuteSelect && workflow.auto_approve is Some
            && workflow.auto_approve->0.allow_read_only),
{
    match &workflow.auto_approve {
        Some(a) => operation == Operation::ExecuteSelect && a.allow_read_only,
        None => false,
    }
}

/// Whether a harmless schema change may pass without approval.
/// `all_stmts_safe_ddl` tells whether there is one statement and it is such a
/// change.
pub fn compute_safe_ddl(workflow: &Workflow, all_stmts_safe_ddl: bool, findings_empty: bool) -> (r:
    bool)
    ensures
        r == (workflow.auto_approve is Some && workflow.auto_approve->0.allow_safe_ddl
            && all_stmts_safe_ddl && findings_empty),
{
    match &workflow.auto_approve {
        Some(a) => a.allow_safe_ddl && all_stmts_safe_ddl && findings_empty,
        None => false,
    }
}

/// Above how many rows a table counts as large.
pub fn max_estimated_rows(workflow: &Workflow) -> (r: i64)
    ensures
        r == (match workflow.auto_approve {
            Some(a) => a.max_estimated_rows,
            None => 1000i64,
        }),
{
    match &workflow.auto_approve {
        Some(a) => a.max_estimated_rows,
        None => 1000,
    }
}

/// How far the search for dependent tables goes.
pub const MAX_CASCADE_DEPTH: u8 = 3;

/// The key under which a table is found whatever the case of its name.
pub open spec fn canonical(schema: Seq<char>, name: Seq<char>) -> Seq<char> {
    lowercase(schema) + "."@ + lowercase(name)
}

/// The key under which a table is found whatever the case of its name.
pub fn canonical_key(schema: &str, name: &str) -> (r: String)
    ensures
        r@ == canonical(schema@, name@),
{
    concat3(to_lowercase(schema).as_str(), ".", to_lowercase(name).as_str())
}

/// A cascading foreign key: rows of the child table go with a row of the table
/// whose key is `parent`.
pub ghost struct EdgeView {
    pub parent: Seq<char>,
    pub name: Seq<char>,
    pub schema: Seq<char>,
    pub rows: i64,
}

impl EdgeView {
    /// The key of the child table.
    pub open spec fn key(self) -> Seq<char> {
        canonical(self.schema, self.name)
    }
}

/// A cascading foreign key.
pub struct CascadeEdge {
    pub parent: String,
    pub child_key: String,
    pub child_name: String,
    pub child_schema: String,
    pub child_rows: i64,
}

impl View for CascadeEdge {
    type V = EdgeView;

    open spec fn view(&self) -> EdgeView {
        EdgeView {
            parent: self.parent@,
            name: self.child_name@,
            schema: self.child_schema@,
            rows: self.child_rows,
        }
    }
}

/// The foreign keys as a graph.
pub open spec fn graph(edges: Seq<CascadeEdge>) -> Seq<EdgeView> {
    edges.map_values(|e: CascadeEdge| e@)
}

/// Whether each foreign key carries the key of its child table.
pub open spec fn keyed(edges: Seq<CascadeEdge>) -> bool {
    forall|i: int| 0 <= i < edges.len() ==> (#[trigger] edges[i]).child_key@ == edges[i]@.key()
}

/// The schema of a table document.
pub open spec fn table_schema(table: JsonTree) -> Seq<char> {
    text_or(table, "schema_name"@, "public"@)
}

/// The foreign key that the constraint `c` of `table` stands for, if it
/// cascades and names the table it refers to.
pub open spec fn constraint_edge(table: JsonTree, c: JsonTree) -> Option<EdgeView> {
    match c.at("referenced_table"@).as_text() {
        Some(referenced) => if cascades(c) {
            Some(
                EdgeView {
                    parent: canonical(
                        text_or(c, "referenced_schema"@, table_schema(table)),
                        referenced,
                    ),
                    name: text_or(table, "name"@, ""@),
                    schema: table_schema(table),
                    rows: match table.at("estimated_rows"@).as_int() {
                        Some(n) => n,
                        None => 0i64,
                    },
                },
            )
        } else {
            None
        },
        None => None,
    }
}

/// The foreign keys among the constraints of a table, in order.
pub open spec fn constraint_edges(table: JsonTree, cs: Seq<JsonTree>) -> Seq<EdgeView>
    decreases cs.len(),
{
    if cs.len() == 0 {
        Seq::empty()
    } else {
        let rest = constraint_edges(table, cs.drop_last());
        match constraint_edge(table, cs.last()) {
            Some(e) => rest.push(e),
            None => rest,
        }
    }
}

/// The foreign keys of all tables, in order.
pub open spec fn snapshot_edges(tables: Seq<JsonTree>) -> Seq<EdgeView>
    decreases tables.len(),
{
    if tables.len() == 0 {
        Seq::empty()
    } else {
        let rest = snapshot_edges(tables.drop_last());
        match tables.last().at("constraints"@).as_array() {
            Some(cs) => rest + constraint_edges(tables.last(), cs),
            None => rest,
        }
    }
}

/// Adds the cascading foreign keys of one table.
fn collect_table_edges(table: &Json, out: &mut Vec<CascadeEdge>)
    requires
        keyed(old(out)@),
    ensures
        keyed(final(out)@),
        graph(final(out)@) == (match table@.at("constraints"@).as_array() {
            Some(cs) => graph(old(out)@) + constraint_edges(table@, cs),
            None => graph(old(out)@),
        }),
{
    let child_name = text_field_or(table, "name", "");
    let child_schema = text_field_or(table, "schema_name", "public");
    let child_rows: i64 = match int_field(table, "estimated_rows") {
        Some(v) => v,
        None => 0,
    };
    match array_field(table, "constraints") {
        Some(cs) => {
            let ghost base = graph(out@);
            let ghost all = trees(cs@);
            let n: usize = cs.len();
            let mut i: usize = 0;
            assert(base + constraint_edges(table@, all.take(0)) =~= base);
            while i < n
                invariant
                    i <= n,
                    n == cs@.len(),
                    all == trees(cs@),
                    keyed(out@),
                    child_name@ == text_or(table@, "name"@, ""@),
                    child_schema@ == table_schema(table@),
                    child_rows == (match table@.at("estimated_rows"@).as_int() {
                        Some(v) => v,
                        None => 0i64,
                    }),
                    graph(out@) == base + constraint_edges(table@, all.take(i as int)),
                decreases n - i,
            {
                let c = &cs[i];
                proof {
                    assert(all.take(i + 1).drop_last() =~= all.take(i as int));
                    assert(all.take(i + 1).last() == c@);
                }
                let ghost before = out@;
                if is_cascade(c) {
                    match text_field(c, "referenced_table") {
                        Some(referenced) => {
                            let ref_schema = text_field_or(
                                c,
                                "referenced_schema",
                                child_schema.as_str(),
                            );
                            out.push(
                                CascadeEdge {
                                    parent: canonical_key(
                                        ref_schema.as_str(),
                                        referenced.as_str(),
                                    ),
                                    child_key: canonical_key(
                                        child_schema.as_str(),
                                        child_name.as_str(),
                                    ),
                                    child_name: child_name.clone(),
                                    child_schema: child_schema.clone(),
                                    child_rows,
                                },
                            );
                            proof {
                                let e = out@.last()@;
                                assert(graph(out@) =~= graph(before).push(e));
                                assert(constraint_edge(table@, c@) == Some(e));
                                assert(base + constraint_edges(table@, all.take(i as int)).push(e)
                                    =~= graph(before).push(e));
                            }
                        },
                        None => {},
                    }
                }
                i += 1;
            }
            assert(all.take(n as int) =~= all);
        },
        None => {},
    }
}

/// The cascading foreign keys of a snapshot, in order.
pub fn collect_edges(tables: &Vec<Json>) -> (r: Vec<CascadeEdge>)
    ensures
        keyed(r@),
        graph(r@) == snapshot_edges(trees(tables@)),
{
    let mut out: Vec<CascadeEdge> = Vec::new();
    let ghost all = trees(tables@);
    let n: usize = tables.len();
    let mut i: usize = 0;
    assert(graph(out@) =~= snapshot_edges(all.take(0)));
    while i < n
        invariant
            i <= n,
            n == tables@.len(),
            all == trees(tables@),
            keyed(out@),
            graph(out@) == snapshot_edges(all.take(i as int)),
        decreases n - i,
    {
        proof {
            assert(all.take(i + 1).drop_last() =~= all.take(i as int));
            assert(all.take(i + 1).last() == tables@[i as int]@);
        }
        collect_table_edges(&tables[i], &mut out);
        i += 1;
    }
    assert(all.take(n as int) =~= all);
    out
}

/// Whether some foreign key leads from a table of `from` to the table `k`.
pub open spec fn leads_to(g: Seq<EdgeView>, from: Set<Seq<char>>, k: Seq<char>) -> bool {
    exists|x: int| 0 <= x < g.len() && from.contains((#[trigger] g[x]).parent) && g[x].key() == k
}

/// The tables that lose rows within `n` steps of a deletion in the table `t`,
/// with `t` itself.
pub open spec fn reach(g: Seq<EdgeView>, t: Seq<char>, n: nat) -> Set<Seq<char>>
    decreases n,
{
    if n == 0 {
        set![t]
    } else {
        let r = reach(g, t, (n - 1) as nat);
        r.union(Set::new(|k: Seq<char>| leads_to(g, r, k)))
    }
}

/// The tables that are found, in order, once those among the first `n` foreign
/// keys that lead from the table `from` are followed: each leads to its child
/// table, which is added to the found tables `q` unless it is among them.
pub open spec fn follow(g: Seq<EdgeView>, q: Seq<Seq<char>>, from: Seq<char>, n: nat) -> Seq<
    Seq<char>,
>
    decreases n,
{
    if n == 0 {
        q
    } else {
        let found = follow(g, q, from, (n - 1) as nat);
        let e = g[n - 1];
        if e.parent == from && !found.contains(e.key()) {
            found.push(e.key())
        } else {
            found
        }
    }
}

/// The tables found from `t`, in the order of the search, when the foreign keys
/// of the first `n` of them are followed.
pub open spec fn search(g: Seq<EdgeView>, t: Seq<char>, n: nat) -> Seq<Seq<char>>
    decreases n,
{
    if n == 0 {
        seq![t]
    } else {
        let found = search(g, t, (n - 1) as nat);
        if n - 1 < found.len() {
            follow(g, found, found[n - 1], g.len())
        } else {
            found
        }
    }
}

/// Whether the foreign key `x` of the table found at place `n` is the one by
/// which its child table is found.
pub open spec fn found_by(g: Seq<EdgeView>, t: Seq<char>, n: nat, x: int) -> bool {
    let found = search(g, t, n);
    &&& n < found.len()
    &&& 0 <= x < g.len()
    &&& g[x].parent == found[n as int]
    &&& !follow(g, found, found[n as int], x as nat).contains(g[x].key())
}

/// Whether the foreign key `x` is the first one of `t` to itself under the name
/// of its child table.
pub open spec fn first_to_itself(g: Seq<EdgeView>, t: Seq<char>, x: int) -> bool {
    &&& 0 <= x < g.len()
    &&& g[x].parent == t
    &&& g[x].key() == t
    &&& forall|y: int|
        0 <= y < x && (#[trigger] g[y]).parent == t && g[y].name == g[x].name ==> g[y].schema
            != g[x].schema
}

/// Whether `e` stands for the foreign key `x`: the first by which the search
/// finds the table, or the first of `t` to itself under that name.
pub open spec fn stands_for(g: Seq<EdgeView>, t: Seq<char>, e: CascadeChildInfo, x: int) -> bool {
    &&& 0 <= x < g.len()
    &&& g[x].name == e.table_name@
    &&& g[x].schema == e.schema_name->0@
    &&& g[x].rows == e.estimated_rows
    &&& reach(g, t, (e.depth - 1) as nat).contains(g[x].parent)
    &&& if entry_key(e) == t {
        first_to_itself(g, t, x)
    } else {
        exists|n: nat| #[trigger] found_by(g, t, n, x)
    }
}

/// Whether `e` is an entry for a table at its distance from `t`: it stands for
/// the foreign key by which the table is found, whose parent is one step nearer.
/// A foreign key of `t` to itself is listed at distance one.
pub open spec fn child_entry(g: Seq<EdgeView>, t: Seq<char>, e: CascadeChildInfo) -> bool {
    &&& e.schema_name is Some
    &&& 1 <= e.depth <= MAX_CASCADE_DEPTH
    &&& exists|x: int| #[trigger] stands_for(g, t, e, x)
    &&& if entry_key(e) == t {
        e.depth == 1
    } else {
        reach(g, t, e.depth as nat).contains(entry_key(e)) && !reach(
            g,
            t,
            (e.depth - 1) as nat,
        ).contains(entry_key(e))
    }
}

/// The key of the table of an entry.
pub open spec fn entry_key(e: CascadeChildInfo) -> Seq<char> {
    canonical(e.schema_name->0@, e.table_name@)
}

/// The order of entries: by schema, then by name.
pub open spec fn entry_lt(a: CascadeChildInfo, b: CascadeChildInfo) -> bool {
    lex_lt(a.schema_name->0@, b.schema_name->0@) || (a.schema_name->0@ == b.schema_name->0@
        && lex_lt(a.table_name@, b.table_name@))
}

/// Whether the entries are in order, none twice.
pub open spec fn entries_ordered(c: Seq<CascadeChildInfo>) -> bool {
    &&& forall|i: int| 0 <= i < c.len() ==> (#[trigger] c[i]).schema_name is Some
    &&& forall|i: int, j: int| 0 <= i < j < c.len() ==> entry_lt(#[trigger] c[i], #[trigger] c[j])
}

/// Whether `c` lists the tables within reach of a deletion in `t`, each once,
/// and `truncated` tells whether there are more beyond.
#[verifier::opaque]
pub open spec fn cascade_listing(
    g: Seq<EdgeView>,
    t: Seq<char>,
    c: Seq<CascadeChildInfo>,
    truncated: bool,
) -> bool {
    &&& entries_ordered(c)
    &&& forall|i: int| 0 <= i < c.len() ==> child_entry(g, t, #[trigger] c[i])
    &&& forall|k: Seq<char>| #[trigger]
        reach(g, t, MAX_CASCADE_DEPTH as nat).contains(k) && k != t ==> exists|i: int|
            0 <= i < c.len() && entry_key(#[trigger] c[i]) == k
    &&& forall|i: int, j: int|
        0 <= i < j < c.len() && entry_key(#[trigger] c[i]) == entry_key(#[trigger] c[j])
            ==> entry_key(c[i]) == t
    &&& forall|x: int|
        0 <= x < g.len() && (#[trigger] g[x]).parent == t && g[x].key() == t ==> exists|i: int|
            0 <= i < c.len() && (#[trigger] c[i]).table_name@ == g[x].name
                && c[i].schema_name->0@ == g[x].schema
    &&& truncated <==> exists|k: Seq<char>| #[trigger]
        reach(g, t, (MAX_CASCADE_DEPTH + 1) as nat).contains(k) && !reach(
            g,
            t,
            MAX_CASCADE_DEPTH as nat,
        ).contains(k)
}

/// The reach grows with the number of steps.
pub proof fn lemma_reach_grows(g: Seq<EdgeView>, t: Seq<char>, m: nat, n: nat)
    requires
        m <= n,
    ensures
        forall|k: Seq<char>| #[trigger] reach(g, t, m).contains(k) ==> reach(g, t, n).contains(k),
    decreases n,
{
    if m < n {
        lemma_reach_grows(g, t, m, (n - 1) as nat);
    }
}

/// The order of entries is transitive and total.
proof fn lemma_entry_order(a: CascadeChildInfo, b: CascadeChildInfo, c: CascadeChildInfo)
    ensures
        entry_lt(a, b) && entry_lt(b, c) ==> entry_lt(a, c),
        entry_lt(a, b) || entry_lt(b, a) || (a.schema_name->0@ == b.schema_name->0@
            && a.table_name@ == b.table_name@),
        !(a.schema_name->0@ == b.schema_name->0@ && a.table_name@ == b.table_name@ && entry_lt(
            a,
            b,
        )),
{
    let (sa, sb, sc) = (a.schema_name->0@, b.schema_name->0@, c.schema_name->0@);
    let (na, nb, nc) = (a.table_name@, b.table_name@, c.table_name@);
    lemma_lex_total(sa, sb);
    lemma_lex_total(na, nb);
    lemma_lex_irreflexive(sa);
    lemma_lex_irreflexive(na);
    if lex_lt(sa, sb) && lex_lt(sb, sc) {
        lemma_lex_trans(sa, sb, sc);
    }
    if lex_lt(na, nb) && lex_lt(nb, nc) {
        lemma_lex_trans(na, nb, nc);
    }
}

fn entry_less(a: &CascadeChildInfo, b: &CascadeChildInfo) -> (r: bool)
    requires
        a.schema_name is Some,
        b.schema_name is Some,
    ensures
        r == entry_lt(*a, *b),
{
    match (&a.schema_name, &b.schema_name) {
        (Some(sa), Some(sb)) => {
            lex_less(sa.as_str(), sb.as_str()) || (same_text(sa.as_str(), sb.as_str())
                && lex_less(a.table_name.as_str(), b.table_name.as_str()))
        },
        _ => false,
    }
}

/// Whether some entry of `c` names the table of `e`.
pub open spec fn listed(c: Seq<CascadeChildInfo>, e: CascadeChildInfo) -> bool {
    exists|i: int|
        0 <= i < c.len() && (#[trigger] c[i]).table_name@ == e.table_name@ && c[i].schema_name->0@
            == e.schema_name->0@
}

/// Adds an entry at its place, unless its table is listed already.
fn insert_child(list: &mut Vec<CascadeChildInfo>, e: CascadeChildInfo)
    requires
        entries_ordered(old(list)@),
        e.schema_name is Some,
    ensures
        entries_ordered(final(list)@),
        listed(old(list)@, e) ==> final(list)@ == old(list)@,
        !listed(old(list)@, e) ==> exists|p: int|
            0 <= p <= old(list)@.len() && #[trigger] old(list)@.insert(p, e) == final(list)@,
{
    let n: usize = list.len();
    let mut p: usize = 0;
    while p < n && entry_less(&list[p], &e)
        invariant
            p <= n,
            n == list@.len(),
            list@ == old(list)@,
            entries_ordered(list@),
            e.schema_name is Some,
            forall|i: int| 0 <= i < p ==> entry_lt(#[trigger] list@[i], e),
        decreases n - p,
    {
        p += 1;
    }
    proof {
        assert forall|i: int| 0 <= i < p implies !((#[trigger] list@[i]).table_name@ == e.table_name@
            && list@[i].schema_name->0@ == e.schema_name->0@) by {
            lemma_entry_order(list@[i], e, e);
        }
    }
    if p < n {
        proof {
            lemma_entry_order(list@[p as int], e, e);
        }
        if !entry_less(&e, &list[p]) {
            proof {
                lemma_entry_order(e, list@[p as int], e);
                assert(listed(list@, e));
            }
            return ;
        }
    }
    proof {
        assert forall|i: int| p <= i < n implies entry_lt(e, #[trigger] list@[i]) by {
            if i > p {
                lemma_entry_order(e, list@[p as int], list@[i]);
            }
        }
        assert forall|i: int| p <= i < n implies !((#[trigger] list@[i]).table_name@ == e.table_name@
            && list@[i].schema_name->0@ == e.schema_name->0@) by {
            lemma_entry_order(e, list@[i], e);
        }
    }
    let ghost before = list@;
    list.insert(p, e);
    proof {
        assert(before.insert(p as int, e) == list@);
        let c = list@;
        assert forall|i: int, j: int| 0 <= i < j < c.len() implies entry_lt(
            #[trigger] c[i],
            #[trigger] c[j],
        ) by {
            let bi = if i < p { before[i] } else { before[i - 1] };
            let bj = if j < p { before[j] } else { before[j - 1] };
            if i != p {
                assert(c[i] == bi);
            }
            if j != p {
                assert(c[j] == bj);
            }
        }
        assert forall|i: int| 0 <= i < c.len() implies (#[trigger] c[i]).schema_name is Some by {
            if i < p {
                assert(c[i] == before[i]);
            } else if i > p {
                assert(c[i] == before[i - 1]);
            }
        }
    }
}

/// Whether the entries `c` stand for the found tables `q`.
spec fn entries_for(
    g: Seq<EdgeView>,
    t: Seq<char>,
    q: Seq<String>,
    c: Seq<CascadeChildInfo>,
) -> bool {
    &&& entries_ordered(c)
    &&& forall|i: int| 0 <= i < c.len() ==> child_entry(g, t, #[trigger] c[i])
    &&& forall|i: int| 0 <= i < c.len() ==> holds_text(q, entry_key(#[trigger] c[i]))
    &&& forall|j: int|
        0 <= j < q.len() && (#[trigger] q[j])@ != t ==> exists|i: int|
            0 <= i < c.len() && entry_key(#[trigger] c[i]) == q[j]@
    &&& forall|i: int, j: int|
        0 <= i < j < c.len() && entry_key(#[trigger] c[i]) == entry_key(#[trigger] c[j])
            ==> entry_key(c[i]) == t
}

/// Whether the foreign key `x`, if it leads from `t` to itself, is listed.
spec fn self_listed(g: Seq<EdgeView>, t: Seq<char>, c: Seq<CascadeChildInfo>, x: int) -> bool {
    g[x].parent == t && g[x].key() == t ==> exists|i: int|
        0 <= i < c.len() && (#[trigger] c[i]).table_name@ == g[x].name && c[i].schema_name->0@
            == g[x].schema
}

/// A listed foreign key stays listed when an entry is added.
proof fn lemma_self_listed_insert(
    g: Seq<EdgeView>,
    t: Seq<char>,
    c: Seq<CascadeChildInfo>,
    e: CascadeChildInfo,
    p: int,
    x: int,
)
    requires
        0 <= p <= c.len(),
        self_listed(g, t, c, x),
    ensures
        self_listed(g, t, c.insert(p, e), x),
{
    if g[x].parent == t && g[x].key() == t {
        let i = choose|i: int|
            0 <= i < c.len() && (#[trigger] c[i]).table_name@ == g[x].name && c[i].schema_name->0@
                == g[x].schema;
        let d = c.insert(p, e);
        if i < p {
            assert(d[i] == c[i]);
        } else {
            assert(d[i + 1] == c[i]);
        }
    }
}

/// Adding the entry of a newly found table keeps the entries right.
proof fn lemma_new_entry(
    g: Seq<EdgeView>,
    t: Seq<char>,
    q: Seq<String>,
    c: Seq<CascadeChildInfo>,
    k: String,
    e: CascadeChildInfo,
    p: int,
)
    requires
        entries_for(g, t, q, c),
        child_entry(g, t, e),
        entry_key(e) == k@,
        !holds_text(q, k@),
        0 <= p <= c.len(),
        entries_ordered(c.insert(p, e)),
    ensures
        entries_for(g, t, q.push(k), c.insert(p, e)),
{
    let d = c.insert(p, e);
    let r = q.push(k);
    assert(r[q.len() as int] == k);
    assert forall|i: int| 0 <= i < d.len() implies child_entry(g, t, #[trigger] d[i])
        && holds_text(r, entry_key(d[i])) by {
        if i != p {
            let o = if i < p { i } else { i - 1 };
            assert(d[i] == c[o]);
            let j = choose|j: int| 0 <= j < q.len() && (#[trigger] q[j])@ == entry_key(c[o]);
            assert(r[j] == q[j]);
        }
    }
    assert forall|j: int| 0 <= j < r.len() && (#[trigger] r[j])@ != t implies exists|i: int|
        0 <= i < d.len() && entry_key(#[trigger] d[i]) == r[j]@ by {
        if j < q.len() {
            assert(r[j] == q[j]);
            let i = choose|i: int| 0 <= i < c.len() && entry_key(#[trigger] c[i]) == q[j]@;
            if i < p {
                assert(d[i] == c[i]);
            } else {
                assert(d[i + 1] == c[i]);
            }
        } else {
            assert(d[p] == e);
        }
    }
    assert forall|i: int, j: int|
        0 <= i < j < d.len() && entry_key(#[trigger] d[i]) == entry_key(#[trigger] d[j]) implies
        entry_key(d[i]) == t by {
        let oi = if i < p { i } else { i - 1 };
        let oj = if j < p { j } else { j - 1 };
        if i != p && j != p {
            assert(d[i] == c[oi]);
            assert(d[j] == c[oj]);
        } else if i == p {
            assert(d[j] == c[oj]);
            assert(holds_text(q, entry_key(c[oj])));
        } else {
            assert(d[i] == c[oi]);
            assert(holds_text(q, entry_key(c[oi])));
        }
    }
}

/// Adding an entry of the starting table keeps the entries right.
proof fn lemma_self_entry(
    g: Seq<EdgeView>,
    t: Seq<char>,
    q: Seq<String>,
    c: Seq<CascadeChildInfo>,
    e: CascadeChildInfo,
    p: int,
)
    requires
        entries_for(g, t, q, c),
        child_entry(g, t, e),
        entry_key(e) == t,
        holds_text(q, t),
        0 <= p <= c.len(),
        entries_ordered(c.insert(p, e)),
    ensures
        entries_for(g, t, q, c.insert(p, e)),
{
    let d = c.insert(p, e);
    assert forall|i: int| 0 <= i < d.len() implies child_entry(g, t, #[trigger] d[i])
        && holds_text(q, entry_key(d[i])) by {
        if i != p {
            let o = if i < p { i } else { i - 1 };
            assert(d[i] == c[o]);
        }
    }
    assert forall|j: int| 0 <= j < q.len() && (#[trigger] q[j])@ != t implies exists|i: int|
        0 <= i < d.len() && entry_key(#[trigger] d[i]) == q[j]@ by {
        let i = choose|i: int| 0 <= i < c.len() && entry_key(#[trigger] c[i]) == q[j]@;
        if i < p {
            assert(d[i] == c[i]);
        } else {
            assert(d[i + 1] == c[i]);
        }
    }
    assert forall|i: int, j: int|
        0 <= i < j < d.len() && entry_key(#[trigger] d[i]) == entry_key(#[trigger] d[j]) implies
        entry_key(d[i]) == t by {
        let oi = if i < p { i } else { i - 1 };
        let oj = if j < p { j } else { j - 1 };
        if i != p && j != p {
            assert(d[i] == c[oi]);
            assert(d[j] == c[oj]);
        }
    }
}

/// What holds between two levels of the search: the found tables are those
/// within `d` steps, and those before `lo` are nearer than that.
spec fn level_found(g: Seq<EdgeView>, t: Seq<char>, q: Seq<String>, lo: int, d: nat) -> bool {
    &&& forall|k: Seq<char>| #[trigger] holds_text(q, k) <==> reach(g, t, d).contains(k)
    &&& 0 <= lo <= q.len()
    &&& forall|i: int|
        0 <= i < lo ==> d > 0 && reach(g, t, (d - 1) as nat).contains((#[trigger] q[i])@)
}

/// What holds while the tables found at distance `d`, the first `hi` of them,
/// are expanded.
spec fn level_grows(
    g: Seq<EdgeView>,
    t: Seq<char>,
    q: Seq<String>,
    start: Seq<String>,
    lo: int,
    d: nat,
) -> bool {
    &&& level_found(g, t, start, lo, d)
    &&& start.len() <= q.len()
    &&& q.take(start.len() as int) == start
    &&& forall|j: int| 0 <= j < q.len() ==> reach(g, t, d + 1).contains((#[trigger] q[j])@)
}

/// While a level grows, everything found before stays found.
proof fn lemma_growing_holds(
    g: Seq<EdgeView>,
    t: Seq<char>,
    q: Seq<String>,
    start: Seq<String>,
    lo: int,
    d: nat,
    k: Seq<char>,
)
    requires
        level_grows(g, t, q, start, lo, d),
        reach(g, t, d).contains(k),
    ensures
        holds_text(q, k),
{
    assert(holds_text(start, k));
    let i = choose|i: int| 0 <= i < start.len() && (#[trigger] start[i])@ == k;
    assert(q.take(start.len() as int)[i] == q[i]);
    assert(q[i]@ == k);
}

/// Once every table of a level is expanded, the next level is complete.
proof fn lemma_level_done(
    g: Seq<EdgeView>,
    t: Seq<char>,
    q: Seq<String>,
    start: Seq<String>,
    lo: int,
    d: nat,
)
    requires
        level_grows(g, t, q, start, lo, d),
        forall|i: int, x: int|
            lo <= i < start.len() && 0 <= x < g.len() && (#[trigger] g[x]).parent
                == (#[trigger] start[i])@ ==> holds_text(q, g[x].key()),
    ensures
        level_found(g, t, q, start.len() as int, d + 1),
{
    assert forall|k: Seq<char>| #[trigger] holds_text(q, k) <==> reach(g, t, d + 1).contains(
        k,
    ) by {
        if reach(g, t, d + 1).contains(k) {
            if reach(g, t, d).contains(k) {
                lemma_growing_holds(g, t, q, start, lo, d, k);
            } else {
                let x = choose|x: int|
                    0 <= x < g.len() && reach(g, t, d).contains((#[trigger] g[x]).parent)
                        && g[x].key() == k;
                assert(holds_text(start, g[x].parent));
                let i = choose|i: int| 0 <= i < start.len() && (#[trigger] start[i])@ == g[x].parent;
                if i < lo {
                    assert(reach(g, t, (d - 1) as nat).contains(start[i]@));
                    assert(leads_to(g, reach(g, t, (d - 1) as nat), k));
                }
            }
        }
    }
    assert forall|i: int| 0 <= i < start.len() implies reach(g, t, d).contains(
        (#[trigger] q[i])@,
    ) by {
        assert(q.take(start.len() as int)[i] == start[i]);
        assert(holds_text(start, start[i]@));
    }
}

/// The tables that lose rows when rows of `target` are deleted, up to three
/// foreign keys away, and whether there are more beyond.
pub fn cascade_children(edges: &Vec<CascadeEdge>, target: &str) -> (r: (Vec<CascadeChildInfo>, bool))
    requires
        keyed(edges@),
    ensures
        cascade_listing(graph(edges@), target@, r.0@, r.1),
{
    let ghost g = graph(edges@);
    let ghost t = target@;
    let n: usize = edges.len();
    let mut children: Vec<CascadeChildInfo> = Vec::new();
    let mut found: Vec<String> = Vec::new();
    found.push(target.to_string());
    let mut lo: usize = 0;
    let mut depth: u8 = 0;
    proof {
        assert(found@[0]@ == t);
        assert forall|k: Seq<char>| #[trigger] holds_text(found@, k) <==> reach(
            g,
            t,
            0,
        ).contains(k) by {
            if k == t {
                assert(found@[0]@ == k);
            }
        }
        assert(reach(g, t, 0).contains(t));
        assert(texts(found@) =~= search(g, t, 0));
    }
    while depth < MAX_CASCADE_DEPTH
        invariant
            texts(found@) == search(g, t, lo as nat),
            depth <= MAX_CASCADE_DEPTH,
            g == graph(edges@),
            t == target@,
            n == edges@.len(),
            keyed(edges@),
            reach(g, t, 0).contains(t),
            level_found(g, t, found@, lo as int, depth as nat),
            entries_for(g, t, found@, children@),
            depth > 0 ==> forall|x: int| 0 <= x < g.len() ==> #[trigger] self_listed(
                g,
                t,
                children@,
                x,
            ),
            depth == 0 ==> found@.len() == 1 && found@[0]@ == t && lo == 0,
        decreases MAX_CASCADE_DEPTH - depth,
    {
        let ghost start = found@;
        let hi: usize = found.len();
        let mut i: usize = lo;
        proof {
            lemma_reach_grows(g, t, depth as nat, (depth + 1) as nat);
            lemma_reach_grows(g, t, 0, depth as nat);
            assert(found@.take(hi as int) =~= start);
            assert forall|j: int| 0 <= j < found@.len() implies reach(
                g,
                t,
                (depth + 1) as nat,
            ).contains((#[trigger] found@[j])@) by {
                assert(holds_text(found@, found@[j]@));
            }
        }
        while i < hi
            invariant
                lo <= i <= hi,
                hi == start.len(),
                depth < MAX_CASCADE_DEPTH,
                texts(found@) == search(g, t, i as nat),
                g == graph(edges@),
                t == target@,
                n == edges@.len(),
                keyed(edges@),
                reach(g, t, 0).contains(t),
                reach(g, t, depth as nat).contains(t),
                level_grows(g, t, found@, start, lo as int, depth as nat),
                entries_for(g, t, found@, children@),
                depth > 0 ==> forall|x: int| 0 <= x < g.len() ==> #[trigger] self_listed(
                    g,
                    t,
                    children@,
                    x,
                ),
                depth == 0 ==> start.len() == 1 && start[0]@ == t && lo == 0,
                depth == 0 && i > 0 ==> forall|x: int|
                    0 <= x < g.len() ==> #[trigger] self_listed(g, t, children@, x),
                forall|j: int, x: int|
                    lo <= j < i && 0 <= x < g.len() && (#[trigger] g[x]).parent
                        == (#[trigger] start[j])@ ==> holds_text(found@, g[x].key()),
            decreases hi - i,
        {
            assert(found@.take(hi as int)[i as int] == start[i as int]);
            let current = found[i].clone();
            assert(holds_text(start, current@)) by {
                assert(start[i as int]@ == current@);
            }
            assert(reach(g, t, depth as nat).contains(current@));
            let ghost known = texts(found@);
            assert(known[i as int] == current@);
            let mut x: usize = 0;
            while x < n
                invariant
                    x <= n,
                    known == search(g, t, i as nat),
                    i < known.len(),
                    known[i as int] == current@,
                    texts(found@) == follow(g, known, current@, x as nat),
                    lo <= i < hi,
                    hi == start.len(),
                    depth < MAX_CASCADE_DEPTH,
                    g == graph(edges@),
                    t == target@,
                    n == edges@.len(),
                    keyed(edges@),
                    reach(g, t, 0).contains(t),
                    reach(g, t, depth as nat).contains(t),
                    reach(g, t, depth as nat).contains(current@),
                    current@ == start[i as int]@,
                    level_grows(g, t, found@, start, lo as int, depth as nat),
                    entries_for(g, t, found@, children@),
                    depth > 0 ==> forall|y: int| 0 <= y < g.len() ==> #[trigger] self_listed(
                        g,
                        t,
                        children@,
                        y,
                    ),
                    depth == 0 ==> current@ == t && i == 0 && lo == 0,
                    depth == 0 ==> forall|y: int| 0 <= y < x ==> #[trigger] self_listed(
                        g,
                        t,
                        children@,
                        y,
                    ),
                    forall|j: int, y: int|
                        lo <= j < i && 0 <= y < g.len() && (#[trigger] g[y]).parent
                            == (#[trigger] start[j])@ ==> holds_text(found@, g[y].key()),
                    forall|y: int|
                        0 <= y < x && (#[trigger] g[y]).parent == current@ ==> holds_text(
                            found@,
                            g[y].key(),
                        ),
                decreases n - x,
            {
                let e = &edges[x];
                assert(g[x as int] == e@);
                if same_text(e.parent.as_str(), current.as_str()) {
                    let ghost c0 = children@;
                    let ghost q0 = found@;
                    proof {
                        lemma_holds_text(found@, e.child_key@);
                    }
                    let is_target: bool = same_text(e.child_key.as_str(), target);
                    if is_target {
                        proof {
                            lemma_growing_holds(g, t, found@, start, lo as int, depth as nat, t);
                        }
                        if depth == 0 {
                            let entry = CascadeChildInfo {
                                table_name: e.child_name.clone(),
                                schema_name: Some(e.child_schema.clone()),
                                estimated_rows: e.child_rows,
                                depth: 1,
                            };
                            let ghost added = entry;
                            proof {
                                if !listed(c0, added) {
                                    assert forall|y: int|
                                        0 <= y < x && (#[trigger] g[y]).parent == t && g[y].name
                                            == g[x as int].name implies g[y].schema
                                        != g[x as int].schema by {
                                        assert(self_listed(g, t, c0, y));
                                    }
                                    assert(first_to_itself(g, t, x as int));
                                    assert(stands_for(g, t, added, x as int));
                                }
                            }
                            insert_child(&mut children, entry);
                            proof {
                                if listed(c0, added) {
                                    let w = choose|w: int|
                                        0 <= w < c0.len() && (#[trigger] c0[w]).table_name@
                                            == added.table_name@ && c0[w].schema_name->0@
                                            == added.schema_name->0@;
                                    assert(children@[w].table_name@ == g[x as int].name);
                                } else {
                                    let p = choose|p: int|
                                        0 <= p <= c0.len() && #[trigger] c0.insert(p, added)
                                            == children@;
                                    lemma_self_entry(g, t, found@, c0, added, p);
                                    assert forall|y: int| 0 <= y < x implies #[trigger] self_listed(
                                        g,
                                        t,
                                        children@,
                                        y,
                                    ) by {
                                        lemma_self_listed_insert(g, t, c0, added, p, y);
                                    }
                                    assert(children@[p] == added);
                                }
                                assert(self_listed(g, t, children@, x as int));
                            }
                        }
                    } else if !list_holds(&found, e.child_key.as_str()) {
                        proof {
                            if reach(g, t, depth as nat).contains(e.child_key@) {
                                lemma_growing_holds(
                                    g,
                                    t,
                                    found@,
                                    start,
                                    lo as int,
                                    depth as nat,
                                    e.child_key@,
                                );
                            }
                            assert(leads_to(g, reach(g, t, depth as nat), e.child_key@));
                            assert(reach(g, t, (depth + 1) as nat).contains(e.child_key@));
                        }
                        let entry = CascadeChildInfo {
                            table_name: e.child_name.clone(),
                            schema_name: Some(e.child_schema.clone()),
                            estimated_rows: e.child_rows,
                            depth: depth + 1,
                        };
                        let key = e.child_key.clone();
                        let ghost added = entry;
                        assert(entry_key(added) == e.child_key@);
                        assert(child_entry(g, t, added)) by {
                            assert(found_by(g, t, i as nat, x as int));
                            assert(stands_for(g, t, added, x as int));
                        }
                        proof {
                            if listed(c0, added) {
                                let w = choose|w: int|
                                    0 <= w < c0.len() && (#[trigger] c0[w]).table_name@
                                        == added.table_name@ && c0[w].schema_name->0@
                                        == added.schema_name->0@;
                                assert(holds_text(found@, entry_key(c0[w])));
                                assert(false);
                            }
                        }
                        insert_child(&mut children, entry);
                        found.push(key);
                        proof {
                            let p = choose|p: int|
                                0 <= p <= c0.len() && #[trigger] c0.insert(p, added) == children@;
                            lemma_new_entry(g, t, q0, c0, key, added, p);
                            assert forall|y: int|
                                0 <= y < g.len() && self_listed(g, t, c0, y) implies #[trigger] self_listed(
                                g,
                                t,
                                children@,
                                y,
                            ) by {
                                lemma_self_listed_insert(g, t, c0, added, p, y);
                            }
                            assert forall|k: Seq<char>| holds_text(q0, k) implies #[trigger] holds_text(
                                found@,
                                k,
                            ) by {
                                let w = choose|w: int| 0 <= w < q0.len() && (#[trigger] q0[w])@ == k;
                                assert(found@[w] == q0[w]);
                            }
                            assert(found@[q0.len() as int] == key);
                            assert(texts(found@) =~= texts(q0).push(key@));
                            assert(holds_text(found@, g[x as int].key()));
                            assert(found@.take(hi as int) =~= q0.take(hi as int));
                            assert forall|j: int| 0 <= j < found@.len() implies reach(
                                g,
                                t,
                                (depth + 1) as nat,
                            ).contains((#[trigger] found@[j])@) by {
                                if j < q0.len() {
                                    assert(found@[j] == q0[j]);
                                }
                            }
                        }
                    }
                }
                x += 1;
            }
            i += 1;
        }
        proof {
            lemma_level_done(g, t, found@, start, lo as int, depth as nat);
        }
        lo = hi;
        depth += 1;
    }
    let mut truncated: bool = false;
    let hi: usize = found.len();
    let mut i: usize = lo;
    while i < hi
        invariant
            lo <= i <= hi,
            hi == found@.len(),
            g == graph(edges@),
            n == edges@.len(),
            keyed(edges@),
            truncated <==> exists|j: int, y: int|
                lo <= j < i && 0 <= y < g.len() && (#[trigger] g[y]).parent
                    == (#[trigger] found@[j])@ && !holds_text(found@, g[y].key()),
        decreases hi - i,
    {
        let mut x: usize = 0;
        while x < n
            invariant
                x <= n,
                lo <= i < hi,
                hi == found@.len(),
                g == graph(edges@),
                n == edges@.len(),
                keyed(edges@),
                truncated <==> exists|j: int, y: int|
                    (lo <= j < i && 0 <= y < g.len() || j == i && 0 <= y < x) && (
                    #[trigger] g[y]).parent == (#[trigger] found@[j])@ && !holds_text(
                        found@,
                        g[y].key(),
                    ),
            decreases n - x,
        {
            let e = &edges[x];
            assert(g[x as int] == e@);
            assert(found@[i as int]@ == found@[i as int]@);
            if same_text(e.parent.as_str(), found[i].as_str()) && !list_holds(
                &found,
                e.child_key.as_str(),
            ) {
                truncated = true;
            }
            x += 1;
        }
        i += 1;
    }
    proof {
        reveal(cascade_listing);
        let d = MAX_CASCADE_DEPTH as nat;
        let beyond = reach(g, t, (MAX_CASCADE_DEPTH + 1) as nat);
        if truncated {
            let (j, y) = choose|j: int, y: int|
                lo <= j < hi && 0 <= y < g.len() && (#[trigger] g[y]).parent
                    == (#[trigger] found@[j])@ && !holds_text(found@, g[y].key());
            let k = g[y].key();
            assert(holds_text(found@, found@[j]@));
            assert(leads_to(g, reach(g, t, d), k));
            assert(beyond.contains(k));
            assert(!reach(g, t, d).contains(k));
        }
        if exists|k: Seq<char>| #[trigger] beyond.contains(k) && !reach(g, t, d).contains(k) {
            let k = choose|k: Seq<char>| #[trigger]
                beyond.contains(k) && !reach(g, t, d).contains(k);
            assert(leads_to(g, reach(g, t, d), k));
            let y = choose|y: int|
                0 <= y < g.len() && reach(g, t, d).contains((#[trigger] g[y]).parent)
                    && g[y].key() == k;
            assert(holds_text(found@, g[y].parent));
            let j = choose|j: int| 0 <= j < found@.len() && (#[trigger] found@[j])@ == g[y].parent;
            if j < lo {
                assert(reach(g, t, (d - 1) as nat).contains(found@[j]@));
                assert(leads_to(g, reach(g, t, (d - 1) as nat), k));
            }
            assert(!holds_text(found@, k));
            assert(g[y].parent == found@[j]@);
        }
        assert forall|k: Seq<char>| #[trigger] reach(g, t, d).contains(k) && k != t implies exists|
            i: int,
        |
            0 <= i < children@.len() && entry_key(#[trigger] children@[i]) == k by {
            assert(holds_text(found@, k));
            let j = choose|j: int| 0 <= j < found@.len() && (#[trigger] found@[j])@ == k;
        }
        assert forall|x: int|
            0 <= x < g.len() && (#[trigger] g[x]).parent == t && g[x].key() == t implies exists|
            i: int,
        |
            0 <= i < children@.len() && (#[trigger] children@[i]).table_name@ == g[x].name
                && children@[i].schema_name->0@ == g[x].schema by {
            assert(self_listed(g, t, children@, x));
        }
    }
    (children, truncated)
}

/// The schemas of the tables called `name`, whatever its case, in order.
pub open spec fn candidate_schemas(tables: Seq<JsonTree>, name: Seq<char>) -> Seq<Seq<char>>
    decreases tables.len(),
{
    if tables.len() == 0 {
        Seq::empty()
    } else {
        let rest = candidate_schemas(tables.drop_last(), name);
        match (
            tables.last().at("name"@).as_text(),
            tables.last().at("schema_name"@).as_text(),
        ) {
            (Some(n), Some(s)) => if lowercase(n) == lowercase(name) {
                rest.push(s)
            } else {
                rest
            },
            _ => rest,
        }
    }
}

/// The key of a named table: its schema is the one it is written with, or the
/// only one that has a table of its name. A name that several schemas have, or
/// none, stands for no table.
pub open spec fn target_key(tables: Seq<JsonTree>, target: TableRef) -> Option<Seq<char>> {
    match target.schema {
        Some(s) => Some(canonical(s@, target.name@)),
        None => {
            let found = candidate_schemas(tables, target.name@);
            if found.len() == 1 {
                Some(canonical(found[0], target.name@))
            } else {
                None
            }
        },
    }
}

/// The key of a named table.
pub fn resolve_target(tables: &Vec<Json>, target: &TableRef) -> (r: Option<String>)
    ensures
        match r {
            Some(k) => target_key(trees(tables@), *target) == Some(k@),
            None => target_key(trees(tables@), *target) is None,
        },
{
    match &target.schema {
        Some(s) => Some(canonical_key(s.as_str(), target.name.as_str())),
        None => {
            let wanted = to_lowercase(target.name.as_str());
            let mut found: Vec<String> = Vec::new();
            let ghost all = trees(tables@);
            let n: usize = tables.len();
            let mut i: usize = 0;
            assert(texts(found@) =~= candidate_schemas(all.take(0), target.name@));
            while i < n
                invariant
                    i <= n,
                    n == tables@.len(),
                    all == trees(tables@),
                    wanted@ == lowercase(target.name@),
                    texts(found@) == candidate_schemas(all.take(i as int), target.name@),
                decreases n - i,
            {
                proof {
                    assert(all.take(i + 1).drop_last() =~= all.take(i as int));
                    assert(all.take(i + 1).last() == tables@[i as int]@);
                }
                let ghost before = texts(found@);
                match text_field(&tables[i], "name") {
                    Some(name) => {
                        let low = to_lowercase(name.as_str());
                        if same_text(low.as_str(), wanted.as_str()) {
                            match text_field(&tables[i], "schema_name") {
                                Some(s) => {
                                    found.push(s.clone());
                                    assert(texts(found@) =~= before.push(s@));
                                },
                                None => {},
                            }
                        }
                    },
                    None => {},
                }
                i += 1;
            }
            assert(all.take(n as int) =~= all);
            if found.len() == 1 {
                assert(texts(found@)[0] == found@[0]@);
                Some(canonical_key(found[0].as_str(), target.name.as_str()))
            } else {
                None
            }
        },
    }
}

/// What a deletion in one table drags along.
pub struct CascadeEntry {
    pub key: String,
    pub children: Vec<CascadeChildInfo>,
    pub truncated: bool,
}

/// The last entry of the table `key`.
pub open spec fn find_entry(m: Seq<CascadeEntry>, key: Seq<char>) -> Option<CascadeEntry>
    decreases m.len(),
{
    if m.len() == 0 {
        None
    } else if m.last().key@ == key {
        Some(m.last())
    } else {
        find_entry(m.drop_last(), key)
    }
}

/// The entry of the table `key`.
pub fn lookup_entry<'a>(m: &'a Vec<CascadeEntry>, key: &str) -> (r: Option<&'a CascadeEntry>)
    ensures
        match r {
            Some(e) => find_entry(m@, key@) == Some(*e),
            None => find_entry(m@, key@) is None,
        },
{
    let mut i: usize = m.len();
    assert(m@.take(i as int) =~= m@);
    while i > 0
        invariant
            i <= m@.len(),
            find_entry(m@, key@) == find_entry(m@.take(i as int), key@),
        decreases i,
    {
        proof {
            assert(m@.take(i as int).drop_last() =~= m@.take(i - 1));
            assert(m@.take(i as int).last() == m@[i - 1]);
        }
        if same_text(m[i - 1].key.as_str(), key) {
            return Some(&m[i - 1]);
        }
        i -= 1;
    }
    None
}

/// An entry is found exactly where its key is listed.
proof fn lemma_find_entry(m: Seq<CascadeEntry>, key: Seq<char>)
    ensures
        match find_entry(m, key) {
            Some(e) => e.key@ == key && m.contains(e),
            None => forall|i: int| 0 <= i < m.len() ==> (#[trigger] m[i]).key@ != key,
        },
    decreases m.len(),
{
    if m.len() > 0 && m.last().key@ != key {
        lemma_find_entry(m.drop_last(), key);
        match find_entry(m, key) {
            Some(e) => {
                let i = choose|i: int| 0 <= i < m.drop_last().len() && m.drop_last()[i] == e;
                assert(m[i] == e);
            },
            None => {
                assert forall|i: int| 0 <= i < m.len() implies (#[trigger] m[i]).key@ != key by {
                    if i < m.len() - 1 {
                        assert(m.drop_last()[i] == m[i]);
                    }
                }
            },
        }
    } else if m.len() > 0 {
        assert(m[m.len() - 1] == m.last());
    }
}

/// Whether `m` holds one entry for each table that the targets stand for, with
/// what a deletion there drags along, and nothing else.
pub open spec fn cascade_map_of(
    m: Seq<CascadeEntry>,
    tables: Seq<JsonTree>,
    targets: Seq<TableRef>,
) -> bool {
    &&& forall|i: int, j: int| 0 <= i < j < m.len() ==> (#[trigger] m[i]).key@ != (#[trigger] m[j]).key@
    &&& forall|i: int|
        0 <= i < m.len() ==> cascade_listing(
            snapshot_edges(tables),
            (#[trigger] m[i]).key@,
            m[i].children@,
            m[i].truncated,
        )
    &&& forall|i: int|
        0 <= i < m.len() ==> exists|j: int|
            0 <= j < targets.len() && target_key(tables, #[trigger] targets[j]) == Some(
                (#[trigger] m[i]).key@,
            )
    &&& forall|j: int|
        0 <= j < targets.len() && target_key(tables, #[trigger] targets[j]) is Some ==> exists|
            i: int,
        |
            0 <= i < m.len() && (#[trigger] m[i]).key@ == target_key(tables, targets[j])->0
}

/// One more target that stands for no table, or for a listed one.
proof fn lemma_map_skip(
    m: Seq<CascadeEntry>,
    tables: Seq<JsonTree>,
    targets: Seq<TableRef>,
    target: TableRef,
)
    requires
        cascade_map_of(m, tables, targets),
        match target_key(tables, target) {
            Some(k) => exists|i: int| 0 <= i < m.len() && (#[trigger] m[i]).key@ == k,
            None => true,
        },
    ensures
        cascade_map_of(m, tables, targets.push(target)),
{
    let more = targets.push(target);
    assert(more[targets.len() as int] == target);
    assert forall|i: int| 0 <= i < m.len() implies exists|j: int|
        0 <= j < more.len() && target_key(tables, #[trigger] more[j]) == Some(
            (#[trigger] m[i]).key@,
        ) by {
        let j = choose|j: int|
            0 <= j < targets.len() && target_key(tables, #[trigger] targets[j]) == Some(m[i].key@);
        assert(more[j] == targets[j]);
    }
    assert forall|j: int|
        0 <= j < more.len() && target_key(tables, #[trigger] more[j]) is Some implies exists|i: int|
        0 <= i < m.len() && (#[trigger] m[i]).key@ == target_key(tables, more[j])->0 by {
        if j < targets.len() {
            assert(more[j] == targets[j]);
            let i = choose|i: int|
                0 <= i < m.len() && (#[trigger] m[i]).key@ == target_key(tables, targets[j])->0;
            assert(m[i].key@ == target_key(tables, more[j])->0);
        }
    }
    assert forall|i: int| 0 <= i < m.len() implies cascade_listing(
        snapshot_edges(tables),
        (#[trigger] m[i]).key@,
        m[i].children@,
        m[i].truncated,
    ) by {}
}

/// One more target with its entry.
proof fn lemma_map_add(
    m: Seq<CascadeEntry>,
    tables: Seq<JsonTree>,
    targets: Seq<TableRef>,
    target: TableRef,
    e: CascadeEntry,
)
    requires
        cascade_map_of(m, tables, targets),
        target_key(tables, target) == Some(e.key@),
        forall|i: int| 0 <= i < m.len() ==> (#[trigger] m[i]).key@ != e.key@,
        cascade_listing(snapshot_edges(tables), e.key@, e.children@, e.truncated),
    ensures
        cascade_map_of(m.push(e), tables, targets.push(target)),
{
    let more = targets.push(target);
    let n = m.push(e);
    assert(n[m.len() as int] == e);
    assert(more[targets.len() as int] == target);
    assert forall|i: int| 0 <= i < n.len() implies exists|j: int|
        0 <= j < more.len() && target_key(tables, #[trigger] more[j]) == Some(
            (#[trigger] n[i]).key@,
        ) by {
        if i < m.len() {
            assert(n[i] == m[i]);
            let j = choose|j: int|
                0 <= j < targets.len() && target_key(tables, #[trigger] targets[j]) == Some(
                    m[i].key@,
                );
            assert(more[j] == targets[j]);
        }
    }
    assert forall|j: int|
        0 <= j < more.len() && target_key(tables, #[trigger] more[j]) is Some implies exists|i: int|
        0 <= i < n.len() && (#[trigger] n[i]).key@ == target_key(tables, more[j])->0 by {
        if j < targets.len() {
            assert(more[j] == targets[j]);
            let i = choose|i: int|
                0 <= i < m.len() && (#[trigger] m[i]).key@ == target_key(tables, targets[j])->0;
            assert(n[i] == m[i]);
        }
    }
    assert forall|i: int, j: int| 0 <= i < j < n.len() implies (#[trigger] n[i]).key@ != (
    #[trigger] n[j]).key@ by {
        assert(n[i] == m[i]);
        if j < m.len() {
            assert(n[j] == m[j]);
        }
    }
    assert forall|i: int| 0 <= i < n.len() implies cascade_listing(
        snapshot_edges(tables),
        (#[trigger] n[i]).key@,
        n[i].children@,
        n[i].truncated,
    ) by {
        if i < m.len() {
            assert(n[i] == m[i]);
        }
    }
}

/// What deletions in the targets drag along, by the tables of a snapshot.
pub fn cascade_map(tables: &Vec<Json>, targets: &Vec<TableRef>) -> (r: Vec<CascadeEntry>)
    ensures
        cascade_map_of(r@, trees(tables@), targets@),
{
    let ghost docs = trees(tables@);
    let edges = collect_edges(tables);
    let mut out: Vec<CascadeEntry> = Vec::new();
    let n: usize = targets.len();
    let mut i: usize = 0;
    assert(targets@.take(0) =~= Seq::empty());
    while i < n
        invariant
            i <= n,
            n == targets@.len(),
            docs == trees(tables@),
            keyed(edges@),
            graph(edges@) == snapshot_edges(docs),
            cascade_map_of(out@, docs, targets@.take(i as int)),
        decreases n - i,
    {
        let ghost m0 = out@;
        let ghost t0 = targets@.take(i as int);
        assert(targets@.take(i + 1) =~= t0.push(targets@[i as int]));
        match resolve_target(tables, &targets[i]) {
            Some(key) => {
                proof {
                    lemma_find_entry(m0, key@);
                }
                match lookup_entry(&out, key.as_str()) {
                    Some(_) => {
                        proof {
                            let e = find_entry(m0, key@)->0;
                            let w = choose|w: int| 0 <= w < m0.len() && m0[w] == e;
                            assert(m0[w].key@ == key@);
                            lemma_map_skip(m0, docs, t0, targets@[i as int]);
                        }
                    },
                    None => {
                        let (children, truncated) = cascade_children(&edges, key.as_str());
                        out.push(CascadeEntry { key, children, truncated });
                        proof {
                            lemma_map_add(m0, docs, t0, targets@[i as int], out@.last());
                        }
                    },
                }
            },
            None => {
                proof {
                    lemma_map_skip(m0, docs, t0, targets@[i as int]);
                }
            },
        }
        i += 1;
    }
    assert(targets@.take(n as int) =~= targets@);
    out
}

/// The tables of a snapshot document; none where it lists none.
pub open spec fn snapshot_tables(doc: Option<JsonTree>) -> Option<Seq<JsonTree>> {
    match doc {
        Some(d) => d.at("tables"@).as_array(),
        None => None,
    }
}

/// What deletions in the targets drag along, by the text of a snapshot;
/// nothing where the text is no snapshot.
pub fn build_cascade_graph(snapshot_json: &str, delete_targets: &Vec<TableRef>) -> (r: Vec<
    CascadeEntry,
>)
    ensures
        match snapshot_tables(parsed_json(snapshot_json@)) {
            Some(tables) => cascade_map_of(r@, tables, delete_targets@),
            None => r@.len() == 0,
        },
{
    match Json::parse(snapshot_json) {
        Some(doc) => match array_field(&doc, "tables") {
            Some(tables) => cascade_map(tables, delete_targets),
            None => Vec::new(),
        },
        None => Vec::new(),
    }
}

/// The schemas that the table documents give for the name `name`, up to the
/// case of ASCII letters, in order.
pub open spec fn schemas_named(docs: Seq<JsonTree>, name: Seq<char>) -> Seq<Seq<char>>
    decreases docs.len(),
{
    if docs.len() == 0 {
        Seq::empty()
    } else {
        let rest = schemas_named(docs.drop_last(), name);
        match (docs.last().at("name"@).as_text(), docs.last().at("schema_name"@).as_text()) {
            (Some(n), Some(s)) => if same_ignoring_case(n, name) {
                rest.push(s)
            } else {
                rest
            },
            _ => rest,
        }
    }
}

/// The schema under which a table is looked up: the only one its name has,
/// `public` otherwise.
pub open spec fn lookup_schema(docs: Seq<JsonTree>, name: Seq<char>) -> Seq<char> {
    let found = schemas_named(docs, name);
    if found.len() == 1 {
        found[0]
    } else {
        "public"@
    }
}

fn resolve_schema(docs: &Vec<Json>, name: &str) -> (r: String)
    ensures
        r@ == lookup_schema(trees(docs@), name@),
{
    let mut found: Vec<String> = Vec::new();
    let ghost all = trees(docs@);
    let n: usize = docs.len();
    let mut i: usize = 0;
    assert(texts(found@) =~= schemas_named(all.take(0), name@));
    while i < n
        invariant
            i <= n,
            n == docs@.len(),
            all == trees(docs@),
            texts(found@) == schemas_named(all.take(i as int), name@),
        decreases n - i,
    {
        proof {
            assert(all.take(i + 1).drop_last() =~= all.take(i as int));
            assert(all.take(i + 1).last() == docs@[i as int]@);
        }
        let ghost before = texts(found@);
        match text_field(&docs[i], "name") {
            Some(m) => {
                if eq_ignore_case(m.as_str(), name) {
                    match text_field(&docs[i], "schema_name") {
                        Some(s) => {
                            found.push(s.clone());
                            assert(texts(found@) =~= before.push(s@));
                        },
                        None => {},
                    }
                }
            },
            None => {},
        }
        i += 1;
    }
    assert(all.take(n as int) =~= all);
    if found.len() == 1 {
        assert(texts(found@)[0] == found@[0]@);
        found[0].clone()
    } else {
        "public".to_string()
    }
}

/// Whether `after` is `before` with its dependent tables filled in, where the
/// map has them.
pub open spec fn enriched(
    before: TableRiskInfo,
    after: TableRiskInfo,
    docs: Seq<JsonTree>,
    m: Seq<CascadeEntry>,
) -> bool {
    &&& after.name == before.name
    &&& after.estimated_rows == before.estimated_rows
    &&& after.has_cascade_fk == before.has_cascade_fk
    &&& after.cascade_targets == before.cascade_targets
    &&& match find_entry(m, canonical(lookup_schema(docs, before.name@), before.name@)) {
        Some(e) => after.cascade_children@ == e.children@ && after.cascade_children_truncated
            == e.truncated,
        None => after == before,
    }
}

fn copy_children(v: &Vec<CascadeChildInfo>) -> (r: Vec<CascadeChildInfo>)
    ensures
        r@ == v@,
{
    let mut out: Vec<CascadeChildInfo> = Vec::new();
    let n: usize = v.len();
    let mut i: usize = 0;
    while i < n
        invariant
            i <= n,
            n == v@.len(),
            out@ == v@.take(i as int),
        decreases n - i,
    {
        out.push(v[i].copy());
        i += 1;
        assert(out@ =~= v@.take(i as int));
    }
    assert(v@.take(n as int) =~= v@);
    out
}

/// Fills in the dependent tables of each entry, found by the schema that the
/// table documents give for its name.
pub fn fill_cascade_children(
    table_risk_info: &mut Vec<TableRiskInfo>,
    docs: &Vec<Json>,
    m: &Vec<CascadeEntry>,
)
    ensures
        final(table_risk_info)@.len() == old(table_risk_info)@.len(),
        forall|i: int|
            0 <= i < old(table_risk_info)@.len() ==> enriched(
                old(table_risk_info)@[i],
                #[trigger] final(table_risk_info)@[i],
                trees(docs@),
                m@,
            ),
{
    let ghost start = table_risk_info@;
    let n: usize = table_risk_info.len();
    let mut out: Vec<TableRiskInfo> = Vec::new();
    let mut i: usize = 0;
    assert(table_risk_info@ =~= start.skip(0));
    while i < n
        invariant
            i <= n,
            n == start.len(),
            table_risk_info@ == start.skip(i as int),
            out@.len() == i,
            forall|k: int|
                0 <= k < i ==> enriched(start[k], #[trigger] out@[k], trees(docs@), m@),
        decreases n - i,
    {
        let mut info = table_risk_info.remove(0);
        assert(info == start[i as int]);
        let schema = resolve_schema(docs, info.name.as_str());
        let key = canonical_key(schema.as_str(), info.name.as_str());
        match lookup_entry(m, key.as_str()) {
            Some(e) => {
                info.cascade_children = copy_children(&e.children);
                info.cascade_children_truncated = e.truncated;
            },
            None => {},
        }
        out.push(info);
        i += 1;
        assert(table_risk_info@ =~= start.skip(i as int));
    }
    *table_risk_info = out;
}

/// Fills in the dependent tables of each entry, by the text of the table
/// documents.
pub fn enrich_with_cascade_children(
    table_risk_info: &mut Vec<TableRiskInfo>,
    tables_raw_json: &str,
    m: &Vec<CascadeEntry>,
)
    ensures
        final(table_risk_info)@.len() == old(table_risk_info)@.len(),
        forall|i: int|
            0 <= i < old(table_risk_info)@.len() ==> enriched(
                old(table_risk_info)@[i],
                #[trigger] final(table_risk_info)@[i],
                documents(tables_raw_json@),
                m@,
            ),
{
    let docs: Vec<Json> = match Json::parse(tables_raw_json) {
        Some(Json::Array(v)) => v,
        _ => Vec::new(),
    };
    assert(trees(docs@) =~= documents(tables_raw_json@));
    fill_cascade_children(table_risk_info, &docs, m);
}

/// No table within reach is deeper than the limit, and a table at depth `d` is
/// `d` foreign keys away from the start and no fewer.
pub proof fn listed_depth_is_distance(
    g: Seq<EdgeView>,
    t: Seq<char>,
    c: Seq<CascadeChildInfo>,
    truncated: bool,
    i: int,
    n: nat,
)
    requires
        cascade_listing(g, t, c, truncated),
        0 <= i < c.len(),
        entry_key(c[i]) != t,
    ensures
        1 <= c[i].depth <= MAX_CASCADE_DEPTH,
        reach(g, t, n).contains(entry_key(c[i])) <==> c[i].depth <= n,
{
    reveal(cascade_listing);
    let d = c[i].depth as nat;
    if d <= n {
        lemma_reach_grows(g, t, d, n);
    } else {
        lemma_reach_grows(g, t, n, (d - 1) as nat);
    }
}

/// A listing that is not cut off is complete: every table that a deletion can
/// reach, over however many foreign keys, is listed.
pub proof fn whole_listing_is_complete(
    g: Seq<EdgeView>,
    t: Seq<char>,
    c: Seq<CascadeChildInfo>,
    k: Seq<char>,
    n: nat,
)
    requires
        cascade_listing(g, t, c, false),
        reach(g, t, n).contains(k),
        k != t,
    ensures
        exists|i: int| 0 <= i < c.len() && entry_key(#[trigger] c[i]) == k,
{
    reveal(cascade_listing);
    lemma_reach_closed(g, t, MAX_CASCADE_DEPTH as nat, n);
}

/// No table is listed twice, over however many foreign keys it is reached.
pub proof fn listing_repeats_nothing(
    g: Seq<EdgeView>,
    t: Seq<char>,
    c: Seq<CascadeChildInfo>,
    truncated: bool,
    i: int,
    j: int,
)
    requires
        cascade_listing(g, t, c, truncated),
        0 <= i < j < c.len(),
    ensures
        c[i].schema_name->0@ != c[j].schema_name->0@ || c[i].table_name@ != c[j].table_name@,
{
    reveal(cascade_listing);
    lemma_entry_order(c[i], c[j], c[j]);
    assert(entry_lt(c[i], c[j]));
}

/// A table with a foreign key to itself is listed below itself, one step away.
pub proof fn self_reference_is_one_step_away(
    g: Seq<EdgeView>,
    t: Seq<char>,
    c: Seq<CascadeChildInfo>,
    truncated: bool,
    x: int,
)
    requires
        cascade_listing(g, t, c, truncated),
        0 <= x < g.len(),
        g[x].parent == t,
        g[x].key() == t,
    ensures
        exists|i: int| 0 <= i < c.len() && entry_key(#[trigger] c[i]) == t && c[i].depth == 1,
{
    reveal(cascade_listing);
    assert(g[x].parent == t);
    let i = choose|i: int|
        0 <= i < c.len() && (#[trigger] c[i]).table_name@ == g[x].name && c[i].schema_name->0@
            == g[x].schema;
    assert(entry_key(c[i]) == t);
    assert(child_entry(g, t, c[i]));
}

/// Where a step adds nothing, no further step does.
proof fn lemma_reach_closed(g: Seq<EdgeView>, t: Seq<char>, d: nat, n: nat)
    requires
        forall|k: Seq<char>| #[trigger]
            reach(g, t, d + 1).contains(k) ==> reach(g, t, d).contains(k),
    ensures
        forall|k: Seq<char>| #[trigger] reach(g, t, n).contains(k) ==> reach(g, t, d).contains(k),
    decreases n,
{
    if n <= d {
        lemma_reach_grows(g, t, n, d);
    } else {
        let m = (n - 1) as nat;
        lemma_reach_closed(g, t, d, m);
        assert forall|k: Seq<char>| #[trigger] reach(g, t, n).contains(k) implies reach(
            g,
            t,
            d,
        ).contains(k) by {
            if !reach(g, t, m).contains(k) {
                assert(leads_to(g, reach(g, t, m), k));
                let x = choose|x: int|
                    0 <= x < g.len() && reach(g, t, m).contains((#[trigger] g[x]).parent)
                        && g[x].key() == k;
                assert(leads_to(g, reach(g, t, d), k));
                assert(reach(g, t, d + 1).contains(k));
            }
        }
    }
}

/// Whether a table document is of a table of the schema `schema` whose name is
/// `name` up to case.
pub open spec fn is_table(table: JsonTree, schema: Seq<char>, name: Seq<char>) -> bool {
    &&& table.at("schema_name"@).as_text() == Some(schema)
    &&& table.at("name"@).as_text() is Some
    &&& lowercase(table.at("name"@).as_text()->0) == lowercase(name)
}

/// Whether the table document `i` is the only one of a table whose name is
/// `name` up to case.
pub open spec fn only_table(tables: Seq<JsonTree>, i: int, name: Seq<char>) -> bool {
    &&& 0 <= i < tables.len()
    &&& exists|s: Seq<char>| is_table(tables[i], s, name)
    &&& forall|k: int, s: Seq<char>|
        0 <= k < tables.len() && k != i ==> !#[trigger] is_table(tables[k], s, name)
}

/// A candidate is the schema of a table of the name.
proof fn lemma_candidate_is_a_table(tables: Seq<JsonTree>, name: Seq<char>, c: int) -> (i: int)
    requires
        0 <= c < candidate_schemas(tables, name).len(),
    ensures
        0 <= i < tables.len(),
        is_table(tables[i], candidate_schemas(tables, name)[c], name),
    decreases tables.len(),
{
    let rest = candidate_schemas(tables.drop_last(), name);
    if c < rest.len() {
        let i = lemma_candidate_is_a_table(tables.drop_last(), name, c);
        assert(tables.drop_last()[i] == tables[i]);
        i
    } else {
        tables.len() - 1
    }
}

/// Each table of the name gives a candidate, two of them give two.
proof fn lemma_tables_are_candidates(
    tables: Seq<JsonTree>,
    name: Seq<char>,
    i: int,
    s: Seq<char>,
    j: int,
    z: Seq<char>,
)
    requires
        0 <= i <= j < tables.len(),
        is_table(tables[i], s, name),
        is_table(tables[j], z, name),
    ensures
        candidate_schemas(tables, name).contains(s),
        candidate_schemas(tables, name).len() >= 1,
        i < j ==> candidate_schemas(tables, name).len() >= 2,
    decreases tables.len(),
{
    let rest = candidate_schemas(tables.drop_last(), name);
    let all = candidate_schemas(tables, name);
    if j < tables.len() - 1 {
        assert(tables.drop_last()[i] == tables[i]);
        assert(tables.drop_last()[j] == tables[j]);
        lemma_tables_are_candidates(tables.drop_last(), name, i, s, j, z);
        let c = choose|c: int| 0 <= c < rest.len() && rest[c] == s;
        assert(all[c] == s);
    } else if i < j {
        assert(tables.drop_last()[i] == tables[i]);
        lemma_tables_are_candidates(tables.drop_last(), name, i, s, i, s);
        let c = choose|c: int| 0 <= c < rest.len() && rest[c] == s;
        assert(all[c] == s);
    } else {
        assert(all[all.len() - 1] == s);
    }
}

/// A name without a schema is found exactly if one table of the snapshot, and
/// no other, has it: it is then that table's, whatever its schema.
pub proof fn unqualified_names_are_found_by_their_only_table(
    tables: Vec<Json>,
    target: TableRef,
    r: Option<String>,
)
    requires
        call_ensures(resolve_target, (&tables, &target), r),
        target.schema is None,
    ensures
        r is Some <==> exists|i: int| #[trigger] only_table(trees(tables@), i, target.name@),
        forall|i: int, s: Seq<char>| #[trigger]
            is_table(trees(tables@)[i], s, target.name@) && #[trigger] only_table(
                trees(tables@),
                i,
                target.name@,
            ) ==> r is Some && r->0@ == lowercase(s) + "."@ + lowercase(target.name@),
{
    let docs = trees(tables@);
    let found = candidate_schemas(docs, target.name@);
    if r is Some {
        let i = lemma_candidate_is_a_table(docs, target.name@, 0);
        assert(is_table(docs[i], found[0], target.name@));
        assert forall|k: int, s: Seq<char>| 0 <= k < docs.len() && k != i implies !#[trigger] is_table(
            docs[k],
            s,
            target.name@,
        ) by {
            if is_table(docs[k], s, target.name@) {
                if i < k {
                    lemma_tables_are_candidates(docs, target.name@, i, found[0], k, s);
                } else {
                    lemma_tables_are_candidates(docs, target.name@, k, s, i, found[0]);
                }
            }
        }
        assert(only_table(docs, i, target.name@));
    }
    assert forall|i: int, s: Seq<char>| #[trigger]
        is_table(docs[i], s, target.name@) && #[trigger] only_table(
            docs,
            i,
            target.name@,
        ) implies r is Some && r->0@ == lowercase(s) + "."@ + lowercase(target.name@) by {
        lemma_only_candidate(docs, target.name@, i, s);
    }
    if exists|i: int| #[trigger] only_table(docs, i, target.name@) {
        let i = choose|i: int| #[trigger] only_table(docs, i, target.name@);
        let s = choose|s: Seq<char>| is_table(docs[i], s, target.name@);
        lemma_only_candidate(docs, target.name@, i, s);
    }
}

/// The only table of a name gives the only candidate.
proof fn lemma_only_candidate(tables: Seq<JsonTree>, name: Seq<char>, i: int, s: Seq<char>)
    requires
        is_table(tables[i], s, name),
        only_table(tables, i, name),
    ensures
        candidate_schemas(tables, name) == seq![s],
{
    let found = candidate_schemas(tables, name);
    lemma_tables_are_candidates(tables, name, i, s, i, s);
    if found.len() >= 2 {
        lemma_two_candidates(tables, name);
        let (a, b) = choose|a: int, b: int|
            0 <= a < b < tables.len() && #[trigger] named(tables[a], name) && #[trigger] named(
                tables[b],
                name,
            );
        let sa = tables[a].at("schema_name"@).as_text()->0;
        let sb = tables[b].at("schema_name"@).as_text()->0;
        assert(is_table(tables[a], sa, name));
        assert(is_table(tables[b], sb, name));
    }
    assert(found =~= seq![s]);
}

spec fn named(table: JsonTree, name: Seq<char>) -> bool {
    table.at("schema_name"@).as_text() is Some && is_table(
        table,
        table.at("schema_name"@).as_text()->0,
        name,
    )
}

proof fn lemma_two_candidates(tables: Seq<JsonTree>, name: Seq<char>)
    requires
        candidate_schemas(tables, name).len() >= 2,
    ensures
        exists|a: int, b: int|
            0 <= a < b < tables.len() && #[trigger] named(tables[a], name) && #[trigger] named(
                tables[b],
                name,
            ),
    decreases tables.len(),
{
    let before = tables.drop_last();
    let rest = candidate_schemas(before, name);
    if rest.len() >= 2 {
        lemma_two_candidates(before, name);
        let (a, b) = choose|a: int, b: int|
            0 <= a < b < before.len() && #[trigger] named(before[a], name) && #[trigger] named(
                before[b],
                name,
            );
        assert(before[a] == tables[a] && before[b] == tables[b]);
        assert(named(tables[a], name) && named(tables[b], name));
    } else {
        let a = lemma_candidate_is_a_table(before, name, 0);
        assert(before[a] == tables[a]);
        assert(named(tables[a], name) && named(tables[tables.len() - 1], name));
    }
}

/// A name with a schema stands for the table of that schema, in the snapshot or
/// not.
pub proof fn qualified_names_stand_for_themselves(
    tables: Vec<Json>,
    target: TableRef,
    r: Option<String>,
)
    requires
        call_ensures(resolve_target, (&tables, &target), r),
        target.schema is Some,
    ensures
        r is Some,
        r->0@ == lowercase(target.schema->0@) + "."@ + lowercase(target.name@),
{
}

/// Of a snapshot with exactly one table of an unqualified name, the result holds
/// the entry of that table, under its own schema.
pub proof fn unqualified_targets_have_an_entry(
    json: &str,
    targets: Vec<TableRef>,
    r: Vec<CascadeEntry>,
    tables: Seq<JsonTree>,
    j: int,
    i: int,
    s: Seq<char>,
)
    requires
        call_ensures(build_cascade_graph, (json, &targets), r),
        parsed_json(json@) is Some,
        parsed_json(json@)->0.at("tables"@).as_array() == Some(tables),
        0 <= j < targets@.len(),
        targets@[j].schema is None,
        is_table(tables[i], s, targets@[j].name@),
        only_table(tables, i, targets@[j].name@),
    ensures
        exists|e: int|
            0 <= e < r@.len() && (#[trigger] r@[e]).key@ == lowercase(s) + "."@ + lowercase(
                targets@[j].name@,
            ),
{
    lemma_only_candidate(tables, targets@[j].name@, i, s);
    assert(target_key(tables, targets@[j]) is Some);
}

/// Every entry of the result is of a table that a target names: by its schema
/// and name, or by its name alone, which then is that of exactly one table of the
/// snapshot.
pub proof fn entries_are_of_named_tables(
    json: &str,
    targets: Vec<TableRef>,
    r: Vec<CascadeEntry>,
    tables: Seq<JsonTree>,
    e: int,
)
    requires
        call_ensures(build_cascade_graph, (json, &targets), r),
        parsed_json(json@) is Some,
        parsed_json(json@)->0.at("tables"@).as_array() == Some(tables),
        0 <= e < r@.len(),
    ensures
        exists|j: int|
            0 <= j < targets@.len() && match (#[trigger] targets@[j]).schema {
                Some(s) => r@[e].key@ == lowercase(s@) + "."@ + lowercase(targets@[j].name@),
                None => exists|i: int, s: Seq<char>| #[trigger]
                    is_table(tables[i], s, targets@[j].name@) && only_table(
                        tables,
                        i,
                        targets@[j].name@,
                    ) && r@[e].key@ == lowercase(s) + "."@ + lowercase(targets@[j].name@),
            },
{
    assert(r@[e].key@ == r@[e].key@);
    let j = choose|j: int|
        0 <= j < targets@.len() && target_key(tables, #[trigger] targets@[j]) == Some(r@[e].key@);
    let name = targets@[j].name@;
    if targets@[j].schema is None {
        let found = candidate_schemas(tables, name);
        let i = lemma_candidate_is_a_table(tables, name, 0);
        assert(is_table(tables[i], found[0], name));
        assert forall|k: int, s: Seq<char>| 0 <= k < tables.len() && k != i implies !#[trigger] is_table(
            tables[k],
            s,
            name,
        ) by {
            if is_table(tables[k], s, name) {
                if i < k {
                    lemma_tables_are_candidates(tables, name, i, found[0], k, s);
                } else {
                    lemma_tables_are_candidates(tables, name, k, s, i, found[0]);
                }
            }
        }
        assert(only_table(tables, i, name));
    }
}

/// A text that is no snapshot drags nothing along.
pub proof fn no_snapshot_no_entries(json: &str, targets: Vec<TableRef>, r: Vec<CascadeEntry>)
    requires
        call_ensures(build_cascade_graph, (json, &targets), r),
        parsed_json(json@) is None || parsed_json(json@)->0.at("tables"@).as_array() is None,
    ensures
        r@.len() == 0,
{
}

/// Whether the foreign key `e` is what the constraint `c` of the table document
/// `t` says: rows of `t` go with rows of the table that `c` refers to, which is
/// in the schema of `t` where `c` names none, and `t` in `public` where it names
/// none.
pub open spec fn edge_of(e: EdgeView, t: JsonTree, c: JsonTree) -> bool {
    let schema = match t.at("schema_name"@).as_text() {
        Some(s) => s,
        None => "public"@,
    };
    let refers = match c.at("referenced_schema"@).as_text() {
        Some(s) => s,
        None => schema,
    };
    &&& e.schema == schema
    &&& e.name == (match t.at("name"@).as_text() {
        Some(n) => n,
        None => ""@,
    })
    &&& e.rows == (match t.at("estimated_rows"@).as_int() {
        Some(n) => n,
        None => 0i64,
    })
    &&& c.at("on_delete"@).as_text() == Some("CASCADE"@)
    &&& c.at("referenced_table"@).as_text() is Some
    &&& e.parent == lowercase(refers) + "."@ + lowercase(c.at("referenced_table"@).as_text()->0)
}

/// Whether a constraint is a foreign key that cascades and names its table.
pub open spec fn drags_rows(c: JsonTree) -> bool {
    c.at("on_delete"@).as_text() == Some("CASCADE"@) && c.at("referenced_table"@).as_text() is Some
}

proof fn lemma_constraint_edges(t: JsonTree, cs: Seq<JsonTree>)
    ensures
        forall|k: int|
            0 <= k < cs.len() && drags_rows(#[trigger] cs[k]) ==> exists|x: int|
                0 <= x < constraint_edges(t, cs).len() && edge_of(
                    #[trigger] constraint_edges(t, cs)[x],
                    t,
                    cs[k],
                ),
        forall|x: int|
            0 <= x < constraint_edges(t, cs).len() ==> exists|k: int|
                0 <= k < cs.len() && edge_of(
                    #[trigger] constraint_edges(t, cs)[x],
                    t,
                    #[trigger] cs[k],
                ),
    decreases cs.len(),
{
    let all = constraint_edges(t, cs);
    if cs.len() > 0 {
        let before = cs.drop_last();
        let rest = constraint_edges(t, before);
        lemma_constraint_edges(t, before);
        let last = constraint_edge(t, cs.last());
        assert(last is Some ==> edge_of(last->0, t, cs.last()));
        assert(last is Some <==> drags_rows(cs.last()));
        assert forall|k: int| 0 <= k < cs.len() && drags_rows(#[trigger] cs[k]) implies exists|x: int|
            0 <= x < all.len() && edge_of(#[trigger] all[x], t, cs[k]) by {
            if k < before.len() {
                assert(before[k] == cs[k]);
                let x = choose|x: int|
                    0 <= x < rest.len() && edge_of(#[trigger] rest[x], t, before[k]);
                assert(all[x] == rest[x]);
            } else {
                assert(all[all.len() - 1] == last->0);
            }
        }
        assert forall|x: int| 0 <= x < all.len() implies exists|k: int|
            0 <= k < cs.len() && edge_of(#[trigger] all[x], t, #[trigger] cs[k]) by {
            if x < rest.len() {
                assert(all[x] == rest[x]);
                let k = choose|k: int|
                    0 <= k < before.len() && edge_of(rest[x], t, #[trigger] before[k]);
                assert(before[k] == cs[k]);
            } else {
                assert(edge_of(all[x], t, cs[cs.len() - 1]));
            }
        }
    }
}

/// Whether the foreign key `e` stands in the table document `t`.
pub open spec fn stands_in(e: EdgeView, t: JsonTree) -> bool {
    &&& t.at("constraints"@).as_array() is Some
    &&& exists|k: int|
        0 <= k < t.at("constraints"@).as_array()->0.len() && edge_of(
            e,
            t,
            #[trigger] t.at("constraints"@).as_array()->0[k],
        )
}

proof fn lemma_snapshot_edges(tables: Seq<JsonTree>, i: int, k: int)
    ensures
        forall|x: int|
            0 <= x < snapshot_edges(tables).len() ==> exists|a: int|
                0 <= a < tables.len() && stands_in(
                    #[trigger] snapshot_edges(tables)[x],
                    #[trigger] tables[a],
                ),
        0 <= i < tables.len() && tables[i].at("constraints"@).as_array() is Some && 0 <= k
            < tables[i].at("constraints"@).as_array()->0.len() && drags_rows(
            tables[i].at("constraints"@).as_array()->0[k],
        ) ==> exists|x: int|
            0 <= x < snapshot_edges(tables).len() && edge_of(
                #[trigger] snapshot_edges(tables)[x],
                tables[i],
                tables[i].at("constraints"@).as_array()->0[k],
            ),
    decreases tables.len(),
{
    let all = snapshot_edges(tables);
    if tables.len() > 0 {
        let before = tables.drop_last();
        let rest = snapshot_edges(before);
        let t = tables.last();
        lemma_snapshot_edges(before, i, k);
        let own = match t.at("constraints"@).as_array() {
            Some(cs) => constraint_edges(t, cs),
            None => Seq::empty(),
        };
        assert(all =~= rest + own);
        if t.at("constraints"@).as_array() is Some {
            lemma_constraint_edges(t, t.at("constraints"@).as_array()->0);
        }
        assert forall|x: int| 0 <= x < all.len() implies exists|a: int|
            0 <= a < tables.len() && stands_in(#[trigger] all[x], #[trigger] tables[a]) by {
            if x < rest.len() {
                assert(all[x] == rest[x]);
                let a = choose|a: int|
                    0 <= a < before.len() && stands_in(rest[x], #[trigger] before[a]);
                assert(before[a] == tables[a]);
            } else {
                assert(all[x] == own[x - rest.len()]);
                assert(stands_in(all[x], tables[tables.len() - 1]));
            }
        }
        if 0 <= i < tables.len() && tables[i].at("constraints"@).as_array() is Some && 0 <= k
            < tables[i].at("constraints"@).as_array()->0.len() && drags_rows(
            tables[i].at("constraints"@).as_array()->0[k],
        ) {
            let c = tables[i].at("constraints"@).as_array()->0[k];
            if i < before.len() {
                assert(before[i] == tables[i]);
                let x = choose|x: int| 0 <= x < rest.len() && edge_of(#[trigger] rest[x], tables[i], c);
                assert(all[x] == rest[x]);
            } else {
                let x = choose|x: int| 0 <= x < own.len() && edge_of(#[trigger] own[x], t, c);
                assert(all[rest.len() + x] == own[x]);
            }
        }
    }
}

/// The foreign keys of a snapshot are those of its constraints that cascade:
/// every one of them, and no other.
pub proof fn every_cascading_constraint_counts(
    tables: Vec<Json>,
    r: Vec<CascadeEdge>,
    i: int,
    k: int,
    x: int,
)
    requires
        call_ensures(collect_edges, (&tables,), r),
        0 <= i < tables@.len(),
        tables@[i]@.at("constraints"@).as_array() is Some,
        0 <= k < tables@[i]@.at("constraints"@).as_array()->0.len(),
        tables@[i]@.at("constraints"@).as_array()->0[k].at("on_delete"@).as_text() == Some(
            "CASCADE"@,
        ),
        tables@[i]@.at("constraints"@).as_array()->0[k].at("referenced_table"@).as_text() is Some,
        0 <= x < r@.len(),
    ensures
        exists|y: int|
            0 <= y < r@.len() && edge_of(
                (#[trigger] r@[y])@,
                tables@[i]@,
                tables@[i]@.at("constraints"@).as_array()->0[k],
            ),
        exists|a: int| 0 <= a < tables@.len() && stands_in(r@[x]@, (#[trigger] tables@[a])@),
{
    let docs = trees(tables@);
    let g = graph(r@);
    lemma_snapshot_edges(docs, i, k);
    assert(docs[i] == tables@[i]@);
    let y = choose|y: int|
        0 <= y < g.len() && edge_of(
            #[trigger] g[y],
            docs[i],
            docs[i].at("constraints"@).as_array()->0[k],
        );
    assert(g[y] == r@[y]@);
    assert(g[x] == r@[x]@);
    let a = choose|a: int| 0 <= a < docs.len() && stands_in(g[x], #[trigger] docs[a]);
    assert(docs[a] == tables@[a]@);
}

/// A table that a foreign key of the deleted table's rows leads to is listed one
/// step away; a table that a listed one leads to is listed at most one step
/// further, down to the third step.
pub proof fn steps_lead_from_table_to_table(
    g: Seq<EdgeView>,
    t: Seq<char>,
    c: Seq<CascadeChildInfo>,
    truncated: bool,
    x: int,
    i: int,
)
    requires
        cascade_listing(g, t, c, truncated),
        0 <= x < g.len(),
        0 <= i < c.len(),
        lowercase(g[x].schema) + "."@ + lowercase(g[x].name) != t,
    ensures
        1 <= c[i].depth <= 3,
        g[x].parent == t ==> exists|j: int|
            0 <= j < c.len() && entry_key(#[trigger] c[j]) == g[x].key() && c[j].depth == 1,
        g[x].parent == entry_key(c[i]) && c[i].depth < 3 ==> exists|j: int|
            0 <= j < c.len() && entry_key(#[trigger] c[j]) == g[x].key() && c[j].depth
                <= c[i].depth + 1,
        g[x].parent == entry_key(c[i]) && (forall|j: int|
            0 <= j < c.len() ==> entry_key(#[trigger] c[j]) != g[x].key()) ==> truncated,
{
    reveal(cascade_listing);
    let k = g[x].key();
    assert(child_entry(g, t, c[i]));
    let d = c[i].depth as nat;
    lemma_reach_grows(g, t, 0, d);
    assert(reach(g, t, 0).contains(t));
    if entry_key(c[i]) == t {
        assert(reach(g, t, d).contains(entry_key(c[i])));
    }
    if g[x].parent == t {
        assert(leads_to(g, reach(g, t, 0), k));
        assert(reach(g, t, 1).contains(k));
        lemma_reach_grows(g, t, 1, 3);
        let j = choose|j: int| 0 <= j < c.len() && entry_key(#[trigger] c[j]) == k;
        listed_depth_is_distance(g, t, c, truncated, j, 1);
        assert(entry_key(c[j]) == g[x].key() && c[j].depth == 1);
    }
    if g[x].parent == entry_key(c[i]) {
        assert(leads_to(g, reach(g, t, d), k));
        assert(reach(g, t, d + 1).contains(k));
        if d < 3 {
            lemma_reach_grows(g, t, d + 1, 3);
            let j = choose|j: int| 0 <= j < c.len() && entry_key(#[trigger] c[j]) == k;
            listed_depth_is_distance(g, t, c, truncated, j, d + 1);
            assert(entry_key(c[j]) == g[x].key() && c[j].depth <= c[i].depth + 1);
        } else {
            assert(reach(g, t, 4).contains(k));
            if reach(g, t, 3).contains(k) {
                let j = choose|j: int| 0 <= j < c.len() && entry_key(#[trigger] c[j]) == k;
            }
        }
    }
}

/// Every listed table is what some foreign key leads to, from the deleted table
/// or from a listed one that is a step nearer.
pub proof fn listed_tables_are_led_to(
    g: Seq<EdgeView>,
    t: Seq<char>,
    c: Seq<CascadeChildInfo>,
    truncated: bool,
    i: int,
)
    requires
        cascade_listing(g, t, c, truncated),
        0 <= i < c.len(),
    ensures
        exists|x: int|
            0 <= x < g.len() && (#[trigger] g[x]).name == c[i].table_name@ && g[x].schema
                == c[i].schema_name->0@ && g[x].rows == c[i].estimated_rows && (g[x].parent == t
                || exists|j: int|
                0 <= j < c.len() && entry_key(#[trigger] c[j]) == g[x].parent && c[j].depth
                    < c[i].depth),
{
    reveal(cascade_listing);
    assert(child_entry(g, t, c[i]));
    let x = choose|x: int| #[trigger] stands_for(g, t, c[i], x);
    if g[x].parent != t {
        let d = (c[i].depth - 1) as nat;
        lemma_reach_grows(g, t, d, 3);
        let j = choose|j: int| 0 <= j < c.len() && entry_key(#[trigger] c[j]) == g[x].parent;
        listed_depth_is_distance(g, t, c, truncated, j, d);
        assert(entry_key(c[j]) == g[x].parent && c[j].depth < c[i].depth);
    }
}

/// A listing is cut off only where a table at the third step leads to one that
/// is not listed.
pub proof fn cut_off_listings_have_more_beyond(
    g: Seq<EdgeView>,
    t: Seq<char>,
    c: Seq<CascadeChildInfo>,
)
    requires
        cascade_listing(g, t, c, true),
    ensures
        exists|x: int, i: int|
            0 <= x < g.len() && 0 <= i < c.len() && (#[trigger] g[x]).parent == entry_key(
                #[trigger] c[i],
            ) && c[i].depth == 3 && forall|j: int|
                0 <= j < c.len() ==> entry_key(#[trigger] c[j]) != g[x].key(),
{
    reveal(cascade_listing);
    let k = choose|k: Seq<char>| #[trigger]
        reach(g, t, 4).contains(k) && !reach(g, t, 3).contains(k);
    assert(leads_to(g, reach(g, t, 3), k));
    let x = choose|x: int|
        0 <= x < g.len() && reach(g, t, 3).contains((#[trigger] g[x]).parent) && g[x].key() == k;
    lemma_reach_grows(g, t, 0, 2);
    lemma_reach_grows(g, t, 0, 3);
    assert(reach(g, t, 0).contains(t));
    if reach(g, t, 2).contains(g[x].parent) {
        assert(leads_to(g, reach(g, t, 2), k));
    }
    let i = choose|i: int| 0 <= i < c.len() && entry_key(#[trigger] c[i]) == g[x].parent;
    listed_depth_is_distance(g, t, c, true, i, 2);
    assert forall|j: int| 0 <= j < c.len() implies entry_key(#[trigger] c[j]) != g[x].key() by {
        if entry_key(c[j]) == k {
            listed_depth_is_distance(g, t, c, true, j, 3);
        }
    }
    assert(g[x].parent == entry_key(c[i]) && c[i].depth == 3);
}

/// A snapshot says how the schema stands: it is ready, or its collection failed;
/// where none was found, or the lookup failed, nothing was synchronized.
pub proof fn snapshots_tell_the_schema_status(
    snapshot: Result<Option<SchemaSnapshotRecord>, AppError>,
    r: (SchemaStatus, Option<String>),
)
    requires
        call_ensures(resolve_schema_status, (&snapshot,), r),
    ensures
        r.0 == SchemaStatus::NotSynced <==> snapshot is Err || snapshot->Ok_0 is None,
        r.0 == SchemaStatus::NotSynced ==> r.1 is None,
        snapshot matches Ok(Some(s)) ==> r.1 == Some(s.collected_at) && (r.0 == SchemaStatus::Ready
            <==> s.status@ == "ready"@),
{
}

/// What is told of a table is what its document says; nothing is told where no
/// table is named.
pub proof fn table_risk_is_what_the_documents_say(
    tables: Vec<TableRef>,
    found: Result<Option<String>, AppError>,
    r: Vec<TableRiskInfo>,
)
    requires
        call_ensures(resolve_table_risk, (&tables, &found), r),
    ensures
        tables@.len() == 0 || found is Err || found->Ok_0 is None ==> r@.len() == 0,
        tables@.len() > 0 && found is Ok && found->Ok_0 is Some ==> match parsed_json(
            found->Ok_0->0@,
        ) {
            Some(JsonTree::Array(docs)) => r@.len() == docs.len() && forall|i: int|
                0 <= i < r@.len() ==> {
                    &&& docs[i].at("name"@).as_text() matches Some(n) ==> (#[trigger] r@[i]).name@
                        == n
                    &&& docs[i].at("estimated_rows"@).as_int() matches Some(n)
                        ==> r@[i].estimated_rows == n
                    &&& docs[i].at("estimated_rows"@).as_int() is None ==> r@[i].estimated_rows
                        == 0
                    &&& r@[i].has_cascade_fk <==> exists|k: int|
                        docs[i].at("constraints"@).as_array() is Some && 0 <= k
                            < docs[i].at("constraints"@).as_array()->0.len()
                            && #[trigger] docs[i].at("constraints"@).as_array()->0[k].at(
                            "on_delete"@,
                        ).as_text() == Some("CASCADE"@)
                },
            _ => r@.len() == 0,
        },
{
    if tables@.len() > 0 && found is Ok && found->Ok_0 is Some {
        if let Some(JsonTree::Array(docs)) = parsed_json(found->Ok_0->0@) {
            assert forall|i: int| 0 <= i < r@.len() implies ((#[trigger] r@[i]).has_cascade_fk
                <==> exists|k: int|
                docs[i].at("constraints"@).as_array() is Some && 0 <= k < docs[i].at(
                    "constraints"@,
                ).as_array()->0.len() && #[trigger] docs[i].at("constraints"@).as_array()->0[k].at(
                    "on_delete"@,
                ).as_text() == Some("CASCADE"@)) by {
                assert(risk_info_of(r@[i], docs[i]));
                if docs[i].at("constraints"@).as_array() is Some {
                    let cs = docs[i].at("constraints"@).as_array()->0;
                    if any_cascading(cs) {
                        let k = choose|k: int| 0 <= k < cs.len() && cascades(#[trigger] cs[k]);
                        assert(cs[k].at("on_delete"@).as_text() == Some("CASCADE"@));
                    }
                    if exists|k: int|
                        0 <= k < cs.len() && #[trigger] cs[k].at("on_delete"@).as_text() == Some(
                            "CASCADE"@,
                        ) {
                        let k = choose|k: int|
                            0 <= k < cs.len() && #[trigger] cs[k].at("on_delete"@).as_text()
                                == Some("CASCADE"@);
                        assert(cascades(cs[k]));
                    }
                }
            }
        }
    }
}

spec fn any_cascading(cs: Seq<JsonTree>) -> bool {
    exists|k: int| 0 <= k < cs.len() && cascades(#[trigger] cs[k])
}

/// What a workflow lets pass is what it says, and nothing without such a rule: a
/// read only of a reading operation, a schema change only if it is harmless and
/// nothing was found, and a table of a thousand rows is not large.
pub proof fn leniency_is_what_the_workflow_says(
    operation: Operation,
    wf: Workflow,
    safe: bool,
    nothing_found: bool,
    reads: bool,
    changes: bool,
    rows: i64,
)
    requires
        call_ensures(compute_allow_read_only, (operation, &wf), reads),
        call_ensures(compute_safe_ddl, (&wf, safe, nothing_found), changes),
        call_ensures(max_estimated_rows, (&wf,), rows),
    ensures
        reads ==> operation == Operation::ExecuteSelect,
        changes ==> safe && nothing_found,
        wf.auto_approve is None ==> !reads && !changes && rows == 1000,
        wf.auto_approve matches Some(a) ==> {
            &&& rows == a.max_estimated_rows
            &&& operation == Operation::ExecuteSelect ==> reads == a.allow_read_only
            &&& safe && nothing_found ==> changes == a.allow_safe_ddl
        },
{
}

/// The schema of a name is the one of its only document.
proof fn lemma_schemas_named(docs: Seq<JsonTree>, name: Seq<char>, i: int, s: Seq<char>)
    requires
        0 <= i < docs.len(),
        docs[i].at("name"@).as_text() is Some,
        same_ignoring_case(docs[i].at("name"@).as_text()->0, name),
        docs[i].at("schema_name"@).as_text() == Some(s),
        forall|k: int|
            0 <= k < docs.len() && k != i && (#[trigger] docs[k]).at("name"@).as_text() is Some
                && docs[k].at("schema_name"@).as_text() is Some ==> !same_ignoring_case(
                docs[k].at("name"@).as_text()->0,
                name,
            ),
    ensures
        schemas_named(docs, name) == seq![s],
    decreases docs.len(),
{
    let before = docs.drop_last();
    if i < before.len() {
        assert(before[i] == docs[i]);
        assert forall|k: int|
            0 <= k < before.len() && k != i && (#[trigger] before[k]).at("name"@).as_text() is Some
                && before[k].at("schema_name"@).as_text() is Some implies !same_ignoring_case(
            before[k].at("name"@).as_text()->0,
            name,
        ) by {
            assert(before[k] == docs[k]);
        }
        lemma_schemas_named(before, name, i, s);
        assert(docs.last() == docs[docs.len() - 1]);
    } else {
        assert forall|k: int|
            0 <= k < before.len() && (#[trigger] before[k]).at("name"@).as_text() is Some
                && before[k].at("schema_name"@).as_text() is Some implies !same_ignoring_case(
            before[k].at("name"@).as_text()->0,
            name,
        ) by {
            assert(before[k] == docs[k]);
        }
        lemma_no_schemas_named(before, name);
        assert(schemas_named(docs, name) =~= seq![s]);
    }
}

proof fn lemma_no_schemas_named(docs: Seq<JsonTree>, name: Seq<char>)
    requires
        forall|k: int|
            0 <= k < docs.len() && (#[trigger] docs[k]).at("name"@).as_text() is Some
                && docs[k].at("schema_name"@).as_text() is Some ==> !same_ignoring_case(
                docs[k].at("name"@).as_text()->0,
                name,
            ),
    ensures
        schemas_named(docs, name).len() == 0,
    decreases docs.len(),
{
    if docs.len() > 0 {
        let before = docs.drop_last();
        assert forall|k: int|
            0 <= k < before.len() && (#[trigger] before[k]).at("name"@).as_text() is Some
                && before[k].at("schema_name"@).as_text() is Some implies !same_ignoring_case(
            before[k].at("name"@).as_text()->0,
            name,
        ) by {
            assert(before[k] == docs[k]);
        }
        lemma_no_schemas_named(before, name);
        assert(docs.last() == docs[docs.len() - 1]);
    }
}

/// A table is looked up under the schema that its only document gives, or under
/// `public` where no document has its name; with the entry found there comes
/// everything that is listed in it, and nothing else of the table changes.
pub proof fn tables_are_looked_up_by_their_schema(
    before: TableRiskInfo,
    after: TableRiskInfo,
    docs: Seq<JsonTree>,
    m: Seq<CascadeEntry>,
    i: int,
    s: Seq<char>,
    e: int,
)
    requires
        enriched(before, after, docs, m),
        0 <= i < docs.len(),
        docs[i].at("name"@).as_text() is Some,
        same_ignoring_case(docs[i].at("name"@).as_text()->0, before.name@),
        docs[i].at("schema_name"@).as_text() == Some(s),
        forall|k: int|
            0 <= k < docs.len() && k != i && (#[trigger] docs[k]).at("name"@).as_text() is Some
                && docs[k].at("schema_name"@).as_text() is Some ==> !same_ignoring_case(
                docs[k].at("name"@).as_text()->0,
                before.name@,
            ),
        0 <= e < m.len(),
        m[e].key@ == lowercase(s) + "."@ + lowercase(before.name@),
        forall|a: int, b: int|
            0 <= a < b < m.len() ==> (#[trigger] m[a]).key@ != (#[trigger] m[b]).key@,
    ensures
        after.cascade_children@ == m[e].children@,
        after.cascade_children_truncated == m[e].truncated,
        after.name == before.name,
        after.estimated_rows == before.estimated_rows,
        after.has_cascade_fk == before.has_cascade_fk,
{
    lemma_schemas_named(docs, before.name@, i, s);
    lemma_find_entry(m, m[e].key@);
    let key = m[e].key@;
    let found = find_entry(m, key);
    let w = choose|w: int| 0 <= w < m.len() && m[w] == found->0;
    assert(m[w].key@ == key);
    if w < e {
        assert(m[w].key@ != m[e].key@);
    } else if e < w {
        assert(m[e].key@ != m[w].key@);
    }
}

/// A table whose name no document has is looked up under `public`.
pub proof fn unknown_tables_are_looked_up_in_public(
    before: TableRiskInfo,
    after: TableRiskInfo,
    docs: Seq<JsonTree>,
    m: Seq<CascadeEntry>,
)
    requires
        enriched(before, after, docs, m),
        forall|k: int|
            0 <= k < docs.len() && (#[trigger] docs[k]).at("name"@).as_text() is Some
                && docs[k].at("schema_name"@).as_text() is Some ==> !same_ignoring_case(
                docs[k].at("name"@).as_text()->0,
                before.name@,
            ),
        forall|e: int|
            0 <= e < m.len() ==> (#[trigger] m[e]).key@ != lowercase("public"@) + "."@ + lowercase(
                before.name@,
            ),
    ensures
        after == before,
{
    lemma_no_schemas_named(docs, before.name@);
    lemma_find_entry(m, lowercase("public"@) + "."@ + lowercase(before.name@));
}

} // verus!
