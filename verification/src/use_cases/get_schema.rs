//! Reading the collected schema of a database.

use vstd::prelude::*;

use crate::domain::Permission;
use crate::error::{AppError, AuthzError, AuthzView, ErrorView};
use crate::json::{json_error, parsed_json, trees, uint_number, Json, JsonObject, JsonTree};
use crate::ports::SchemaSnapshotRecord;
use crate::snapshot::{array_field, text_field, text_field_or, text_or};
use crate::text::{
    chars_of, concat2, concat3, concat5, join, join_texts, lemma_lex_trans, lex_less, lex_lt,
    list_holds, lemma_holds_text, same_text, text_of, texts,
};

verus! {

/// The use case.
pub struct GetSchema {}

/// What a caller asks for.
pub struct GetSchemaInput {
    pub database: String,
    pub environment: Option<String>,
    pub table: Option<String>,
    pub summary: bool,
}

/// What the caller gets back.
pub struct SchemaOutput {
    pub database: String,
    pub environment: String,
    pub dialect: String,
    pub status: String,
    pub collected_at: String,
    pub body: SchemaBody,
}

/// One table, or all.
pub enum SchemaBody {
    SingleTable { table: Json },
    TableList { tables: Vec<Json> },
}

/// Due: the registered databases, each with an environment.
pub struct SchemaStart {
    pub input: GetSchemaInput,
}

/// A search through the environments. Due, where `current` gives one: the
/// snapshot of the database in that environment.
pub struct SchemaSearch {
    pub input: GetSchemaInput,
    pub candidates: Vec<String>,
    pub next: usize,
    pub any_ready: bool,
}

/// What a snapshot leads to.
pub enum SearchStep {
    /// The environment is passed over.
    Next(SchemaSearch),
    /// Due: authorize the caller for the environment.
    Ask(SchemaAsk),
}

/// Due: whether the database and the environment are proper names, and whether
/// the caller has `RequestView` on them.
pub struct SchemaAsk {
    pub search: SchemaSearch,
    pub record: SchemaSnapshotRecord,
}

/// What the answer of the authorizer leads to.
pub enum AskStep {
    /// The environment is passed over.
    Next(SchemaSearch),
    /// The snapshot is shown.
    Found(SchemaFound),
}

/// A snapshot that is shown.
pub struct SchemaFound {
    pub input: GetSchemaInput,
    pub environment: String,
    pub record: SchemaSnapshotRecord,
}

impl GetSchema {
    /// Starts a read.
    pub fn execute(&self, input: GetSchemaInput) -> (r: SchemaStart)
        ensures
            r.input == input,
    {
        SchemaStart { input }
    }
}

/// The environments that a database is registered in, in order.
pub open spec fn environments_of(pairs: Seq<(String, String)>, database: Seq<char>) -> Seq<Seq<char>>
    decreases pairs.len(),
{
    if pairs.len() == 0 {
        seq![]
    } else {
        let rest = environments_of(pairs.drop_last(), database);
        if pairs.last().0@ == database {
            rest.push(pairs.last().1@)
        } else {
            rest
        }
    }
}

/// The environments that a database is registered in, in order.
pub fn collect_environments(pairs: &Vec<(String, String)>, database: &str) -> (r: Vec<String>)
    ensures
        texts(r@) == environments_of(pairs@, database@),
{
    let mut out: Vec<String> = Vec::new();
    let n: usize = pairs.len();
    let mut i: usize = 0;
    assert(texts(out@) =~= environments_of(pairs@.take(0), database@));
    while i < n
        invariant
            i <= n,
            n == pairs@.len(),
            texts(out@) == environments_of(pairs@.take(i as int), database@),
        decreases n - i,
    {
        let ghost before = texts(out@);
        proof {
            assert(pairs@.take(i + 1).drop_last() =~= pairs@.take(i as int));
            assert(pairs@.take(i + 1).last() == pairs@[i as int]);
        }
        if same_text(pairs[i].0.as_str(), database) {
            out.push(pairs[i].1.clone());
            assert(texts(out@) =~= before.push(pairs@[i as int].1@));
        }
        i += 1;
    }
    assert(pairs@.take(n as int) =~= pairs@);
    out
}

/// Whether an environment is looked at before the others.
pub open spec fn has_priority(env: Seq<char>) -> bool {
    env == "production"@ || env == "staging"@ || env == "development"@
}

/// A one element list, or none.
pub open spec fn only_if(held: bool, env: Seq<char>) -> Seq<Seq<char>> {
    if held {
        seq![env]
    } else {
        seq![]
    }
}

/// The environments that are looked at first, in order.
pub open spec fn first_environments(envs: Seq<Seq<char>>) -> Seq<Seq<char>> {
    only_if(envs.contains("production"@), "production"@) + only_if(
        envs.contains("staging"@),
        "staging"@,
    ) + only_if(envs.contains("development"@), "development"@)
}

/// The environments that are looked at after those, as registered.
pub open spec fn other_environments(envs: Seq<Seq<char>>) -> Seq<Seq<char>>
    decreases envs.len(),
{
    if envs.len() == 0 {
        seq![]
    } else {
        let rest = other_environments(envs.drop_last());
        if has_priority(envs.last()) {
            rest
        } else {
            rest.push(envs.last())
        }
    }
}

/// Whether texts are in ascending order.
pub open spec fn ascending(s: Seq<Seq<char>>) -> bool {
    forall|i: int, j: int| 0 <= i < j < s.len() ==> !lex_lt(#[trigger] s[j], #[trigger] s[i])
}

/// Whether `candidates` are the environments in the order in which they are
/// looked at: those with priority, then the others in ascending order.
pub open spec fn candidate_order(candidates: Seq<Seq<char>>, envs: Seq<Seq<char>>) -> bool {
    let first = first_environments(envs);
    &&& first.len() <= candidates.len()
    &&& candidates.take(first.len() as int) == first
    &&& ascending(candidates.skip(first.len() as int))
    &&& candidates.skip(first.len() as int).to_multiset() == other_environments(envs).to_multiset()
}

/// Inserting keeps the others and adds the one.
proof fn lemma_insert_multiset(s: Seq<Seq<char>>, pos: int, x: Seq<char>)
    requires
        0 <= pos <= s.len(),
    ensures
        s.insert(pos, x).to_multiset() == s.to_multiset().insert(x),
{
    broadcast use vstd::seq_lib::group_to_multiset_ensures;
    broadcast use vstd::multiset::group_multiset_axioms;

    let t = s.insert(pos, x);
    assert(t.remove(pos) =~= s);
    assert(t[pos] == x);
    assert(t.to_multiset().count(x) > 0);
    assert(s.to_multiset() == t.to_multiset().remove(x));
    assert(t.to_multiset() =~= s.to_multiset().insert(x));
}

/// Inserts a text where it belongs.
fn insert_sorted(out: &mut Vec<String>, x: &String)
    requires
        ascending(texts(old(out)@)),
    ensures
        ascending(texts(final(out)@)),
        texts(final(out)@).to_multiset() == texts(old(out)@).to_multiset().insert(x@),
{
    let n: usize = out.len();
    let mut pos: usize = 0;
    while pos < n && !lex_less(x.as_str(), out[pos].as_str())
        invariant
            pos <= n,
            n == out@.len(),
            out@ == old(out)@,
            forall|k: int| 0 <= k < pos ==> !lex_lt(x@, #[trigger] texts(out@)[k]),
        decreases n - pos,
    {
        pos += 1;
    }
    let ghost before = texts(out@);
    let ghost at = pos as int;
    out.insert(pos, x.clone());
    proof {
        let after = texts(out@);
        assert(after =~= before.insert(at, x@));
        lemma_insert_multiset(before, at, x@);
        assert forall|i: int, j: int| 0 <= i < j < after.len() implies !lex_lt(
            #[trigger] after[j],
            #[trigger] after[i],
        ) by {
            if i == at {
                assert(after[j] == before[j - 1]);
                if at < j - 1 {
                    assert(!lex_lt(before[j - 1], before[at]));
                }
                if lex_lt(before[j - 1], x@) {
                    lemma_lex_trans(before[j - 1], x@, before[at]);
                    crate::text::lemma_lex_irreflexive(before[at]);
                }
            } else if j == at {
                assert(after[i] == before[i]);
            } else {
                let i0 = if i < at {
                    i
                } else {
                    i - 1
                };
                let j0 = if j < at {
                    j
                } else {
                    j - 1
                };
                assert(after[i] == before[i0]);
                assert(after[j] == before[j0]);
            }
        }
    }
}

/// The environments in the order in which they are looked at.
fn order_candidates(envs: &Vec<String>) -> (r: Vec<String>)
    ensures
        candidate_order(texts(r@), texts(envs@)),
{
    let mut first: Vec<String> = Vec::new();
    let ghost names = texts(envs@);
    proof {
        lemma_holds_text(envs@, "production"@);
        lemma_holds_text(envs@, "staging"@);
        lemma_holds_text(envs@, "development"@);
    }
    if list_holds(envs, "production") {
        first.push("production".to_string());
    }
    assert(texts(first@) =~= only_if(names.contains("production"@), "production"@));
    let ghost one = texts(first@);
    if list_holds(envs, "staging") {
        first.push("staging".to_string());
    }
    assert(texts(first@) =~= one + only_if(names.contains("staging"@), "staging"@));
    let ghost two = texts(first@);
    if list_holds(envs, "development") {
        first.push("development".to_string());
    }
    assert(texts(first@) =~= two + only_if(names.contains("development"@), "development"@));
    let mut rest: Vec<String> = Vec::new();
    let n: usize = envs.len();
    let mut i: usize = 0;
    proof {
        assert(names.take(0) =~= Seq::<Seq<char>>::empty());
        assert(texts(rest@) =~= Seq::<Seq<char>>::empty());
    }
    while i < n
        invariant
            i <= n,
            n == envs@.len(),
            names == texts(envs@),
            ascending(texts(rest@)),
            texts(rest@).to_multiset() == other_environments(names.take(i as int)).to_multiset(),
        decreases n - i,
    {
        proof {
            assert(names.take(i + 1).drop_last() =~= names.take(i as int));
            assert(names.take(i + 1).last() == envs@[i as int]@);
            vstd::seq_lib::to_multiset_build(
                other_environments(names.take(i as int)),
                envs@[i as int]@,
            );
        }
        let env = &envs[i];
        if !same_text(env.as_str(), "production") && !same_text(env.as_str(), "staging")
            && !same_text(env.as_str(), "development") {
            insert_sorted(&mut rest, env);
        }
        i += 1;
    }
    assert(names.take(n as int) =~= names);
    let ghost head = texts(first@);
    let ghost tail = texts(rest@);
    let m: usize = rest.len();
    let mut k: usize = 0;
    assert(tail.take(0) =~= Seq::<Seq<char>>::empty());
    assert(texts(first@) =~= head + tail.take(0));
    while k < m
        invariant
            k <= m,
            m == rest@.len(),
            tail == texts(rest@),
            texts(first@) == head + tail.take(k as int),
        decreases m - k,
    {
        let ghost before = texts(first@);
        first.push(rest[k].clone());
        k += 1;
        assert(texts(first@) =~= before.push(tail[k - 1]));
        assert(texts(first@) =~= head + tail.take(k as int));
    }
    proof {
        assert(tail.take(m as int) =~= tail);
        assert(texts(first@).take(head.len() as int) =~= head);
        assert(texts(first@).skip(head.len() as int) =~= tail);
    }
    first
}

impl SchemaStart {
    /// Takes the registered databases, each with an environment. The
    /// environment asked for is the only candidate; without one, all are.
    pub fn registered(self, pairs: &Vec<(String, String)>) -> (r: Result<SchemaSearch, AppError>)
        ensures
            ({
                let envs = environments_of(pairs@, self.input.database@);
                if envs.len() == 0 {
                    r matches Err(e) && e@ == ErrorView::NotFound("database not registered"@)
                } else {
                    match self.input.environment {
                        Some(env) => if envs.contains(env@) {
                            r matches Ok(s) && s.input == self.input && texts(s.candidates@)
                                == seq![env@] && s.next == 0 && !s.any_ready
                        } else {
                            r matches Err(e) && e@ == ErrorView::NotFound(
                                "environment '"@ + env@ + "' not registered for this database"@,
                            )
                        },
                        None => r matches Ok(s) && s.input == self.input && candidate_order(
                            texts(s.candidates@),
                            envs,
                        ) && s.next == 0 && !s.any_ready,
                    }
                }
            }),
    {
        let envs = collect_environments(pairs, self.input.database.as_str());
        assert(texts(envs@).len() == envs@.len());
        if envs.len() == 0 {
            return Err(AppError::NotFound("database not registered".to_string()));
        }
        let candidates: Vec<String> = match &self.input.environment {
            Some(env) => {
                proof {
                    lemma_holds_text(envs@, env@);
                }
                if !list_holds(&envs, env.as_str()) {
                    return Err(
                        AppError::NotFound(
                            concat3(
                                "environment '",
                                env.as_str(),
                                "' not registered for this database",
                            ),
                        ),
                    );
                }
                let mut one: Vec<String> = Vec::new();
                one.push(env.clone());
                assert(texts(one@) =~= seq![env@]);
                one
            },
            None => order_candidates(&envs),
        };
        Ok(SchemaSearch { input: self.input, candidates, next: 0, any_ready: false })
    }
}

impl SchemaSearch {
    /// The environment that is looked at next.
    pub fn current(&self) -> (r: Option<&String>)
        ensures
            if self.next < self.candidates@.len() {
                r == Some(&self.candidates@[self.next as int])
            } else {
                r is None
            },
    {
        if self.next < self.candidates.len() {
            Some(&self.candidates[self.next])
        } else {
            None
        }
    }

    /// Takes the snapshot of the current environment. Only one that is ready
    /// counts.
    pub fn seen(self, snapshot: Option<SchemaSnapshotRecord>) -> (r: SearchStep)
        requires
            self.next < self.candidates@.len(),
        ensures
            if snapshot is Some && snapshot->0.status@ == "ready"@ {
                r matches SearchStep::Ask(a) && a.record == snapshot->0 && a.search
                    == (SchemaSearch { any_ready: true, ..self })
            } else {
                r matches SearchStep::Next(s) && s == (SchemaSearch {
                    next: (self.next + 1) as usize,
                    ..self
                })
            },
    {
        assert(self.next < self.candidates.len());
        match snapshot {
            Some(record) => {
                if same_text(record.status.as_str(), "ready") {
                    return SearchStep::Ask(
                        SchemaAsk {
                            search: SchemaSearch {
                                input: self.input,
                                candidates: self.candidates,
                                next: self.next,
                                any_ready: true,
                            },
                            record,
                        },
                    );
                }
            },
            None => {},
        }
        SearchStep::Next(
            SchemaSearch {
                input: self.input,
                candidates: self.candidates,
                next: self.next + 1,
                any_ready: self.any_ready,
            },
        )
    }

    /// The error of a search that has looked at every environment.
    pub fn exhausted(&self) -> (r: AppError)
        requires
            self.next >= self.candidates@.len(),
        ensures
            r@ == if self.any_ready {
                ErrorView::Forbidden(
                    AuthzView::Forbidden {
                        permission: Permission::RequestView,
                        reason: "no authorized environment"@,
                    },
                )
            } else {
                ErrorView::NotFound("schema not yet collected. Start an agent for this database."@)
            },
    {
        if self.any_ready {
            AppError::Forbidden(
                AuthzError::Forbidden {
                    permission: Permission::RequestView,
                    reason: "no authorized environment".to_string(),
                },
            )
        } else {
            AppError::NotFound(
                "schema not yet collected. Start an agent for this database.".to_string(),
            )
        }
    }
}

impl SchemaAsk {
    /// Takes whether the names are proper, and if so whether the caller is
    /// allowed.
    pub fn asked(self, names: Result<(), String>, allowed: bool) -> (r: Result<AskStep, AppError>)
        requires
            self.search.next < self.search.candidates@.len(),
        ensures
            match names {
                Err(m) => r matches Err(e) && e@ == ErrorView::Internal(m@),
                Ok(_) => if allowed {
                    r matches Ok(AskStep::Found(f)) && f.input == self.search.input
                        && f.environment == self.search.candidates@[self.search.next as int]
                        && f.record == self.record
                } else {
                    r matches Ok(AskStep::Next(s)) && s == (SchemaSearch {
                        next: (self.search.next + 1) as usize,
                        ..self.search
                    })
                },
            },
    {
        assert(self.search.next < self.search.candidates.len());
        match names {
            Err(m) => Err(AppError::Internal(m)),
            Ok(_) => {
                if allowed {
                    let environment = self.search.candidates[self.search.next].clone();
                    Ok(
                        AskStep::Found(
                            SchemaFound {
                                input: self.search.input,
                                environment,
                                record: self.record,
                            },
                        ),
                    )
                } else {
                    Ok(
                        AskStep::Next(
                            SchemaSearch {
                                input: self.search.input,
                                candidates: self.search.candidates,
                                next: self.search.next + 1,
                                any_ready: self.search.any_ready,
                            },
                        ),
                    )
                }
            },
        }
    }
}

/// The first dot at or after `i`.
pub open spec fn first_dot(s: Seq<char>, i: int) -> Option<int>
    decreases s.len() - i,
{
    if i < 0 || i >= s.len() {
        None
    } else if s[i] == '.' {
        Some(i)
    } else {
        first_dot(s, i + 1)
    }
}

/// The schema that a filter names before its first dot, if it has one.
pub open spec fn schema_part(filter: Seq<char>) -> Option<Seq<char>> {
    match first_dot(filter, 0) {
        Some(k) => Some(filter.take(k)),
        None => None,
    }
}

/// The table that a filter names.
pub open spec fn name_part(filter: Seq<char>) -> Seq<char> {
    match first_dot(filter, 0) {
        Some(k) => filter.skip(k + 1),
        None => filter,
    }
}

/// Whether a table is the one that a filter names.
pub open spec fn table_named(t: JsonTree, filter: Seq<char>) -> bool {
    &&& text_or(t, "name"@, ""@) == name_part(filter)
    &&& schema_part(filter) matches Some(s) ==> text_or(t, "schema_name"@, ""@) == s
}

/// The tables that a filter names, in order.
pub open spec fn tables_named(tables: Seq<JsonTree>, filter: Seq<char>) -> Seq<JsonTree>
    decreases tables.len(),
{
    if tables.len() == 0 {
        seq![]
    } else {
        let rest = tables_named(tables.drop_last(), filter);
        if table_named(tables.last(), filter) {
            rest.push(tables.last())
        } else {
            rest
        }
    }
}

/// The schemas of tables, where they have one, in order.
pub open spec fn schemas_of(tables: Seq<JsonTree>) -> Seq<Seq<char>>
    decreases tables.len(),
{
    if tables.len() == 0 {
        seq![]
    } else {
        let rest = schemas_of(tables.drop_last());
        match tables.last().at("schema_name"@).as_text() {
            Some(s) => rest.push(s),
            None => rest,
        }
    }
}

/// A filter taken apart.
struct TableFilter {
    schema: Option<String>,
    name: String,
}

fn split_filter(filter: &str) -> (r: TableFilter)
    ensures
        r.name@ == name_part(filter@),
        match r.schema {
            Some(s) => schema_part(filter@) == Some(s@),
            None => schema_part(filter@) is None,
        },
{
    let cs = chars_of(filter);
    let n: usize = cs.len();
    let mut i: usize = 0;
    while i < n
        invariant
            i <= n,
            n == cs@.len(),
            cs@ == filter@,
            first_dot(filter@, 0) == first_dot(filter@, i as int),
        decreases n - i,
    {
        if cs[i] == '.' {
            let schema = text_of(&cs, 0, i);
            let name = text_of(&cs, i + 1, n);
            assert(schema@ =~= filter@.take(i as int));
            assert(name@ =~= filter@.skip(i + 1));
            return TableFilter { schema: Some(schema), name };
        }
        i += 1;
    }
    TableFilter { schema: None, name: filter.to_string() }
}

fn collect_named(tables: &Vec<Json>, filter: &str) -> (r: Vec<Json>)
    ensures
        trees(r@) == tables_named(trees(tables@), filter@),
{
    let parts = split_filter(filter);
    let mut out: Vec<Json> = Vec::new();
    let n: usize = tables.len();
    let mut i: usize = 0;
    assert(trees(out@) =~= tables_named(trees(tables@).take(0), filter@));
    while i < n
        invariant
            i <= n,
            n == tables@.len(),
            parts.name@ == name_part(filter@),
            match parts.schema {
                Some(s) => schema_part(filter@) == Some(s@),
                None => schema_part(filter@) is None,
            },
            trees(out@) == tables_named(trees(tables@).take(i as int), filter@),
        decreases n - i,
    {
        let ghost before = trees(out@);
        proof {
            assert(trees(tables@).take(i + 1).drop_last() =~= trees(tables@).take(i as int));
            assert(trees(tables@).take(i + 1).last() == tables@[i as int]@);
        }
        let name = text_field_or(&tables[i], "name", "");
        let schema = text_field_or(&tables[i], "schema_name", "");
        let wanted: bool = match &parts.schema {
            Some(s) => same_text(name.as_str(), parts.name.as_str()) && same_text(
                schema.as_str(),
                s.as_str(),
            ),
            None => same_text(name.as_str(), parts.name.as_str()),
        };
        if wanted {
            out.push(tables[i].copy());
            assert(trees(out@) =~= before.push(tables@[i as int]@));
        }
        i += 1;
    }
    assert(trees(tables@).take(n as int) =~= trees(tables@));
    out
}

fn collect_schemas(tables: &Vec<Json>) -> (r: Vec<String>)
    ensures
        texts(r@) == schemas_of(trees(tables@)),
{
    let mut out: Vec<String> = Vec::new();
    let n: usize = tables.len();
    let mut i: usize = 0;
    assert(texts(out@) =~= schemas_of(trees(tables@).take(0)));
    while i < n
        invariant
            i <= n,
            n == tables@.len(),
            texts(out@) == schemas_of(trees(tables@).take(i as int)),
        decreases n - i,
    {
        let ghost before = texts(out@);
        proof {
            assert(trees(tables@).take(i + 1).drop_last() =~= trees(tables@).take(i as int));
            assert(trees(tables@).take(i + 1).last() == tables@[i as int]@);
        }
        match text_field(&tables[i], "schema_name") {
            Some(s) => {
                out.push(s.clone());
                assert(texts(out@) =~= before.push(s@));
            },
            None => {},
        }
        i += 1;
    }
    assert(trees(tables@).take(n as int) =~= trees(tables@));
    out
}

/// Why no single table is shown.
pub open spec fn table_error(tables: Seq<JsonTree>, filter: Seq<char>) -> Option<ErrorView> {
    let found = tables_named(tables, filter);
    if found.len() == 0 {
        Some(ErrorView::NotFound("table '"@ + filter + "' not found in snapshot"@))
    } else if found.len() == 1 {
        None
    } else {
        Some(
            ErrorView::NotFound(
                "multiple tables named '"@ + name_part(filter) + "' found in schemas: "@ + join(
                    schemas_of(found),
                    ", "@,
                ) + ". Specify as schema.table"@,
            ),
        )
    }
}

fn filter_table(tables: &Vec<Json>, filter: &str) -> (r: Result<SchemaBody, AppError>)
    ensures
        match r {
            Err(e) => table_error(trees(tables@), filter@) == Some(e@),
            Ok(b) => {
                &&& table_error(trees(tables@), filter@) is None
                &&& b matches SchemaBody::SingleTable { table }
                &&& table@ == tables_named(trees(tables@), filter@)[0]
            },
        },
{
    let found = collect_named(tables, filter);
    assert(trees(found@).len() == found@.len());
    if found.len() == 0 {
        return Err(AppError::NotFound(concat3("table '", filter, "' not found in snapshot")));
    }
    if found.len() == 1 {
        let table = found[0].copy();
        return Ok(SchemaBody::SingleTable { table });
    }
    let parts = split_filter(filter);
    let schemas = collect_schemas(&found);
    let list = join_texts(&schemas, ", ");
    Err(
        AppError::NotFound(
            concat5(
                "multiple tables named '",
                parts.name.as_str(),
                "' found in schemas: ",
                list.as_str(),
                ". Specify as schema.table",
            ),
        ),
    )
}

/// How many elements the member `key` of a table has.
pub open spec fn count_of(t: JsonTree, key: Seq<char>) -> JsonTree {
    JsonTree::Number(
        uint_number(
            match t.at(key).as_array() {
                Some(a) => a.len() as u64,
                None => 0,
            },
        ),
    )
}

/// A table without its columns, constraints and indexes, which are counted.
pub open spec fn table_summary(t: JsonTree) -> JsonTree {
    JsonTree::Object(
        Map::<Seq<char>, JsonTree>::empty().insert("name"@, t.at("name"@)).insert(
            "schema_name"@,
            t.at("schema_name"@),
        ).insert("estimated_rows"@, t.at("estimated_rows"@)).insert(
            "column_count"@,
            count_of(t, "columns"@),
        ).insert("constraint_count"@, count_of(t, "constraints"@)).insert(
            "index_count"@,
            count_of(t, "indexes"@),
        ),
    )
}

fn member(t: &Json, key: &str) -> (r: Json)
    ensures
        r@ == t@.at(key@),
{
    match t.get(key) {
        Some(v) => v.copy(),
        None => Json::Null,
    }
}

fn count_member(t: &Json, key: &str) -> (r: Json)
    ensures
        r@ == count_of(t@, key@),
{
    match array_field(t, key) {
        Some(v) => {
            assert(trees(v@).len() == v@.len());
            Json::unsigned(v.len() as u64)
        },
        None => Json::unsigned(0),
    }
}

/// A table without its columns, constraints and indexes, which are counted.
pub fn summarize_table(t: &Json) -> (r: Json)
    ensures
        r@ == table_summary(t@),
{
    JsonObject::new().with("name", member(t, "name")).with(
        "schema_name",
        member(t, "schema_name"),
    ).with("estimated_rows", member(t, "estimated_rows")).with(
        "column_count",
        count_member(t, "columns"),
    ).with("constraint_count", count_member(t, "constraints")).with(
        "index_count",
        count_member(t, "indexes"),
    ).build()
}

/// The text of a snapshot; an empty object where there is none.
pub open spec fn snapshot_text(record: SchemaSnapshotRecord) -> Seq<char> {
    match record.snapshot_json {
        Some(s) => s@,
        None => "{}"@,
    }
}

/// Why a snapshot is not shown.
pub open spec fn snapshot_error(record: SchemaSnapshotRecord, table: Option<String>) -> Option<
    ErrorView,
> {
    match parsed_json(snapshot_text(record)) {
        None => Some(
            ErrorView::Internal("corrupt snapshot JSON: "@ + json_error(snapshot_text(record))),
        ),
        Some(doc) => match doc.at("tables"@).as_array() {
            None => Some(ErrorView::Internal("snapshot missing tables array"@)),
            Some(tables) => match table {
                Some(filter) => table_error(tables, filter@),
                None => None,
            },
        },
    }
}

/// Whether `body` shows what was asked for of the tables.
pub open spec fn shows_tables(body: SchemaBody, input: GetSchemaInput, tables: Seq<JsonTree>) -> bool {
    match input.table {
        Some(filter) => body matches SchemaBody::SingleTable { table } && table@ == tables_named(
            tables,
            filter@,
        )[0],
        None => body matches SchemaBody::TableList { tables: shown } && if input.summary {
            trees(shown@) == tables.map_values(|t: JsonTree| table_summary(t))
        } else {
            trees(shown@) == tables
        },
    }
}

impl SchemaFound {
    /// What is shown of the snapshot.
    pub fn show(self) -> (r: Result<SchemaOutput, AppError>)
        ensures
            match r {
                Err(e) => snapshot_error(self.record, self.input.table) == Some(e@),
                Ok(out) => {
                    &&& snapshot_error(self.record, self.input.table) is None
                    &&& out.database == self.input.database
                    &&& out.environment == self.environment
                    &&& out.dialect == self.record.dialect
                    &&& out.status == self.record.status
                    &&& out.collected_at == self.record.collected_at
                    &&& shows_tables(
                        out.body,
                        self.input,
                        parsed_json(snapshot_text(self.record))->0.at("tables"@).as_array()->0,
                    )
                },
            },
    {
        let text: &str = match &self.record.snapshot_json {
            Some(s) => s.as_str(),
            None => "{}",
        };
        let doc = match Json::read(text) {
            Err(e) => {
                return Err(AppError::Internal(concat2("corrupt snapshot JSON: ", e.as_str())));
            },
            Ok(d) => d,
        };
        let body = match array_field(&doc, "tables") {
            None => {
                return Err(AppError::Internal("snapshot missing tables array".to_string()));
            },
            Some(tables) => match &self.input.table {
                Some(filter) => match filter_table(tables, filter.as_str()) {
                    Err(e) => {
                        return Err(e);
                    },
                    Ok(b) => b,
                },
                None => {
                    let mut shown: Vec<Json> = Vec::new();
                    let n: usize = tables.len();
                    let mut i: usize = 0;
                    while i < n
                        invariant
                            i <= n,
                            n == tables@.len(),
                            shown@.len() == i,
                            forall|k: int|
                                0 <= k < i ==> (#[trigger] shown@[k])@ == if self.input.summary {
                                    table_summary(tables@[k]@)
                                } else {
                                    tables@[k]@
                                },
                        decreases n - i,
                    {
                        if self.input.summary {
                            shown.push(summarize_table(&tables[i]));
                        } else {
                            shown.push(tables[i].copy());
                        }
                        i += 1;
                    }
                    proof {
                        if self.input.summary {
                            assert(trees(shown@) =~= trees(tables@).map_values(
                                |t: JsonTree| table_summary(t),
                            ));
                        } else {
                            assert(trees(shown@) =~= trees(tables@));
                        }
                    }
                    SchemaBody::TableList { tables: shown }
                },
            },
        };
        Ok(
            SchemaOutput {
                database: self.input.database,
                environment: self.environment,
                dialect: self.record.dialect,
                status: self.record.status,
                collected_at: self.record.collected_at,
                body,
            },
        )
    }
}

/// Every registered environment of a database is looked at, and no other.
pub proof fn every_environment_is_a_candidate(
    candidates: Seq<Seq<char>>,
    envs: Seq<Seq<char>>,
    env: Seq<char>,
)
    requires
        candidate_order(candidates, envs),
    ensures
        candidates.contains(env) <==> envs.contains(env),
{
    let first = first_environments(envs);
    let tail = candidates.skip(first.len() as int);
    lemma_other_environments(envs, env);
    tail.to_multiset_ensures();
    other_environments(envs).to_multiset_ensures();
    assert(tail.to_multiset().count(env) == other_environments(envs).to_multiset().count(env));
    assert(tail.contains(env) == other_environments(envs).contains(env));
    assert(candidates =~= first + tail);
    lemma_first_environments(envs, env);
    if candidates.contains(env) {
        let i = choose|i: int| 0 <= i < candidates.len() && candidates[i] == env;
        if i < first.len() {
            assert(first[i] == env);
        } else {
            assert(tail[i - first.len()] == env);
        }
    }
    if first.contains(env) {
        let i = choose|i: int| 0 <= i < first.len() && first[i] == env;
        assert(candidates[i] == env);
    }
    if tail.contains(env) {
        let i = choose|i: int| 0 <= i < tail.len() && tail[i] == env;
        assert(candidates[first.len() + i] == env);
    }
}

proof fn lemma_first_environments(envs: Seq<Seq<char>>, env: Seq<char>)
    ensures
        first_environments(envs).contains(env) <==> has_priority(env) && envs.contains(env),
{
    let a = only_if(envs.contains("production"@), "production"@);
    let b = only_if(envs.contains("staging"@), "staging"@);
    let c = only_if(envs.contains("development"@), "development"@);
    let all = first_environments(envs);
    if has_priority(env) && envs.contains(env) {
        if env == "production"@ {
            assert(all[0] == env);
        } else if env == "staging"@ {
            assert(all[a.len() as int] == env);
        } else {
            assert(all[(a.len() + b.len()) as int] == env);
        }
    }
    if all.contains(env) {
        let i = choose|i: int| 0 <= i < all.len() && all[i] == env;
        if i < a.len() {
            assert(all[i] == a[i]);
        } else if i < a.len() + b.len() {
            assert(all[i] == b[i - a.len()]);
        } else {
            assert(all[i] == c[i - a.len() - b.len()]);
        }
    }
}

proof fn lemma_other_environments(envs: Seq<Seq<char>>, env: Seq<char>)
    ensures
        other_environments(envs).contains(env) <==> !has_priority(env) && envs.contains(env),
    decreases envs.len(),
{
    if envs.len() > 0 {
        let rest = other_environments(envs.drop_last());
        let all = other_environments(envs);
        lemma_other_environments(envs.drop_last(), env);
        if envs.contains(env) {
            let i = choose|i: int| 0 <= i < envs.len() && envs[i] == env;
            if i < envs.len() - 1 {
                assert(envs.drop_last()[i] == env);
            }
        }
        if envs.drop_last().contains(env) {
            let i = choose|i: int| 0 <= i < envs.drop_last().len() && envs.drop_last()[i] == env;
            assert(envs[i] == env);
        }
        if rest.contains(env) {
            let i = choose|i: int| 0 <= i < rest.len() && rest[i] == env;
            assert(all[i] == env);
        }
        if all.contains(env) {
            let i = choose|i: int| 0 <= i < all.len() && all[i] == env;
            if i < rest.len() {
                assert(rest[i] == env);
            }
        }
        if !has_priority(envs.last()) {
            assert(all[all.len() - 1] == envs.last());
        }
        assert(envs[envs.len() - 1] == envs.last());
    }
}

/// A pair of the database gives its environment, and each environment comes from
/// such a pair.
proof fn lemma_environments(pairs: Seq<(String, String)>, database: Seq<char>, env: Seq<char>)
    ensures
        environments_of(pairs, database).contains(env) <==> exists|i: int|
            0 <= i < pairs.len() && (#[trigger] pairs[i]).0@ == database && pairs[i].1@ == env,
        environments_of(pairs, database).len() > 0 <==> exists|i: int|
            0 <= i < pairs.len() && (#[trigger] pairs[i]).0@ == database,
    decreases pairs.len(),
{
    if pairs.len() > 0 {
        let before = pairs.drop_last();
        let rest = environments_of(before, database);
        let all = environments_of(pairs, database);
        lemma_environments(before, database, env);
        if all.contains(env) {
            let k = choose|k: int| 0 <= k < all.len() && all[k] == env;
            if k < rest.len() {
                assert(rest[k] == env);
                let i = choose|i: int|
                    0 <= i < before.len() && (#[trigger] before[i]).0@ == database && before[i].1@
                        == env;
                assert(pairs[i] == before[i]);
            } else {
                assert(pairs[pairs.len() - 1].1@ == env);
            }
        }
        if exists|i: int|
            0 <= i < pairs.len() && (#[trigger] pairs[i]).0@ == database && pairs[i].1@ == env {
            let i = choose|i: int|
                0 <= i < pairs.len() && (#[trigger] pairs[i]).0@ == database && pairs[i].1@ == env;
            if i < before.len() {
                assert(before[i] == pairs[i]);
                let k = choose|k: int| 0 <= k < rest.len() && rest[k] == env;
                assert(all[k] == env);
            } else {
                assert(all[all.len() - 1] == env);
            }
        }
        if rest.len() > 0 {
            let i = choose|i: int| 0 <= i < before.len() && (#[trigger] before[i]).0@ == database;
            assert(pairs[i] == before[i]);
        }
        if all.len() > 0 && rest.len() == 0 {
            assert(pairs[pairs.len() - 1].0@ == database);
        }
        if exists|i: int| 0 <= i < pairs.len() && (#[trigger] pairs[i]).0@ == database {
            let i = choose|i: int| 0 <= i < pairs.len() && (#[trigger] pairs[i]).0@ == database;
            if i < before.len() {
                assert(before[i] == pairs[i]);
            }
        }
    }
}

/// A registered database is looked for in the environment that is asked for, if
/// it is registered there, or in every one that it is registered in.
pub proof fn schemas_are_looked_for_where_registered(
    stage: SchemaStart,
    pairs: Vec<(String, String)>,
    r: Result<SchemaSearch, AppError>,
    env: Seq<char>,
)
    requires
        call_ensures(SchemaStart::registered, (stage, &pairs), r),
    ensures
        r is Ok <==> exists|i: int|
            0 <= i < pairs@.len() && (#[trigger] pairs@[i]).0@ == stage.input.database@ && (
            stage.input.environment matches Some(e) ==> pairs@[i].1@ == e@),
        r is Err ==> r->Err_0 is NotFound,
        r matches Ok(s) ==> {
            &&& s.input == stage.input
            &&& s.next == 0
            &&& !s.any_ready
            &&& stage.input.environment matches Some(e) ==> texts(s.candidates@) == seq![e@]
            &&& stage.input.environment is None ==> (texts(s.candidates@).contains(env)
                <==> exists|i: int|
                0 <= i < pairs@.len() && (#[trigger] pairs@[i]).0@ == stage.input.database@
                    && pairs@[i].1@ == env)
        },
{
    let db = stage.input.database@;
    lemma_environments(pairs@, db, env);
    if let Some(e) = stage.input.environment {
        lemma_environments(pairs@, db, e@);
    } else if let Ok(s) = r {
        every_environment_is_a_candidate(texts(s.candidates@), environments_of(pairs@, db), env);
    }
}

/// Production is looked at before staging, staging before development, and these
/// before any other environment; the others come in the order of their names.
pub proof fn production_is_looked_at_first(
    stage: SchemaStart,
    pairs: Vec<(String, String)>,
    s: SchemaSearch,
    i: int,
    j: int,
)
    requires
        call_ensures(
            SchemaStart::registered,
            (stage, &pairs),
            Ok::<SchemaSearch, AppError>(s),
        ),
        stage.input.environment is None,
        0 <= i < j < s.candidates@.len(),
    ensures
        s.candidates@[j]@ != "production"@,
        s.candidates@[j]@ == "staging"@ ==> s.candidates@[i]@ == "production"@,
        s.candidates@[j]@ == "development"@ ==> s.candidates@[i]@ == "production"@
            || s.candidates@[i]@ == "staging"@,
        s.candidates@[i]@ != "production"@ && s.candidates@[i]@ != "staging"@ && s.candidates@[i]@
            != "development"@ ==> !lex_lt(s.candidates@[j]@, s.candidates@[i]@),
{
    let envs = environments_of(pairs@, stage.input.database@);
    let c = texts(s.candidates@);
    let first = first_environments(envs);
    let tail = c.skip(first.len() as int);
    assert(c.len() == s.candidates@.len());
    assert(c[i] == s.candidates@[i]@ && c[j] == s.candidates@[j]@);
    reveal_strlit("production");
    reveal_strlit("staging");
    reveal_strlit("development");
    assert("production"@.len() == 10 && "staging"@.len() == 7 && "development"@.len() == 11);
    let a = only_if(envs.contains("production"@), "production"@);
    let b = only_if(envs.contains("staging"@), "staging"@);
    let d = only_if(envs.contains("development"@), "development"@);
    assert(first =~= a + b + d);
    if j < first.len() {
        assert(c.take(first.len() as int)[j] == c[j]);
        assert(c.take(first.len() as int)[i] == c[i]);
        assert(first[i] == c[i] && first[j] == c[j]);
    } else {
        lemma_other_environments(envs, c[j]);
        tail.to_multiset_ensures();
        other_environments(envs).to_multiset_ensures();
        assert(tail[j - first.len()] == c[j]);
        assert(tail.contains(c[j]));
        assert(tail.to_multiset().count(c[j]) == other_environments(envs).to_multiset().count(
            c[j],
        ));
        assert(other_environments(envs).contains(c[j]));
        if i < first.len() {
            assert(c.take(first.len() as int)[i] == c[i]);
            assert(first[i] == c[i]);
            assert(first.contains(c[i]));
            lemma_first_environments(envs, c[i]);
        } else {
            assert(tail[i - first.len()] == c[i]);
        }
    }
}

/// Only a schema that is ready is shown, and only to who may see the
/// environment; otherwise the next one is looked at.
pub proof fn ready_schemas_are_asked_for(
    stage: SchemaSearch,
    snapshot: Option<SchemaSnapshotRecord>,
    r: SearchStep,
    ask: SchemaAsk,
    names: Result<(), String>,
    allowed: bool,
    a: Result<AskStep, AppError>,
)
    requires
        stage.next < stage.candidates@.len(),
        call_ensures(SchemaSearch::seen, (stage, snapshot), r),
        ask.search.next < ask.search.candidates@.len(),
        call_ensures(SchemaAsk::asked, (ask, names, allowed), a),
    ensures
        r is Ask <==> snapshot is Some && snapshot->0.status@ == "ready"@,
        r matches SearchStep::Ask(x) ==> x.record == snapshot->0 && x.search.any_ready
            && x.search.next == stage.next && x.search.candidates == stage.candidates,
        r matches SearchStep::Next(s) ==> s.next == stage.next + 1 && s.any_ready
            == stage.any_ready && s.candidates == stage.candidates && s.input == stage.input,
        a is Err <==> names is Err,
        a is Err ==> a->Err_0 is Internal,
        a is Ok ==> (a->Ok_0 is Found <==> allowed),
        a matches Ok(AskStep::Found(f)) ==> f.record == ask.record && f.environment
            == ask.search.candidates@[ask.search.next as int] && f.input == ask.search.input,
        a matches Ok(AskStep::Next(s)) ==> s.next == ask.search.next + 1 && s.any_ready
            == ask.search.any_ready && s.candidates == ask.search.candidates,
{
    assert(stage.next < stage.candidates.len());
    assert(ask.search.next < ask.search.candidates.len());
}

/// A search that found nothing to show says whether there was something to hide.
pub proof fn hidden_schemas_are_forbidden(stage: SchemaSearch, r: AppError)
    requires
        stage.next >= stage.candidates@.len(),
        call_ensures(SchemaSearch::exhausted, (&stage,), r),
    ensures
        r is Forbidden <==> stage.any_ready,
        r is NotFound <==> !stage.any_ready,
{
}

/// Without a dot a filter names a table in any schema; with one it names a table
/// of the schema before the first dot.
proof fn lemma_filter_parts(filter: Seq<char>, i: int)
    requires
        0 <= i <= filter.len(),
    ensures
        match first_dot(filter, i) {
            Some(k) => i <= k < filter.len() && filter[k] == '.' && forall|j: int|
                i <= j < k ==> #[trigger] filter[j] != '.',
            None => forall|j: int| i <= j < filter.len() ==> #[trigger] filter[j] != '.',
        },
    decreases filter.len() - i,
{
    if i < filter.len() && filter[i] != '.' {
        lemma_filter_parts(filter, i + 1);
    }
}

/// A table of a name is among the tables of that name.
proof fn lemma_named_tables(tables: Seq<JsonTree>, filter: Seq<char>, i: int)
    ensures
        0 <= i < tables.len() && table_named(tables[i], filter) ==> tables_named(
            tables,
            filter,
        ).contains(tables[i]),
        forall|k: int|
            0 <= k < tables_named(tables, filter).len() ==> table_named(
                #[trigger] tables_named(tables, filter)[k],
                filter,
            ) && tables.contains(tables_named(tables, filter)[k]),
    decreases tables.len(),
{
    if tables.len() > 0 {
        let before = tables.drop_last();
        let rest = tables_named(before, filter);
        let all = tables_named(tables, filter);
        lemma_named_tables(before, filter, i);
        if 0 <= i < tables.len() && table_named(tables[i], filter) {
            if i < before.len() {
                assert(before[i] == tables[i]);
                let k = choose|k: int| 0 <= k < rest.len() && rest[k] == tables[i];
                assert(all[k] == tables[i]);
            } else {
                assert(all[all.len() - 1] == tables[i]);
            }
        }
        assert forall|k: int| 0 <= k < all.len() implies table_named(#[trigger] all[k], filter)
            && tables.contains(all[k]) by {
            if k < rest.len() {
                assert(all[k] == rest[k]);
                let x = choose|x: int| 0 <= x < before.len() && before[x] == rest[k];
                assert(tables[x] == all[k]);
            } else {
                assert(tables[tables.len() - 1] == all[k]);
            }
        }
    }
}

/// A table that is shown has the name that was asked for, and is in the schema
/// that was asked for, if one was.
pub proof fn shown_tables_have_the_name(
    stage: SchemaFound,
    out: SchemaOutput,
    tables: Seq<JsonTree>,
    name: Seq<char>,
    schema: Seq<char>,
)
    requires
        call_ensures(SchemaFound::show, (stage,), Ok::<SchemaOutput, AppError>(out)),
        stage.record.snapshot_json is Some,
        parsed_json(stage.record.snapshot_json->0@) is Some,
        parsed_json(stage.record.snapshot_json->0@)->0.at("tables"@).as_array() == Some(tables),
        stage.input.table is Some,
        forall|j: int| 0 <= j < schema.len() ==> #[trigger] schema[j] != '.',
    ensures
        out.body matches SchemaBody::SingleTable { table } && {
            &&& tables.contains(table@)
            &&& stage.input.table->0@ == schema + "."@ + name ==> table@.at(
                "name"@,
            ).as_text() == Some(name) || name.len() == 0
            &&& stage.input.table->0@ == schema + "."@ + name ==> table@.at(
                "schema_name"@,
            ).as_text() == Some(schema) || schema.len() == 0
            &&& stage.input.table->0@ == name && (forall|j: int|
                0 <= j < name.len() ==> #[trigger] name[j] != '.') ==> table@.at(
                "name"@,
            ).as_text() == Some(name) || name.len() == 0
        },
        out.database == stage.input.database,
        out.environment == stage.environment,
        out.dialect == stage.record.dialect,
        out.collected_at == stage.record.collected_at,
{
    let filter = stage.input.table->0@;
    let found = tables_named(tables, filter);
    lemma_named_tables(tables, filter, 0);
    lemma_filter_parts(filter, 0);
    assert(table_named(found[0], filter) && tables.contains(found[0]));
    reveal_strlit(".");
    reveal_strlit("");
    if filter == schema + "."@ + name {
        let k = first_dot(filter, 0);
        assert(filter[schema.len() as int] == '.');
        assert forall|j: int| 0 <= j < schema.len() implies #[trigger] filter[j] != '.' by {
            assert(filter[j] == schema[j]);
        }
        assert(k == Some(schema.len() as int));
        assert(filter.take(schema.len() as int) =~= schema);
        assert(filter.skip(schema.len() as int + 1) =~= name);
    }
}

/// A table of a name that no other has is shown, and one of a name that several
/// have or none is not found.
pub proof fn only_tables_are_shown(
    stage: SchemaFound,
    r: Result<SchemaOutput, AppError>,
    tables: Seq<JsonTree>,
)
    requires
        call_ensures(SchemaFound::show, (stage,), r),
        stage.record.snapshot_json is Some,
        parsed_json(stage.record.snapshot_json->0@) is Some,
        parsed_json(stage.record.snapshot_json->0@)->0.at("tables"@).as_array() == Some(tables),
        stage.input.table is Some,
        forall|j: int|
            0 <= j < stage.input.table->0@.len() ==> #[trigger] stage.input.table->0@[j] != '.',
        stage.input.table->0@.len() > 0,
    ensures
        (forall|k: int|
            0 <= k < tables.len() ==> (#[trigger] tables[k]).at("name"@).as_text() != Some(
                stage.input.table->0@,
            )) ==> r is Err,
        r is Err ==> r->Err_0 is NotFound,
{
    let filter = stage.input.table->0@;
    lemma_filter_parts(filter, 0);
    lemma_named_tables(tables, filter, 0);
    reveal_strlit("");
    let found = tables_named(tables, filter);
    if found.len() == 1 {
        assert(table_named(found[0], filter) && tables.contains(found[0]));
        let k = choose|k: int| 0 <= k < tables.len() && tables[k] == found[0];
        assert(tables[k].at("name"@).as_text() == Some(filter));
    }
}

/// Without a table every table is shown, in its place: as it is, or with its
/// columns, constraints and indexes counted.
pub proof fn every_table_is_shown(
    stage: SchemaFound,
    r: Result<SchemaOutput, AppError>,
    tables: Seq<JsonTree>,
    k: int,
)
    requires
        call_ensures(SchemaFound::show, (stage,), r),
        stage.record.snapshot_json is Some,
        parsed_json(stage.record.snapshot_json->0@) is Some,
        parsed_json(stage.record.snapshot_json->0@)->0.at("tables"@).as_array() == Some(tables),
        stage.input.table is None,
        0 <= k < tables.len(),
    ensures
        r matches Ok(out) && (out.body matches SchemaBody::TableList { tables: shown } && {
            &&& shown@.len() == tables.len()
            &&& !stage.input.summary ==> shown@[k]@ == tables[k]
            &&& stage.input.summary ==> {
                &&& shown@[k]@.at("name"@) == tables[k].at("name"@)
                &&& shown@[k]@.at("schema_name"@) == tables[k].at("schema_name"@)
                &&& shown@[k]@.at("estimated_rows"@) == tables[k].at("estimated_rows"@)
            }
        }),
{
    if let Ok(out) = r {
        if let SchemaBody::TableList { tables: shown } = out.body {
            assert(trees(shown@).len() == shown@.len());
            assert(trees(shown@)[k] == shown@[k]@);
            lemma_summary_members(tables[k]);
        }
    }
}

proof fn lemma_summary_members(t: JsonTree)
    ensures
        table_summary(t).at("name"@) == t.at("name"@),
        table_summary(t).at("schema_name"@) == t.at("schema_name"@),
        table_summary(t).at("estimated_rows"@) == t.at("estimated_rows"@),
        table_summary(t).at("column_count"@) == count_of(t, "columns"@),
        table_summary(t).at("constraint_count"@) == count_of(t, "constraints"@),
        table_summary(t).at("index_count"@) == count_of(t, "indexes"@),
{
    reveal_strlit("name");
    reveal_strlit("schema_name");
    reveal_strlit("estimated_rows");
    reveal_strlit("column_count");
    reveal_strlit("constraint_count");
    reveal_strlit("index_count");
    assert("name"@.len() == 4 && "estimated_rows"@.len() == 14 && "column_count"@.len() == 12
        && "constraint_count"@.len() == 16);
    assert("schema_name"@.len() == 11 && "index_count"@.len() == 11);
    assert("schema_name"@[0] != "index_count"@[0]);
}

/// A summary counts the columns, the constraints and the indexes, each under its
/// own name.
pub proof fn summaries_count_their_parts(t: Json, r: Json, n: u64)
    requires
        call_ensures(summarize_table, (&t,), r),
    ensures
        t@.at("columns"@).as_array() is Some && t@.at("columns"@).as_array()->0.len() == n
            ==> r@.at("column_count"@) == JsonTree::Number(uint_number(n)),
        t@.at("constraints"@).as_array() is Some && t@.at("constraints"@).as_array()->0.len() == n
            ==> r@.at("constraint_count"@) == JsonTree::Number(uint_number(n)),
        t@.at("indexes"@).as_array() is Some && t@.at("indexes"@).as_array()->0.len() == n
            ==> r@.at("index_count"@) == JsonTree::Number(uint_number(n)),
        t@.at("columns"@).as_array() is None ==> r@.at("column_count"@) == JsonTree::Number(
            uint_number(0),
        ),
{
    lemma_summary_members(t@);
}

} // verus!
