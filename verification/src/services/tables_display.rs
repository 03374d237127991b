//! The tables of a request as they are shown. Three forms are read: a list of
//! names, tables as in a schema snapshot, and tables with what was derived from
//! one.

use vstd::prelude::*;

use crate::json::{
    collect_texts, parsed_json, rendered_json, text_trees, texts_in, trees, Json, JsonTree,
};
use crate::snapshot::{
    array_field, bool_field, collect_cascade_refs, has_cascade, int_field, table_cascade_refs,
    table_cascades, text_field, text_field_or, text_or, uint_field,
};
use crate::text::{concat3, join, join_texts, same_text, texts};

verus! {

/// A table as it is shown.
#[derive(Debug, Clone, PartialEq)]
pub struct TableEntry {
    pub name: String,
    pub schema_name: Option<String>,
    pub estimated_rows: Option<i64>,
    pub has_cascade_fk: bool,
    pub cascade_targets: Vec<String>,
    pub cascade_children: Vec<CascadeChildDisplay>,
    pub cascade_children_truncated: bool,
}

/// A table that loses rows with another, as it is shown.
#[derive(Debug, Clone, PartialEq)]
pub struct CascadeChildDisplay {
    pub table_name: String,
    pub schema_name: Option<String>,
    pub estimated_rows: Option<i64>,
    pub depth: u8,
}

/// Whether `s` is the text, where there is one.
pub open spec fn same_option(s: Option<String>, t: Option<Seq<char>>) -> bool {
    match t {
        Some(x) => s is Some && s->0@ == x,
        None => s is None,
    }
}

/// The text of a member, where there is one.
fn text_option(j: &Json, key: &str) -> (r: Option<String>)
    ensures
        same_option(r, j@.at(key@).as_text()),
{
    match text_field(j, key) {
        Some(s) => Some(s.clone()),
        None => None,
    }
}

/// Whether `c` shows a dependent table.
pub open spec fn shows_child(c: CascadeChildDisplay, t: JsonTree) -> bool {
    &&& c.table_name@ == text_or(t, "table_name"@, "?"@)
    &&& same_option(c.schema_name, t.at("schema_name"@).as_text())
    &&& c.estimated_rows == t.at("estimated_rows"@).as_int()
    &&& c.depth == (match t.at("depth"@).as_uint() {
        Some(d) => d,
        None => 1u64,
    }) as u8
}

/// The dependent tables of a table.
pub open spec fn children_of(t: JsonTree) -> Seq<JsonTree> {
    match t.at("cascade_children"@).as_array() {
        Some(a) => a,
        None => seq![],
    }
}

/// The tables that a table cascades to: as given, or as its foreign keys say.
pub open spec fn targets_of(t: JsonTree) -> Seq<Seq<char>> {
    match t.at("cascade_targets"@).as_array() {
        Some(a) => texts_in(a),
        None => table_cascade_refs(t),
    }
}

/// Whether a table cascades: as given, or as its foreign keys say.
pub open spec fn cascading(t: JsonTree) -> bool {
    match t.at("has_cascade_fk"@).as_bool() {
        Some(b) => b,
        None => table_cascades(t),
    }
}

/// Whether `e` shows a table. Of a plain name nothing else is known, and its
/// dots mean nothing.
pub open spec fn shows_table(e: TableEntry, t: JsonTree) -> bool {
    match t.as_text() {
        Some(name) => {
            &&& e.name@ == name
            &&& e.schema_name is None
            &&& e.estimated_rows is None
            &&& !e.has_cascade_fk
            &&& e.cascade_targets@.len() == 0
            &&& e.cascade_children@.len() == 0
            &&& !e.cascade_children_truncated
        },
        None => {
            &&& e.name@ == text_or(t, "name"@, "?"@)
            &&& same_option(e.schema_name, t.at("schema_name"@).as_text())
            &&& e.estimated_rows == t.at("estimated_rows"@).as_int()
            &&& e.has_cascade_fk == cascading(t)
            &&& texts(e.cascade_targets@) == targets_of(t)
            &&& e.cascade_children@.len() == children_of(t).len()
            &&& forall|k: int|
                0 <= k < e.cascade_children@.len() ==> shows_child(
                    #[trigger] e.cascade_children@[k],
                    children_of(t)[k],
                )
            &&& e.cascade_children_truncated == (t.at("cascade_children_truncated"@).as_bool()
                == Some(true))
        },
    }
}

fn show_child(c: &Json) -> (r: CascadeChildDisplay)
    ensures
        shows_child(r, c@),
{
    let depth: u64 = match uint_field(c, "depth") {
        Some(d) => d,
        None => 1,
    };
    CascadeChildDisplay {
        table_name: text_field_or(c, "table_name", "?"),
        schema_name: text_option(c, "schema_name"),
        estimated_rows: int_field(c, "estimated_rows"),
        depth: #[verifier::truncate] (depth as u8),
    }
}

fn show_children(t: &Json) -> (r: Vec<CascadeChildDisplay>)
    ensures
        r@.len() == children_of(t@).len(),
        forall|k: int| 0 <= k < r@.len() ==> shows_child(#[trigger] r@[k], children_of(t@)[k]),
{
    let mut out: Vec<CascadeChildDisplay> = Vec::new();
    match array_field(t, "cascade_children") {
        Some(list) => {
            let n: usize = list.len();
            let mut i: usize = 0;
            while i < n
                invariant
                    i <= n,
                    n == list@.len(),
                    children_of(t@) == trees(list@),
                    out@.len() == i,
                    forall|k: int|
                        0 <= k < i ==> shows_child(#[trigger] out@[k], children_of(t@)[k]),
                decreases n - i,
            {
                assert(trees(list@)[i as int] == list@[i as int]@);
                out.push(show_child(&list[i]));
                i += 1;
            }
        },
        None => {},
    }
    out
}

fn show_table(t: &Json) -> (r: TableEntry)
    ensures
        shows_table(r, t@),
{
    match t.as_str() {
        Some(name) => TableEntry {
            name: name.clone(),
            schema_name: None,
            estimated_rows: None,
            has_cascade_fk: false,
            cascade_targets: Vec::new(),
            cascade_children: Vec::new(),
            cascade_children_truncated: false,
        },
        None => {
            let has_cascade_fk: bool = match bool_field(t, "has_cascade_fk") {
                Some(b) => b,
                None => has_cascade(t),
            };
            let cascade_targets: Vec<String> = match array_field(t, "cascade_targets") {
                Some(a) => collect_texts(a),
                None => collect_cascade_refs(t),
            };
            let cascade_children_truncated: bool = match bool_field(
                t,
                "cascade_children_truncated",
            ) {
                Some(b) => b,
                None => false,
            };
            TableEntry {
                name: text_field_or(t, "name", "?"),
                schema_name: text_option(t, "schema_name"),
                estimated_rows: int_field(t, "estimated_rows"),
                has_cascade_fk,
                cascade_targets,
                cascade_children: show_children(t),
                cascade_children_truncated,
            }
        },
    }
}

/// The tables that a text describes; none where there is no text or it is no
/// list.
pub open spec fn tables_in(json: Option<Seq<char>>) -> Seq<JsonTree> {
    match json {
        None => seq![],
        Some(s) => match parsed_json(s) {
            None => seq![],
            Some(doc) => match doc.as_array() {
                Some(a) => a,
                None => seq![],
            },
        },
    }
}

/// Whether `entries` show the tables that a text describes, in order.
pub open spec fn shows_tables(entries: Seq<TableEntry>, json: Option<Seq<char>>) -> bool {
    &&& entries.len() == tables_in(json).len()
    &&& forall|k: int|
        0 <= k < entries.len() ==> shows_table(#[trigger] entries[k], tables_in(json)[k])
}

/// The characters of a text, where there is one.
pub open spec fn text_in(json: Option<&str>) -> Option<Seq<char>> {
    match json {
        Some(s) => Some(s@),
        None => None,
    }
}

/// The tables that a text describes, as they are shown.
pub fn parse_tables_json(json: Option<&str>) -> (r: Vec<TableEntry>)
    ensures
        shows_tables(r@, text_in(json)),
{
    let mut out: Vec<TableEntry> = Vec::new();
    let text: &str = match json {
        None => {
            return out;
        },
        Some(s) => s,
    };
    match Json::parse(text) {
        None => {},
        Some(doc) => match doc.as_array() {
            None => {},
            Some(list) => {
                let n: usize = list.len();
                let mut i: usize = 0;
                while i < n
                    invariant
                        i <= n,
                        n == list@.len(),
                        tables_in(text_in(json)) == trees(list@),
                        out@.len() == i,
                        forall|k: int|
                            0 <= k < i ==> shows_table(
                                #[trigger] out@[k],
                                tables_in(text_in(json))[k],
                            ),
                    decreases n - i,
                {
                    assert(trees(list@)[i as int] == list@[i as int]@);
                    out.push(show_table(&list[i]));
                    i += 1;
                }
            },
        },
    }
    out
}

/// The name of a table: with its schema, unless that is `public`.
pub open spec fn display_name(e: TableEntry) -> Seq<char> {
    match e.schema_name {
        Some(s) => if s@ != "public"@ {
            s@ + "."@ + e.name@
        } else {
            e.name@
        },
        None => e.name@,
    }
}

/// The names of the tables, in order.
pub open spec fn table_names(entries: Seq<TableEntry>) -> Seq<char> {
    join(entries.map_values(|e: TableEntry| display_name(e)), ", "@)
}

/// The names of the tables, in order.
pub fn format_table_names(entries: &[TableEntry]) -> (r: String)
    ensures
        r@ == table_names(entries@),
{
    let mut names: Vec<String> = Vec::new();
    let n: usize = entries.len();
    let mut i: usize = 0;
    while i < n
        invariant
            i <= n,
            n == entries@.len(),
            names@.len() == i,
            forall|k: int| 0 <= k < i ==> (#[trigger] names@[k])@ == display_name(entries@[k]),
        decreases n - i,
    {
        let e = &entries[i];
        let name: String = match &e.schema_name {
            Some(s) => if !same_text(s.as_str(), "public") {
                concat3(s.as_str(), ".", e.name.as_str())
            } else {
                e.name.clone()
            },
            None => e.name.clone(),
        };
        names.push(name);
        i += 1;
    }
    assert(texts(names@) =~= entries@.map_values(|e: TableEntry| display_name(e)));
    join_texts(&names, ", ")
}

/// A table shown with what was derived from a snapshot and the same table shown
/// from the snapshot itself agree on whether and where it cascades, if what was
/// derived is what the snapshot says.
pub proof fn derived_form_agrees(derived: JsonTree, snapshot: JsonTree)
    requires
        snapshot.at("has_cascade_fk"@).as_bool() is None,
        snapshot.at("cascade_targets"@).as_array() is None,
        derived.at("has_cascade_fk"@).as_bool() == Some(table_cascades(snapshot)),
        derived.at("cascade_targets"@).as_array() is Some,
        texts_in(derived.at("cascade_targets"@).as_array()->0) == table_cascade_refs(snapshot),
    ensures
        cascading(derived) == cascading(snapshot),
        targets_of(derived) == targets_of(snapshot),
{
}

/// Tables given as plain names are shown as the names, joined, dots and all.
pub proof fn plain_names_are_shown_joined(
    entries: Seq<TableEntry>,
    json: Seq<char>,
    names: Seq<Seq<char>>,
)
    requires
        tables_in(Some(json)) == text_trees(names),
        shows_tables(entries, Some(json)),
    ensures
        table_names(entries) == join(names, ", "@),
{
    let shown = entries.map_values(|e: TableEntry| display_name(e));
    assert forall|k: int| 0 <= k < names.len() implies #[trigger] shown[k] == names[k] by {
        assert(text_trees(names)[k] == JsonTree::Text(names[k]));
        assert(shows_table(entries[k], text_trees(names)[k]));
    }
    assert(shown =~= names);
}

/// The text as which a list of names is stored. However the tables that it
/// describes are read, they are shown as the names, joined.
pub fn names_json(names: &Vec<String>) -> (r: String)
    ensures
        r@ == rendered_json(JsonTree::Array(text_trees(texts(names@)))),
        tables_in(Some(r@)) == text_trees(texts(names@)),
        forall|entries: Seq<TableEntry>| #[trigger]
            shows_tables(entries, Some(r@)) ==> table_names(entries) == join(texts(names@), ", "@),
{
    let r = Json::text_list(names).render();
    proof {
        let list = text_trees(texts(names@));
        assert forall|i: int| 0 <= i < list.len() implies (#[trigger] list[i]) is Text by {
            assert(list[i] == JsonTree::Text(texts(names@)[i]));
        }
        assert forall|entries: Seq<TableEntry>| #[trigger]
            shows_tables(entries, Some(r@)) implies table_names(entries) == join(
            texts(names@),
            ", "@,
        ) by {
            plain_names_are_shown_joined(entries, r@, texts(names@));
        }
    }
    r
}

/// A plain name is shown as it is and nothing is known of it; of a document its
/// name, schema and rows are shown.
pub proof fn tables_are_shown_as_described(
    json: Option<&str>,
    r: Vec<TableEntry>,
    tables: Seq<JsonTree>,
    k: int,
)
    requires
        call_ensures(parse_tables_json, (json,), r),
        json is Some,
        parsed_json(json->0@) is Some,
        parsed_json(json->0@)->0.as_array() == Some(tables),
        0 <= k < tables.len(),
    ensures
        r@.len() == tables.len(),
        tables[k].as_text() matches Some(name) ==> r@[k].name@ == name && r@[k].schema_name is None
            && r@[k].estimated_rows is None && !r@[k].has_cascade_fk,
        tables[k].as_text() is None ==> {
            &&& tables[k].at("name"@).as_text() matches Some(name) ==> r@[k].name@ == name
            &&& tables[k].at("name"@).as_text() is None ==> r@[k].name@ == "?"@
            &&& tables[k].at("schema_name"@).as_text() matches Some(s) ==> r@[k].schema_name is Some
                && r@[k].schema_name->0@ == s
            &&& tables[k].at("schema_name"@).as_text() is None ==> r@[k].schema_name is None
            &&& r@[k].estimated_rows == tables[k].at("estimated_rows"@).as_int()
            &&& r@[k].cascade_children_truncated <==> tables[k].at(
                "cascade_children_truncated"@,
            ).as_bool() == Some(true)
        },
{
    assert(tables_in(text_in(json)) == tables);
    assert(shows_table(r@[k], tables[k]));
}

/// Whether a table cascades is what its document says, or else what its foreign
/// keys do.
pub proof fn shown_tables_cascade_as_described(
    json: Option<&str>,
    r: Vec<TableEntry>,
    tables: Seq<JsonTree>,
    k: int,
)
    requires
        call_ensures(parse_tables_json, (json,), r),
        json is Some,
        parsed_json(json->0@) is Some,
        parsed_json(json->0@)->0.as_array() == Some(tables),
        0 <= k < tables.len(),
        tables[k].as_text() is None,
    ensures
        tables[k].at("has_cascade_fk"@).as_bool() matches Some(b) ==> r@[k].has_cascade_fk == b,
        tables[k].at("has_cascade_fk"@).as_bool() is None ==> (r@[k].has_cascade_fk
            <==> tables[k].at("constraints"@).as_array() is Some && exists|c: int|
            0 <= c < tables[k].at("constraints"@).as_array()->0.len() && #[trigger] tables[k].at(
                "constraints"@,
            ).as_array()->0[c].at("on_delete"@).as_text() == Some("CASCADE"@)),
        tables[k].at("cascade_targets"@).as_array() matches Some(a) ==> texts(
            r@[k].cascade_targets@,
        ) == texts_in(a),
{
    assert(tables_in(text_in(json)) == tables);
    assert(shows_table(r@[k], tables[k]));
    if tables[k].at("constraints"@).as_array() is Some {
        let cs = tables[k].at("constraints"@).as_array()->0;
        if crate::snapshot::any_cascade(cs) {
            let c = choose|c: int|
                0 <= c < cs.len() && crate::snapshot::cascades(#[trigger] cs[c]);
            assert(cs[c].at("on_delete"@).as_text() == Some("CASCADE"@));
        }
        if exists|c: int|
            0 <= c < cs.len() && #[trigger] cs[c].at("on_delete"@).as_text() == Some(
                "CASCADE"@,
            ) {
            let c = choose|c: int|
                0 <= c < cs.len() && #[trigger] cs[c].at("on_delete"@).as_text() == Some(
                    "CASCADE"@,
                );
            assert(crate::snapshot::cascades(cs[c]));
        }
    }
}

/// A dependent table is shown with its name, rows and distance.
pub proof fn dependent_tables_are_shown(
    json: Option<&str>,
    r: Vec<TableEntry>,
    tables: Seq<JsonTree>,
    children: Seq<JsonTree>,
    k: int,
    c: int,
)
    requires
        call_ensures(parse_tables_json, (json,), r),
        json is Some,
        parsed_json(json->0@) is Some,
        parsed_json(json->0@)->0.as_array() == Some(tables),
        0 <= k < tables.len(),
        tables[k].as_text() is None,
        tables[k].at("cascade_children"@).as_array() == Some(children),
        0 <= c < children.len(),
    ensures
        r@[k].cascade_children@.len() == children.len(),
        children[c].at("table_name"@).as_text() matches Some(n)
            ==> r@[k].cascade_children@[c].table_name@ == n,
        children[c].at("table_name"@).as_text() is None
            ==> r@[k].cascade_children@[c].table_name@ == "?"@,
        r@[k].cascade_children@[c].estimated_rows == children[c].at("estimated_rows"@).as_int(),
        children[c].at("depth"@).as_uint() matches Some(d) ==> d <= 255
            ==> r@[k].cascade_children@[c].depth == d,
        children[c].at("depth"@).as_uint() is None ==> r@[k].cascade_children@[c].depth == 1,
{
    assert(tables_in(text_in(json)) == tables);
    assert(shows_table(r@[k], tables[k]));
    assert(shows_child(r@[k].cascade_children@[c], children[c]));
}

/// Where there is no text, or none that is a list, no table is shown.
pub proof fn no_list_no_tables(json: Option<&str>, r: Vec<TableEntry>)
    requires
        call_ensures(parse_tables_json, (json,), r),
        json is None || parsed_json(json->0@) is None || parsed_json(
            json->0@,
        )->0.as_array() is None,
    ensures
        r@.len() == 0,
{
}

/// A single table is named with its schema, unless that is `public` or not
/// known; several are separated by commas.
pub proof fn tables_are_named_with_their_schema(entries: &[TableEntry], r: String)
    requires
        call_ensures(format_table_names, (entries,), r),
    ensures
        entries@.len() == 0 ==> r@.len() == 0,
        entries@.len() == 1 ==> {
            let e = entries@[0];
            &&& e.schema_name is None ==> r@ == e.name@
            &&& e.schema_name matches Some(s) ==> (s@ == "public"@ ==> r@ == e.name@) && (s@
                != "public"@ ==> r@ == s@ + "."@ + e.name@)
        },
{
    let names = entries@.map_values(|e: TableEntry| display_name(e));
    assert(names.len() == entries@.len());
    if entries@.len() == 1 {
        assert(names[0] == display_name(entries@[0]));
        assert(names.last() == names[0]);
        assert(names.drop_last() =~= Seq::<Seq<char>>::empty());
        reveal_with_fuel(join, 2);
    }
}

} // verus!
