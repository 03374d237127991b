//! Reading the tables of a schema snapshot: foreign keys that cascade.

use vstd::prelude::*;

use crate::json::{trees, Json, JsonTree};
use crate::text::{same_text, texts};

verus! {

/// Whether a foreign key deletes its rows with the referenced row.
pub open spec fn cascades(constraint: JsonTree) -> bool {
    constraint.at("on_delete"@).as_text() == Some("CASCADE"@)
}

/// Whether a foreign key deletes its rows with the referenced row.
pub fn is_cascade(constraint: &Json) -> (r: bool)
    ensures
        r == cascades(constraint@),
{
    match text_field(constraint, "on_delete") {
        Some(s) => same_text(s.as_str(), "CASCADE"),
        None => false,
    }
}

/// The text of the member `key`.
pub fn text_field<'a>(j: &'a Json, key: &str) -> (r: Option<&'a String>)
    ensures
        match r {
            Some(s) => j@.at(key@).as_text() == Some(s@),
            None => j@.at(key@).as_text() is None,
        },
{
    match j.get(key) {
        Some(v) => v.as_str(),
        None => None,
    }
}

/// The elements of the member `key`.
pub fn array_field<'a>(j: &'a Json, key: &str) -> (r: Option<&'a Vec<Json>>)
    ensures
        match r {
            Some(v) => j@.at(key@).as_array() == Some(trees(v@)),
            None => j@.at(key@).as_array() is None,
        },
{
    match j.get(key) {
        Some(v) => v.as_array(),
        None => None,
    }
}

/// The integer of the member `key`.
pub fn int_field(j: &Json, key: &str) -> (r: Option<i64>)
    ensures
        r == j@.at(key@).as_int(),
{
    match j.get(key) {
        Some(v) => v.as_i64(),
        None => None,
    }
}

/// The unsigned integer of the member `key`.
pub fn uint_field(j: &Json, key: &str) -> (r: Option<u64>)
    ensures
        r == j@.at(key@).as_uint(),
{
    match j.get(key) {
        Some(v) => v.as_u64(),
        None => None,
    }
}

/// The boolean of the member `key`.
pub fn bool_field(j: &Json, key: &str) -> (r: Option<bool>)
    ensures
        r == j@.at(key@).as_bool(),
{
    match j.get(key) {
        Some(v) => v.as_bool(),
        None => None,
    }
}

/// The text of the member `key`, or `default`.
pub open spec fn text_or(j: JsonTree, key: Seq<char>, default: Seq<char>) -> Seq<char> {
    match j.at(key).as_text() {
        Some(s) => s,
        None => default,
    }
}

/// The text of the member `key`, or `default`.
pub fn text_field_or(j: &Json, key: &str, default: &str) -> (r: String)
    ensures
        r@ == text_or(j@, key@, default@),
{
    match text_field(j, key) {
        Some(s) => s.clone(),
        None => default.to_string(),
    }
}

/// Whether some foreign key of the list cascades.
pub open spec fn any_cascade(constraints: Seq<JsonTree>) -> bool {
    exists|i: int| 0 <= i < constraints.len() && cascades(#[trigger] constraints[i])
}

/// The tables that the cascading foreign keys of the list refer to, in order.
pub open spec fn cascade_refs(constraints: Seq<JsonTree>) -> Seq<Seq<char>>
    decreases constraints.len(),
{
    if constraints.len() == 0 {
        Seq::empty()
    } else {
        let c = constraints.last();
        let rest = cascade_refs(constraints.drop_last());
        match c.at("referenced_table"@).as_text() {
            Some(t) => if cascades(c) {
                rest.push(t)
            } else {
                rest
            },
            None => rest,
        }
    }
}

/// Whether the foreign keys of a table cascade.
pub open spec fn table_cascades(table: JsonTree) -> bool {
    match table.at("constraints"@).as_array() {
        Some(cs) => any_cascade(cs),
        None => false,
    }
}

/// The tables that the cascading foreign keys of a table refer to.
pub open spec fn table_cascade_refs(table: JsonTree) -> Seq<Seq<char>> {
    match table.at("constraints"@).as_array() {
        Some(cs) => cascade_refs(cs),
        None => Seq::empty(),
    }
}

/// Whether the foreign keys of a table cascade.
pub fn has_cascade(table: &Json) -> (r: bool)
    ensures
        r == table_cascades(table@),
{
    match array_field(table, "constraints") {
        Some(cs) => {
            let n: usize = cs.len();
            let mut i: usize = 0;
            while i < n
                invariant
                    i <= n,
                    n == cs@.len(),
                    table@.at("constraints"@).as_array() == Some(trees(cs@)),
                    forall|k: int| 0 <= k < i ==> !cascades(#[trigger] trees(cs@)[k]),
                decreases n - i,
            {
                assert(trees(cs@)[i as int] == cs@[i as int]@);
                if is_cascade(&cs[i]) {
                    assert(cascades(trees(cs@)[i as int]));
                    return true;
                }
                i += 1;
            }
            false
        },
        None => false,
    }
}

/// The tables that the cascading foreign keys of a table refer to, in order.
pub fn collect_cascade_refs(table: &Json) -> (r: Vec<String>)
    ensures
        texts(r@) == table_cascade_refs(table@),
{
    let mut out: Vec<String> = Vec::new();
    match array_field(table, "constraints") {
        Some(cs) => {
            let ghost all = trees(cs@);
            let n: usize = cs.len();
            let mut i: usize = 0;
            assert(texts(out@) =~= cascade_refs(all.take(0)));
            while i < n
                invariant
                    i <= n,
                    n == cs@.len(),
                    all == trees(cs@),
                    texts(out@) == cascade_refs(all.take(i as int)),
                decreases n - i,
            {
                proof {
                    assert(all.take(i + 1).drop_last() =~= all.take(i as int));
                    assert(all.take(i + 1).last() == cs@[i as int]@);
                }
                let ghost before = texts(out@);
                if is_cascade(&cs[i]) {
                    match text_field(&cs[i], "referenced_table") {
                        Some(s) => {
                            out.push(s.clone());
                            assert(texts(out@) =~= before.push(s@));
                        },
                        None => {},
                    }
                }
                i += 1;
            }
            assert(all.take(n as int) =~= all);
        },
        None => {
            assert(texts(out@) =~= Seq::empty());
        },
    }
    out
}

/// A table cascades exactly if one of its constraints deletes with the row that
/// it refers to.
pub proof fn tables_cascade_by_a_constraint(table: Json, r: bool)
    requires
        call_ensures(has_cascade, (&table,), r),
    ensures
        r <==> table@.at("constraints"@).as_array() is Some && exists|k: int|
            0 <= k < table@.at("constraints"@).as_array()->0.len() && #[trigger] table@.at(
                "constraints"@,
            ).as_array()->0[k].at("on_delete"@).as_text() == Some("CASCADE"@),
{
    if table@.at("constraints"@).as_array() is Some {
        let cs = table@.at("constraints"@).as_array()->0;
        if any_cascade(cs) {
            let k = choose|k: int| 0 <= k < cs.len() && cascades(#[trigger] cs[k]);
            assert(cs[k].at("on_delete"@).as_text() == Some("CASCADE"@));
        }
        if exists|k: int|
            0 <= k < cs.len() && #[trigger] cs[k].at("on_delete"@).as_text() == Some(
                "CASCADE"@,
            ) {
            let k = choose|k: int|
                0 <= k < cs.len() && #[trigger] cs[k].at("on_delete"@).as_text() == Some(
                    "CASCADE"@,
                );
            assert(cascades(cs[k]));
        }
    }
}

proof fn lemma_cascade_refs(cs: Seq<JsonTree>, t: Seq<char>)
    ensures
        cascade_refs(cs).contains(t) <==> exists|k: int|
            0 <= k < cs.len() && (#[trigger] cs[k]).at("on_delete"@).as_text() == Some("CASCADE"@)
                && cs[k].at("referenced_table"@).as_text() == Some(t),
    decreases cs.len(),
{
    if cs.len() > 0 {
        let before = cs.drop_last();
        let rest = cascade_refs(before);
        let all = cascade_refs(cs);
        lemma_cascade_refs(before, t);
        if all.contains(t) {
            let i = choose|i: int| 0 <= i < all.len() && all[i] == t;
            if i < rest.len() {
                assert(rest[i] == t);
                let k = choose|k: int|
                    0 <= k < before.len() && (#[trigger] before[k]).at("on_delete"@).as_text()
                        == Some("CASCADE"@) && before[k].at("referenced_table"@).as_text()
                        == Some(t);
                assert(cs[k] == before[k]);
            } else {
                assert(cs[cs.len() - 1].at("referenced_table"@).as_text() == Some(t));
            }
        }
        if exists|k: int|
            0 <= k < cs.len() && (#[trigger] cs[k]).at("on_delete"@).as_text() == Some("CASCADE"@)
                && cs[k].at("referenced_table"@).as_text() == Some(t) {
            let k = choose|k: int|
                0 <= k < cs.len() && (#[trigger] cs[k]).at("on_delete"@).as_text() == Some(
                    "CASCADE"@,
                ) && cs[k].at("referenced_table"@).as_text() == Some(t);
            if k < before.len() {
                assert(before[k] == cs[k]);
                let i = choose|i: int| 0 <= i < rest.len() && rest[i] == t;
                assert(all[i] == t);
            } else {
                assert(all[all.len() - 1] == t);
            }
        }
    }
}

/// The tables that a table's deletions come from are those that its cascading
/// constraints refer to, and no others.
pub proof fn cascading_constraints_name_their_tables(table: Json, r: Vec<String>, t: Seq<char>)
    requires
        call_ensures(collect_cascade_refs, (&table,), r),
    ensures
        texts(r@).contains(t) <==> table@.at("constraints"@).as_array() is Some && exists|k: int|
            0 <= k < table@.at("constraints"@).as_array()->0.len() && (#[trigger] table@.at(
                "constraints"@,
            ).as_array()->0[k]).at("on_delete"@).as_text() == Some("CASCADE"@) && table@.at(
                "constraints"@,
            ).as_array()->0[k].at("referenced_table"@).as_text() == Some(t),
{
    if table@.at("constraints"@).as_array() is Some {
        lemma_cascade_refs(table@.at("constraints"@).as_array()->0, t);
    }
}

} // verus!
