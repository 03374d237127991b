//! JSON documents: reading, building and rendering.
//!
//! `serde_json` parses and renders; what it hands over is opened one level at
//! a time into `Json`, a plain tree that the rest of the library works on.

use vstd::prelude::*;

use crate::text::{decimal, same_text};

verus! {

/// A number of a document: its value where it is an integer in range, the text
/// of its value without decimals, and its JSON notation.
pub ghost struct NumberView {
    pub int: Option<i64>,
    pub uint: Option<u64>,
    pub rounded: Seq<char>,
    pub notation: Seq<char>,
}

/// A JSON document.
#[verifier::ext_equal]
pub ghost enum JsonTree {
    Null,
    Bool(bool),
    Number(NumberView),
    Text(Seq<char>),
    Array(Seq<JsonTree>),
    Object(Map<Seq<char>, JsonTree>),
}

impl JsonTree {
    /// The member `key` of an object.
    pub open spec fn field(self, key: Seq<char>) -> Option<JsonTree> {
        match self {
            JsonTree::Object(m) => if m.contains_key(key) {
                Some(m[key])
            } else {
                None
            },
            _ => None,
        }
    }

    /// The member `key` of an object, `Null` where there is none.
    pub open spec fn at(self, key: Seq<char>) -> JsonTree {
        match self.field(key) {
            Some(t) => t,
            None => JsonTree::Null,
        }
    }

    /// The element `i` of an array, `Null` where there is none.
    pub open spec fn item(self, i: int) -> JsonTree {
        match self {
            JsonTree::Array(s) => if 0 <= i < s.len() {
                s[i]
            } else {
                JsonTree::Null
            },
            _ => JsonTree::Null,
        }
    }

    /// The characters of a text.
    pub open spec fn as_text(self) -> Option<Seq<char>> {
        match self {
            JsonTree::Text(s) => Some(s),
            _ => None,
        }
    }

    /// The elements of an array.
    pub open spec fn as_array(self) -> Option<Seq<JsonTree>> {
        match self {
            JsonTree::Array(s) => Some(s),
            _ => None,
        }
    }

    /// The value of a boolean.
    pub open spec fn as_bool(self) -> Option<bool> {
        match self {
            JsonTree::Bool(b) => Some(b),
            _ => None,
        }
    }

    /// The value of an integer that fits `i64`.
    pub open spec fn as_int(self) -> Option<i64> {
        match self {
            JsonTree::Number(n) => n.int,
            _ => None,
        }
    }

    /// The value of an integer that fits `u64`.
    pub open spec fn as_uint(self) -> Option<u64> {
        match self {
            JsonTree::Number(n) => n.uint,
            _ => None,
        }
    }

    /// The value of a number without decimals, as text.
    pub open spec fn as_rounded(self) -> Option<Seq<char>> {
        match self {
            JsonTree::Number(n) => Some(n.rounded),
            _ => None,
        }
    }
}

/// A value of `serde_json`.
#[verifier::external_type_specification]
#[verifier::external_body]
pub struct ExValue(serde_json::Value);

/// The document that a value of `serde_json` holds.
pub uninterp spec fn json_tree(v: serde_json::Value) -> JsonTree;

/// The document that a text denotes, if it is JSON.
pub uninterp spec fn parsed_json(text: Seq<char>) -> Option<JsonTree>;

/// What is said of a text that is not JSON.
pub uninterp spec fn json_error(text: Seq<char>) -> Seq<char>;

/// The compact JSON text of a document.
pub uninterp spec fn rendered_json(t: JsonTree) -> Seq<char>;

/// One level of a value: a scalar, or the values below it.
enum Node {
    Null,
    Bool(bool),
    Number(serde_json::Value),
    Text(String),
    Array(Vec<serde_json::Value>),
    Object(Vec<(String, serde_json::Value)>),
}

/// The documents of a list of values.
pub open spec fn value_trees(s: Seq<serde_json::Value>) -> Seq<JsonTree> {
    s.map_values(|v: serde_json::Value| json_tree(v))
}

/// The members of an object written as a list; a later entry of the same key
/// replaces an earlier one.
pub open spec fn value_members(s: Seq<(String, serde_json::Value)>) -> Map<Seq<char>, JsonTree>
    decreases s.len(),
{
    if s.len() == 0 {
        Map::empty()
    } else {
        value_members(s.drop_last()).insert(s.last().0@, json_tree(s.last().1))
    }
}

/// Whether no two entries have the same key.
pub open spec fn distinct_keys(s: Seq<(String, serde_json::Value)>) -> bool {
    forall|i: int, j: int| 0 <= i < j < s.len() ==> (#[trigger] s[i]).0@ != (#[trigger] s[j]).0@
}

/// An object whose keys are distinct holds the document of each entry.
proof fn lemma_member(s: Seq<(String, serde_json::Value)>, i: int)
    requires
        distinct_keys(s),
        0 <= i < s.len(),
    ensures
        value_members(s).contains_key(s[i].0@),
        value_members(s)[s[i].0@] == json_tree(s[i].1),
    decreases s.len(),
{
    if i < s.len() - 1 {
        assert(s.drop_last()[i] == s[i]);
        lemma_member(s.drop_last(), i);
        assert(s[i].0@ != s[s.len() - 1].0@);
    }
}

/// An object has finitely many members.
proof fn lemma_members_finite(s: Seq<(String, serde_json::Value)>)
    ensures
        value_members(s).dom().finite(),
    decreases s.len(),
{
    if s.len() > 0 {
        lemma_members_finite(s.drop_last());
    }
}

/// An object has no member whose key no entry has.
proof fn lemma_no_member(s: Seq<(String, serde_json::Value)>, key: Seq<char>)
    requires
        forall|i: int| 0 <= i < s.len() ==> (#[trigger] s[i]).0@ != key,
    ensures
        !value_members(s).contains_key(key),
    decreases s.len(),
{
    if s.len() > 0 {
        assert forall|i: int| 0 <= i < s.drop_last().len() implies (#[trigger] s.drop_last()[i]).0@
            != key by {
            assert(s.drop_last()[i] == s[i]);
        }
        lemma_no_member(s.drop_last(), key);
        assert(s[s.len() - 1].0@ != key);
    }
}

/// Without one of its entries an object whose keys are distinct has one member
/// less.
proof fn lemma_entry_removed(s: Seq<(String, serde_json::Value)>, i: int)
    requires
        distinct_keys(s),
        0 <= i < s.len(),
    ensures
        value_members(s.remove(i)) == value_members(s).remove(s[i].0@),
    decreases s.len(),
{
    let rest = s.drop_last();
    if i == s.len() - 1 {
        assert(s.remove(i) =~= rest);
        assert forall|k: int| 0 <= k < rest.len() implies (#[trigger] rest[k]).0@ != s[i].0@ by {
            assert(rest[k] == s[k]);
        }
        lemma_no_member(rest, s[i].0@);
        assert(value_members(rest).insert(s[i].0@, json_tree(s[i].1)).remove(s[i].0@)
            =~= value_members(rest));
    } else {
        lemma_entry_removed(rest, i);
        assert(rest[i] == s[i]);
        assert(s.remove(i).drop_last() =~= rest.remove(i));
        assert(s.remove(i).last() == s.last());
        assert(s[i].0@ != s[s.len() - 1].0@);
        assert(value_members(s.remove(i)) =~= value_members(s).remove(s[i].0@));
    }
}

/// Takes out the entry of `key`, where there is one.
fn drop_key(s: &mut Vec<(String, serde_json::Value)>, key: &str)
    requires
        distinct_keys(old(s)@),
    ensures
        distinct_keys(final(s)@),
        forall|i: int| 0 <= i < final(s)@.len() ==> (#[trigger] final(s)@[i]).0@ != key@,
        value_members(final(s)@) == value_members(old(s)@).remove(key@),
{
    let ghost all = s@;
    let n: usize = s.len();
    let mut i: usize = 0;
    while i < n
        invariant
            i <= n,
            n == all.len(),
            s@ == all,
            all == old(s)@,
            distinct_keys(all),
            forall|k: int| 0 <= k < i ==> (#[trigger] all[k]).0@ != key@,
        decreases n - i,
    {
        if same_text(s[i].0.as_str(), key) {
            s.remove(i);
            proof {
                lemma_entry_removed(all, i as int);
                assert(s@ =~= all.remove(i as int));
                assert(all[i as int].0@ == key@);
                assert forall|k: int| 0 <= k < s@.len() implies (#[trigger] s@[k]).0@ != key@ by {
                    if k >= i {
                        assert(s@[k] == all[k + 1]);
                    } else {
                        assert(s@[k] == all[k]);
                    }
                }
            }
            return;
        }
        i += 1;
    }
    proof {
        lemma_no_member(all, key@);
        assert(value_members(all).remove(key@) =~= value_members(all));
    }
}

spec fn node_tree(n: Node) -> JsonTree {
    match n {
        Node::Null => JsonTree::Null,
        Node::Bool(b) => JsonTree::Bool(b),
        Node::Number(v) => json_tree(v),
        Node::Text(s) => JsonTree::Text(s@),
        Node::Array(a) => JsonTree::Array(value_trees(a@)),
        Node::Object(m) => JsonTree::Object(value_members(m@)),
    }
}

/// `serde_json::from_str` into a `Value`: whether a text is JSON, which document
/// it denotes, and the message of the error otherwise, depend on the text alone.
#[verifier::external_body]
fn parse_value(text: &str) -> (r: Result<serde_json::Value, String>)
    ensures
        match r {
            Ok(v) => parsed_json(text@) == Some(json_tree(v)),
            Err(e) => parsed_json(text@) is None && e@ == json_error(text@),
        },
{
    serde_json::from_str::<serde_json::Value>(text).map_err(|e| e.to_string())
}

/// The variants of `serde_json::Value`: each value is exactly one of them, and
/// its document is made of the documents of the values below it.
#[verifier::external_body]
fn open_value(v: serde_json::Value) -> (r: Node)
    ensures
        json_tree(v) == node_tree(r),
        r matches Node::Number(n) ==> json_tree(n) is Number,
        r matches Node::Object(m) ==> distinct_keys(m@),
{
    match v {
        serde_json::Value::Null => Node::Null,
        serde_json::Value::Bool(b) => Node::Bool(b),
        serde_json::Value::Number(n) => Node::Number(serde_json::Value::Number(n)),
        serde_json::Value::String(s) => Node::Text(s),
        serde_json::Value::Array(a) => Node::Array(a),
        serde_json::Value::Object(m) => Node::Object(m.into_iter().collect()),
    }
}

/// The constructors of `serde_json::Value`: a value made from parts holds the
/// document made of their documents. The keys of an object are distinct.
#[verifier::external_body]
fn close_value(n: Node) -> (r: serde_json::Value)
    requires
        n matches Node::Object(m) ==> distinct_keys(m@),
    ensures
        json_tree(r) == node_tree(n),
{
    match n {
        Node::Null => serde_json::Value::Null,
        Node::Bool(b) => serde_json::Value::Bool(b),
        Node::Number(v) => v,
        Node::Text(s) => serde_json::Value::String(s),
        Node::Array(a) => serde_json::Value::Array(a),
        Node::Object(m) => serde_json::Value::Object(m.into_iter().collect()),
    }
}

/// Whether a document is a list of texts.
pub open spec fn is_text_list(t: JsonTree) -> bool {
    t matches JsonTree::Array(a) && forall|i: int|
        0 <= i < a.len() ==> (#[trigger] a[i]) is Text
}

/// `serde_json::Value::to_string`: the text depends on the document alone. The
/// text of a list of texts is JSON and denotes the list: what is escaped in a
/// string when it is written is put back when it is read.
#[verifier::external_body]
fn value_text(v: &serde_json::Value) -> (r: String)
    ensures
        r@ == rendered_json(json_tree(*v)),
        is_text_list(json_tree(*v)) ==> parsed_json(r@) == Some(json_tree(*v)),
{
    v.to_string()
}

/// `serde_json::Value::as_i64`: the value of an integer that fits `i64`.
#[verifier::external_body]
fn value_int(v: &serde_json::Value) -> (r: Option<i64>)
    ensures
        r == json_tree(*v).as_int(),
{
    v.as_i64()
}

/// `serde_json::Value::as_u64`: the value of an integer that fits `u64`.
#[verifier::external_body]
fn value_uint(v: &serde_json::Value) -> (r: Option<u64>)
    ensures
        r == json_tree(*v).as_uint(),
{
    v.as_u64()
}

/// `serde_json::Value::as_f64` written without decimals: every number has such
/// a text, and nothing else has.
#[verifier::external_body]
fn value_rounded(v: &serde_json::Value) -> (r: Option<String>)
    ensures
        match r {
            Some(s) => json_tree(*v).as_rounded() == Some(s@),
            None => json_tree(*v).as_rounded() is None,
        },
{
    v.as_f64().map(|f| format!("{:.0}", f))
}

/// The number that a `u64` becomes in a document.
pub uninterp spec fn uint_number(n: u64) -> NumberView;

/// The number that an `i64` becomes in a document.
pub uninterp spec fn int_number(n: i64) -> NumberView;

/// `serde_json::Value` from a `u64`: an integer of that value and no other,
/// written in decimal.
#[verifier::external_body]
fn value_of_uint(n: u64) -> (r: serde_json::Value)
    ensures
        json_tree(r) == JsonTree::Number(uint_number(n)),
        json_tree(r).as_uint() == Some(n),
        json_tree(r).as_int() == (if n <= i64::MAX {
            Some(n as i64)
        } else {
            None
        }),
        json_tree(r)->Number_0.notation == decimal(n as nat),
{
    serde_json::Value::from(n)
}

/// `serde_json::Value` from an `i64`: an integer of that value and no other.
#[verifier::external_body]
fn value_of_int(n: i64) -> (r: serde_json::Value)
    ensures
        json_tree(r) == JsonTree::Number(int_number(n)),
        json_tree(r).as_int() == Some(n),
        json_tree(r).as_uint() == (if n >= 0 {
            Some(n as u64)
        } else {
            None
        }),
{
    serde_json::Value::from(n)
}

/// `serde_json::Value::clone`: the copy holds the same document.
#[verifier::external_body]
fn value_copy(v: &serde_json::Value) -> (r: serde_json::Value)
    ensures
        json_tree(r) == json_tree(*v),
{
    v.clone()
}

/// A number of a document.
pub struct JsonNumber {
    value: serde_json::Value,
}

impl JsonNumber {
    #[verifier::type_invariant]
    spec fn holds_number(self) -> bool {
        json_tree(self.value) is Number
    }
}

impl View for JsonNumber {
    type V = NumberView;

    closed spec fn view(&self) -> NumberView {
        json_tree(self.value)->Number_0
    }
}

/// A JSON document as a plain tree.
pub enum Json {
    Null,
    Bool(bool),
    Number(JsonNumber),
    Text(String),
    Array(Vec<Json>),
    Object(Vec<(String, Json)>),
}

/// The documents of a list of trees.
pub open spec fn trees(s: Seq<Json>) -> Seq<JsonTree>
    decreases s,
{
    Seq::new(
        s.len(),
        |i: int|
            if 0 <= i < s.len() {
                s[i]@
            } else {
                JsonTree::Null
            },
    )
}

/// The members of an object written as a list; a later entry of the same key
/// replaces an earlier one.
pub open spec fn members(s: Seq<(String, Json)>) -> Map<Seq<char>, JsonTree>
    decreases s,
{
    if s.len() == 0 {
        Map::empty()
    } else {
        members(s.drop_last()).insert(s.last().0@, s.last().1@)
    }
}

impl View for Json {
    type V = JsonTree;

    open spec fn view(&self) -> JsonTree
        decreases self,
    {
        match self {
            Json::Null => JsonTree::Null,
            Json::Bool(b) => JsonTree::Bool(*b),
            Json::Number(n) => JsonTree::Number(n@),
            Json::Text(s) => JsonTree::Text(s@),
            Json::Array(v) => JsonTree::Array(trees(v@)),
            Json::Object(v) => JsonTree::Object(members(v@)),
        }
    }
}

/// A tree with the document that `v` holds.
fn tree_of_value(v: serde_json::Value) -> (r: Json)
    ensures
        r@ == json_tree(v),
    decreases json_tree(v),
{
    let ghost doc = json_tree(v);
    match open_value(v) {
        Node::Null => Json::Null,
        Node::Bool(b) => Json::Bool(b),
        Node::Number(n) => Json::Number(JsonNumber { value: n }),
        Node::Text(s) => Json::Text(s),
        Node::Array(a) => {
            let ghost all = a@;
            let mut rest = a;
            let mut out: Vec<Json> = Vec::new();
            let n: usize = rest.len();
            let mut i: usize = 0;
            assert(rest@ =~= all.skip(0));
            while i < n
                invariant
                    i <= n,
                    n == all.len(),
                    rest@ == all.skip(i as int),
                    doc == json_tree(v),
                    doc == JsonTree::Array(value_trees(all)),
                    out@.len() == i,
                    forall|k: int| 0 <= k < i ==> (#[trigger] out@[k])@ == json_tree(all[k]),
                decreases n - i,
            {
                let x = rest.remove(0);
                proof {
                    assert(json_tree(x) == value_trees(all)[i as int]);
                    assert(decreases_to!(doc => doc->Array_0));
                    assert(decreases_to!(doc->Array_0 => doc->Array_0[i as int]));
                }
                out.push(tree_of_value(x));
                i += 1;
                assert(rest@ =~= all.skip(i as int));
            }
            assert(trees(out@) =~= value_trees(all));
            Json::Array(out)
        },
        Node::Object(m) => {
            let ghost all = m@;
            let mut rest = m;
            let mut out: Vec<(String, Json)> = Vec::new();
            let n: usize = rest.len();
            let mut i: usize = 0;
            assert(rest@ =~= all.skip(0));
            while i < n
                invariant
                    i <= n,
                    n == all.len(),
                    rest@ == all.skip(i as int),
                    distinct_keys(all),
                    doc == json_tree(v),
                    doc == JsonTree::Object(value_members(all)),
                    members(out@) == value_members(all.take(i as int)),
                decreases n - i,
            {
                let (k, x) = rest.remove(0);
                proof {
                    assert((k, x) == all[i as int]);
                    lemma_member(all, i as int);
                    lemma_members_finite(all);
                    assert(decreases_to!(doc => doc->Object_0));
                    broadcast use vstd::map::axiom_map_index_decreases_finite;
                    assert(decreases_to!(doc->Object_0 => doc->Object_0[k@]));
                }
                let j = tree_of_value(x);
                let ghost before = out@;
                out.push((k, j));
                proof {
                    assert(out@.drop_last() =~= before);
                    assert(all.take(i + 1).drop_last() =~= all.take(i as int));
                    assert(all.take(i + 1).last() == all[i as int]);
                }
                i += 1;
                assert(rest@ =~= all.skip(i as int));
            }
            assert(all.take(n as int) =~= all);
            Json::Object(out)
        },
    }
}

/// The value of a tree.
fn value_of_tree(j: Json) -> (r: serde_json::Value)
    ensures
        json_tree(r) == j@,
    decreases j,
{
    match j {
        Json::Null => close_value(Node::Null),
        Json::Bool(b) => close_value(Node::Bool(b)),
        Json::Number(n) => {
            proof {
                use_type_invariant(&n);
            }
            n.value
        },
        Json::Text(s) => close_value(Node::Text(s)),
        Json::Array(v) => {
            let ghost all = v@;
            let mut rest = v;
            let mut out: Vec<serde_json::Value> = Vec::new();
            let n: usize = rest.len();
            let mut i: usize = 0;
            assert(rest@ =~= all.skip(0));
            while i < n
                invariant
                    i <= n,
                    n == all.len(),
                    rest@ == all.skip(i as int),
                    decreases_to!(j => all),
                    out@.len() == i,
                    forall|k: int| 0 <= k < i ==> json_tree(#[trigger] out@[k]) == all[k]@,
                decreases n - i,
            {
                let x = rest.remove(0);
                assert(decreases_to!(all => all[i as int]));
                out.push(value_of_tree(x));
                i += 1;
                assert(rest@ =~= all.skip(i as int));
            }
            assert(value_trees(out@) =~= trees(all));
            close_value(Node::Array(out))
        },
        Json::Object(m) => {
            let ghost all = m@;
            let mut rest = m;
            let mut out: Vec<(String, serde_json::Value)> = Vec::new();
            let n: usize = rest.len();
            let mut i: usize = 0;
            assert(rest@ =~= all.skip(0));
            while i < n
                invariant
                    i <= n,
                    n == all.len(),
                    rest@ == all.skip(i as int),
                    decreases_to!(j => all),
                    distinct_keys(out@),
                    value_members(out@) == members(all.take(i as int)),
                decreases n - i,
            {
                let (k, x) = rest.remove(0);
                assert(decreases_to!(all => all[i as int]));
                assert(decreases_to!(all[i as int] => all[i as int].1));
                let v = value_of_tree(x);
                let ghost held = value_members(out@);
                drop_key(&mut out, k.as_str());
                let ghost before = out@;
                out.push((k, v));
                proof {
                    assert(out@.drop_last() =~= before);
                    assert(held.remove(k@).insert(k@, json_tree(v)) =~= held.insert(
                        k@,
                        json_tree(v),
                    ));
                    assert(all.take(i + 1).drop_last() =~= all.take(i as int));
                    assert(all.take(i + 1).last() == all[i as int]);
                }
                i += 1;
                assert(rest@ =~= all.skip(i as int));
            }
            assert(all.take(n as int) =~= all);
            close_value(Node::Object(out))
        },
    }
}

impl Json {
    /// The document that a text denotes, if it is JSON.
    pub fn parse(text: &str) -> (r: Option<Json>)
        ensures
            match r {
                Some(j) => parsed_json(text@) == Some(j@),
                None => parsed_json(text@) is None,
            },
    {
        match parse_value(text) {
            Ok(v) => Some(tree_of_value(v)),
            Err(_) => None,
        }
    }

    /// The document that a text denotes, or why it is not JSON.
    pub fn read(text: &str) -> (r: Result<Json, String>)
        ensures
            match r {
                Ok(j) => parsed_json(text@) == Some(j@),
                Err(e) => parsed_json(text@) is None && e@ == json_error(text@),
            },
    {
        match parse_value(text) {
            Ok(v) => Ok(tree_of_value(v)),
            Err(e) => Err(e),
        }
    }

    /// The compact JSON text of the document. A list of texts is read back from
    /// it.
    pub fn render(self) -> (r: String)
        ensures
            r@ == rendered_json(self@),
            is_text_list(self@) ==> parsed_json(r@) == Some(self@),
    {
        let v = value_of_tree(self);
        value_text(&v)
    }

    /// The number `n`.
    pub fn unsigned(n: u64) -> (r: Json)
        ensures
            r@ == JsonTree::Number(uint_number(n)),
            r@.as_uint() == Some(n),
            r@.as_int() == (if n <= i64::MAX {
                Some(n as i64)
            } else {
                None
            }),
    {
        Json::Number(JsonNumber { value: value_of_uint(n) })
    }

    /// The number `n`.
    pub fn integer(n: i64) -> (r: Json)
        ensures
            r@ == JsonTree::Number(int_number(n)),
            r@.as_int() == Some(n),
            r@.as_uint() == (if n >= 0 {
                Some(n as u64)
            } else {
                None
            }),
    {
        Json::Number(JsonNumber { value: value_of_int(n) })
    }

    /// The text `s`.
    pub fn text(s: &str) -> (r: Json)
        ensures
            r@ == JsonTree::Text(s@),
    {
        Json::Text(s.to_string())
    }

    /// The array of the texts of `v`.
    pub fn text_list(v: &Vec<String>) -> (r: Json)
        ensures
            r@ == JsonTree::Array(text_trees(crate::text::texts(v@))),
    {
        let mut out: Vec<Json> = Vec::new();
        let n: usize = v.len();
        let mut i: usize = 0;
        while i < n
            invariant
                i <= n,
                n == v@.len(),
                out@.len() == i,
                forall|k: int| 0 <= k < i ==> (#[trigger] out@[k])@ == JsonTree::Text(v@[k]@),
            decreases n - i,
        {
            out.push(Json::Text(v[i].clone()));
            i += 1;
        }
        assert(trees(out@) =~= text_trees(crate::text::texts(v@)));
        Json::Array(out)
    }

    /// A copy of the document.
    pub fn copy(&self) -> (r: Json)
        ensures
            r@ == self@,
        decreases self,
    {
        match self {
            Json::Null => Json::Null,
            Json::Bool(b) => Json::Bool(*b),
            Json::Number(n) => {
                proof {
                    use_type_invariant(n);
                }
                Json::Number(JsonNumber { value: value_copy(&n.value) })
            },
            Json::Text(s) => Json::Text(s.clone()),
            Json::Array(v) => {
                let mut out: Vec<Json> = Vec::new();
                let n: usize = v.len();
                let mut i: usize = 0;
                while i < n
                    invariant
                        i <= n,
                        n == v@.len(),
                        decreases_to!(self => v@),
                        out@.len() == i,
                        forall|k: int| 0 <= k < i ==> (#[trigger] out@[k])@ == v@[k]@,
                    decreases n - i,
                {
                    assert(decreases_to!(v@ => v@[i as int]));
                    out.push(v[i].copy());
                    i += 1;
                }
                assert(trees(out@) =~= trees(v@));
                Json::Array(out)
            },
            Json::Object(m) => {
                let mut out: Vec<(String, Json)> = Vec::new();
                let n: usize = m.len();
                let mut i: usize = 0;
                while i < n
                    invariant
                        i <= n,
                        n == m@.len(),
                        decreases_to!(self => m@),
                        members(out@) == members(m@.take(i as int)),
                    decreases n - i,
                {
                    assert(decreases_to!(m@ => m@[i as int]));
                    assert(decreases_to!(m@[i as int] => m@[i as int].1));
                    let ghost before = out@;
                    out.push((m[i].0.clone(), m[i].1.copy()));
                    proof {
                        assert(out@.drop_last() =~= before);
                        assert(m@.take(i + 1).drop_last() =~= m@.take(i as int));
                        assert(m@.take(i + 1).last() == m@[i as int]);
                    }
                    i += 1;
                }
                assert(m@.take(n as int) =~= m@);
                Json::Object(out)
            },
        }
    }

    /// The member `key` of an object.
    pub fn get(&self, key: &str) -> (r: Option<&Json>)
        ensures
            match r {
                Some(j) => self@.field(key@) == Some(j@),
                None => self@.field(key@) is None,
            },
    {
        match self {
            Json::Object(m) => {
                let mut i: usize = m.len();
                assert(m@.take(i as int) =~= m@);
                while i > 0
                    invariant
                        i <= m@.len(),
                        self@ == JsonTree::Object(members(m@)),
                        members(m@).contains_key(key@) == members(m@.take(i as int)).contains_key(
                            key@,
                        ),
                        members(m@).contains_key(key@) ==> members(m@)[key@] == members(
                            m@.take(i as int),
                        )[key@],
                    decreases i,
                {
                    proof {
                        assert(m@.take(i as int).drop_last() =~= m@.take(i - 1));
                        assert(m@.take(i as int).last() == m@[i - 1]);
                        assert(members(m@.take(i as int)) == members(m@.take(i - 1)).insert(
                            m@[i - 1].0@,
                            m@[i - 1].1@,
                        ));
                    }
                    if same_text(m[i - 1].0.as_str(), key) {
                        return Some(&m[i - 1].1);
                    }
                    i -= 1;
                }
                assert(m@.take(0) =~= Seq::empty());
                None
            },
            _ => None,
        }
    }

    /// The characters of a text.
    pub fn as_str(&self) -> (r: Option<&String>)
        ensures
            match r {
                Some(s) => self@.as_text() == Some(s@),
                None => self@.as_text() is None,
            },
    {
        match self {
            Json::Text(s) => Some(s),
            _ => None,
        }
    }

    /// The elements of an array.
    pub fn as_array(&self) -> (r: Option<&Vec<Json>>)
        ensures
            match r {
                Some(v) => self@.as_array() == Some(trees(v@)),
                None => self@.as_array() is None,
            },
            r matches Some(v) ==> decreases_to!(self => v@),
    {
        match self {
            Json::Array(v) => Some(v),
            _ => None,
        }
    }

    /// The value of a boolean.
    pub fn as_bool(&self) -> (r: Option<bool>)
        ensures
            r == self@.as_bool(),
    {
        match self {
            Json::Bool(b) => Some(*b),
            _ => None,
        }
    }

    /// The value of an integer that fits `i64`.
    pub fn as_i64(&self) -> (r: Option<i64>)
        ensures
            r == self@.as_int(),
    {
        match self {
            Json::Number(n) => {
                proof {
                    use_type_invariant(n);
                }
                value_int(&n.value)
            },
            _ => None,
        }
    }

    /// The value of an integer that fits `u64`.
    pub fn as_u64(&self) -> (r: Option<u64>)
        ensures
            r == self@.as_uint(),
    {
        match self {
            Json::Number(n) => {
                proof {
                    use_type_invariant(n);
                }
                value_uint(&n.value)
            },
            _ => None,
        }
    }

    /// The value of a number without decimals, as text.
    pub fn as_rounded(&self) -> (r: Option<String>)
        ensures
            match r {
                Some(s) => self@.as_rounded() == Some(s@),
                None => self@.as_rounded() is None,
            },
    {
        match self {
            Json::Number(n) => {
                proof {
                    use_type_invariant(n);
                }
                value_rounded(&n.value)
            },
            _ => None,
        }
    }
}

/// The texts as documents.
pub open spec fn text_trees(s: Seq<Seq<char>>) -> Seq<JsonTree> {
    s.map_values(|t: Seq<char>| JsonTree::Text(t))
}

/// The texts among the documents, in order.
pub open spec fn texts_in(s: Seq<JsonTree>) -> Seq<Seq<char>>
    decreases s.len(),
{
    if s.len() == 0 {
        Seq::empty()
    } else {
        match s.last().as_text() {
            Some(t) => texts_in(s.drop_last()).push(t),
            None => texts_in(s.drop_last()),
        }
    }
}

/// The texts among the documents, in order.
pub fn collect_texts(v: &Vec<Json>) -> (r: Vec<String>)
    ensures
        crate::text::texts(r@) == texts_in(trees(v@)),
{
    let mut out: Vec<String> = Vec::new();
    let n: usize = v.len();
    let mut i: usize = 0;
    while i < n
        invariant
            i <= n,
            n == v@.len(),
            crate::text::texts(out@) == texts_in(trees(v@).take(i as int)),
        decreases n - i,
    {
        proof {
            assert(trees(v@).take(i + 1).drop_last() =~= trees(v@).take(i as int));
            assert(trees(v@).take(i + 1).last() == v@[i as int]@);
        }
        let ghost before = crate::text::texts(out@);
        match v[i].as_str() {
            Some(s) => {
                out.push(s.clone());
                assert(crate::text::texts(out@) =~= before.push(s@));
            },
            None => {},
        }
        i += 1;
    }
    assert(trees(v@).take(n as int) =~= trees(v@));
    out
}

/// An object under construction.
pub struct JsonObject {
    entries: Vec<(String, Json)>,
}

impl View for JsonObject {
    type V = Map<Seq<char>, JsonTree>;

    closed spec fn view(&self) -> Map<Seq<char>, JsonTree> {
        members(self.entries@)
    }
}

impl JsonObject {
    /// An object without members.
    pub fn new() -> (r: JsonObject)
        ensures
            r@ == Map::<Seq<char>, JsonTree>::empty(),
    {
        JsonObject { entries: Vec::new() }
    }

    /// The members of a document that is an object; none otherwise.
    pub fn of(j: Json) -> (r: JsonObject)
        ensures
            r@ == (match j@ {
                JsonTree::Object(m) => m,
                _ => Map::empty(),
            }),
    {
        match j {
            Json::Object(entries) => JsonObject { entries },
            _ => JsonObject::new(),
        }
    }

    /// The object with the member `key` set to `value`.
    pub fn with(self, key: &str, value: Json) -> (r: JsonObject)
        ensures
            r@ == self@.insert(key@, value@),
    {
        let mut entries = self.entries;
        let ghost before = entries@;
        entries.push((key.to_string(), value));
        assert(entries@.drop_last() =~= before);
        JsonObject { entries }
    }

    /// The finished document.
    pub fn build(self) -> (r: Json)
        ensures
            r@ == JsonTree::Object(self@),
    {
        Json::Object(self.entries)
    }
}

} // verus!
