//! Risk factors as they are stored and shown. Stored factors are objects; older
//! ones are texts, which are read as far as possible.

use vstd::prelude::*;

use crate::json::{
    collect_texts, int_number, text_trees, texts_in, uint_number, Json, JsonObject, JsonTree,
};
use crate::snapshot::{array_field, int_field, text_field, uint_field};
use crate::text::{
    chars_of, concat2, concat3, decimal, decimal_digits, decimal_text, find_char, find_last_char,
    find_text, first_char, first_occurrence, has_prefix, join, join_texts, last_char,
    leading_number, lemma_decimal_digits, lemma_first_char, lemma_first_occurrence,
    lemma_last_char, lemma_leading_decimal, lemma_pieces, lemma_stripped, occurs_at, pieces,
    read_number, same_text, split_pieces, starts_with, strip_text, stripped, text_of, texts,
    upper_text, uppercase_of, Strip,
};

verus! {

/// What makes a statement risky.
#[derive(Debug)]
pub enum RiskFactor {
    ReadOnly,
    SafeDdl,
    DropOperation,
    MultiStatement,
    SchemaNotSynced,
    CascadeDelete { targets: Vec<String> },
    LargeTable { rows: i64 },
    ManyWarnings { count: u64 },
}

impl RiskFactor {
    /// The name under which the factor is stored.
    pub open spec fn name_text(self) -> Seq<char> {
        match self {
            RiskFactor::ReadOnly => "read_only"@,
            RiskFactor::SafeDdl => "safe_ddl"@,
            RiskFactor::DropOperation => "drop_operation"@,
            RiskFactor::MultiStatement => "multi_statement"@,
            RiskFactor::SchemaNotSynced => "schema_not_synced"@,
            RiskFactor::CascadeDelete { .. } => "cascade_delete"@,
            RiskFactor::LargeTable { .. } => "large_table"@,
            RiskFactor::ManyWarnings { .. } => "many_warnings"@,
        }
    }

    /// The name under which the factor is stored.
    pub fn name(&self) -> (r: &'static str)
        ensures
            r@ == self.name_text(),
    {
        match self {
            RiskFactor::ReadOnly => "read_only",
            RiskFactor::SafeDdl => "safe_ddl",
            RiskFactor::DropOperation => "drop_operation",
            RiskFactor::MultiStatement => "multi_statement",
            RiskFactor::SchemaNotSynced => "schema_not_synced",
            RiskFactor::CascadeDelete { .. } => "cascade_delete",
            RiskFactor::LargeTable { .. } => "large_table",
            RiskFactor::ManyWarnings { .. } => "many_warnings",
        }
    }

    /// The object as which the factor is stored.
    pub open spec fn tree(self) -> JsonTree {
        let base = Map::<Seq<char>, JsonTree>::empty().insert(
            "name"@,
            JsonTree::Text(self.name_text()),
        );
        JsonTree::Object(
            match self {
                RiskFactor::CascadeDelete { targets } => base.insert(
                    "targets"@,
                    JsonTree::Array(text_trees(texts(targets@))),
                ),
                RiskFactor::LargeTable { rows } => base.insert(
                    "rows"@,
                    JsonTree::Number(int_number(rows)),
                ),
                RiskFactor::ManyWarnings { count } => base.insert(
                    "count"@,
                    JsonTree::Number(uint_number(count)),
                ),
                _ => base,
            },
        )
    }

    /// The text as which an older record holds the factor; the names of tables
    /// stand in it as they are, in quotes.
    pub open spec fn old_text(self) -> Seq<char> {
        match self {
            RiskFactor::ReadOnly => "ReadOnly"@,
            RiskFactor::SafeDdl => "SafeDdl"@,
            RiskFactor::DropOperation => "DropOperation"@,
            RiskFactor::MultiStatement => "MultiStatement"@,
            RiskFactor::SchemaNotSynced => "SchemaNotSynced"@,
            RiskFactor::CascadeDelete { targets } => "CascadeDelete { targets: ["@ + join(
                quoted_all(texts(targets@)),
                ", "@,
            ) + "] }"@,
            RiskFactor::LargeTable { rows } => "LargeTable { rows: "@ + signed_text(rows as int)
                + " }"@,
            RiskFactor::ManyWarnings { count } => "ManyWarnings { count: "@ + decimal(count as nat)
                + " }"@,
        }
    }

    /// Whether an older text tells all of the factor: names of tables are told
    /// where they are plain, and a number of rows where it is not negative.
    pub open spec fn told_plainly(self) -> bool {
        match self {
            RiskFactor::CascadeDelete { targets } => forall|i: int|
                0 <= i < targets@.len() ==> plain_name((#[trigger] targets@[i])@),
            RiskFactor::LargeTable { rows } => rows >= 0,
            _ => true,
        }
    }

    /// What a reader is told of the factor.
    pub open spec fn described(self) -> Seq<char> {
        match self {
            RiskFactor::ReadOnly => "Read-only query"@,
            RiskFactor::SafeDdl => "Safe DDL operation"@,
            RiskFactor::DropOperation => "DROP/TRUNCATE operation"@,
            RiskFactor::MultiStatement => "Multiple DML statements"@,
            RiskFactor::SchemaNotSynced => "Schema not available"@,
            RiskFactor::CascadeDelete { targets } => cascade_text(texts(targets@)),
            RiskFactor::LargeTable { rows } => large_text(rows as int),
            RiskFactor::ManyWarnings { count } => warnings_text(count as nat),
        }
    }
}

/// Whether a name can be told in an older text: it is not empty and holds no
/// comma, quote or backslash.
pub open spec fn plain_name(name: Seq<char>) -> bool {
    &&& name.len() > 0
    &&& forall|i: int|
        0 <= i < name.len() ==> #[trigger] name[i] != ',' && name[i] != '"' && name[i] != '\\'
}

/// A name in quotes.
pub open spec fn quoted(name: Seq<char>) -> Seq<char> {
    "\""@ + name + "\""@
}

/// Names in quotes.
pub open spec fn quoted_all(names: Seq<Seq<char>>) -> Seq<Seq<char>> {
    names.map_values(|name: Seq<char>| quoted(name))
}

/// The decimal notation of a number, with its sign where it is negative.
pub open spec fn signed_text(n: int) -> Seq<char> {
    if n < 0 {
        "-"@ + decimal((-n) as nat)
    } else {
        decimal(n as nat)
    }
}

/// What a reader is told of dependent tables.
pub open spec fn cascade_text(targets: Seq<Seq<char>>) -> Seq<char> {
    let list = join(targets, ", "@);
    if list.len() == 0 {
        "Cascade delete"@
    } else {
        "Cascade delete affects: "@ + list
    }
}

/// What a reader is told of a large table.
pub open spec fn large_text(rows: int) -> Seq<char> {
    "Large table: "@ + number_text(rows) + " rows"@
}

/// What a reader is told of warnings.
pub open spec fn warnings_text(count: nat) -> Seq<char> {
    decimal(count) + " review warnings"@
}

// --- numbers ---

/// Digits in groups of three, counted from the right, with commas between.
pub open spec fn grouped(digits: Seq<char>) -> Seq<char>
    decreases digits.len(),
{
    if digits.len() <= 3 {
        digits
    } else {
        let n = digits.len() - 3;
        grouped(digits.take(n)) + ","@ + digits.skip(n)
    }
}

/// A number with commas between groups of three digits.
pub open spec fn number_text(n: int) -> Seq<char> {
    if n < 0 {
        "-"@ + grouped(decimal((-n) as nat))
    } else {
        grouped(decimal(n as nat))
    }
}

fn group_digits(digits: &Vec<char>, n: usize) -> (r: String)
    requires
        n <= digits@.len(),
    ensures
        r@ == grouped(digits@.take(n as int)),
    decreases n,
{
    if n <= 3 {
        let r = text_of(digits, 0, n);
        assert(digits@.subrange(0, n as int) =~= digits@.take(n as int));
        return r;
    }
    let head = group_digits(digits, n - 3);
    let tail = text_of(digits, n - 3, n);
    proof {
        let d = digits@.take(n as int);
        assert(d.take(n - 3) =~= digits@.take(n - 3));
        assert(d.skip(n - 3) =~= digits@.subrange(n - 3, n as int));
    }
    concat3(head.as_str(), ",", tail.as_str())
}

/// A number with commas between groups of three digits.
pub fn format_unsigned(n: u64) -> (r: String)
    ensures
        r@ == grouped(decimal(n as nat)),
{
    let digits = decimal_digits(n);
    let r = group_digits(&digits, digits.len());
    assert(digits@.take(digits@.len() as int) =~= digits@);
    r
}

/// A number with commas between groups of three digits.
pub fn format_number(n: i64) -> (r: String)
    ensures
        r@ == number_text(n as int),
{
    if n < 0 {
        let m: u64 = if n == i64::MIN {
            0x8000_0000_0000_0000u64
        } else {
            (-n) as u64
        };
        return concat2("-", format_unsigned(m).as_str());
    }
    format_unsigned(n as u64)
}

// --- names ---

/// Whether the next character starts a word.
pub open spec fn starts_word(before: Seq<char>) -> bool {
    before.len() == 0 || before.last() == '_'
}

/// A name in snake case as words with capital initials.
pub open spec fn capitalized(s: Seq<char>) -> Seq<char>
    decreases s.len(),
{
    if s.len() == 0 {
        seq![]
    } else {
        let rest = capitalized(s.drop_last());
        let c = s.last();
        if c == '_' {
            rest.push(' ')
        } else if starts_word(s.drop_last()) {
            rest + uppercase_of(c)
        } else {
            rest.push(c)
        }
    }
}

/// A name in snake case as words with capital initials.
pub fn capitalize_snake(s: &str) -> (r: String)
    ensures
        r@ == capitalized(s@),
{
    let cs = chars_of(s);
    let mut out = String::new();
    let mut capitalize_next: bool = true;
    let n: usize = cs.len();
    let mut i: usize = 0;
    assert(out@ =~= capitalized(s@.take(0)));
    while i < n
        invariant
            i <= n,
            n == cs@.len(),
            cs@ == s@,
            out@ == capitalized(s@.take(i as int)),
            capitalize_next == starts_word(s@.take(i as int)),
        decreases n - i,
    {
        let c: char = cs[i];
        proof {
            assert(s@.take(i + 1).drop_last() =~= s@.take(i as int));
            assert(s@.take(i + 1).last() == c);
        }
        if c == '_' {
            out.push(' ');
            capitalize_next = true;
        } else if capitalize_next {
            out.append(upper_text(c).as_str());
            capitalize_next = false;
        } else {
            out.push(c);
        }
        i += 1;
    }
    assert(s@.take(n as int) =~= s@);
    out
}

// --- stored factors ---

/// The name of a stored factor.
pub open spec fn stored_name(t: JsonTree) -> Seq<char> {
    match t.at("name"@).as_text() {
        Some(s) => s,
        None => "unknown"@,
    }
}

/// What a reader is told of a stored factor.
pub open spec fn structured_text(t: JsonTree) -> Seq<char> {
    let name = stored_name(t);
    if name == "cascade_delete"@ {
        cascade_text(
            match t.at("targets"@).as_array() {
                Some(a) => texts_in(a),
                None => seq![],
            },
        )
    } else if name == "large_table"@ {
        large_text(
            match t.at("rows"@).as_int() {
                Some(n) => n as int,
                None => 0,
            },
        )
    } else if name == "many_warnings"@ {
        warnings_text(
            match t.at("count"@).as_uint() {
                Some(n) => n as nat,
                None => 0,
            },
        )
    } else if name == "drop_operation"@ {
        "DROP/TRUNCATE operation"@
    } else if name == "multi_statement"@ {
        "Multiple DML statements"@
    } else if name == "schema_not_synced"@ {
        "Schema not available"@
    } else if name == "read_only"@ {
        "Read-only query"@
    } else if name == "safe_ddl"@ {
        "Safe DDL operation"@
    } else {
        capitalized(name)
    }
}

fn show_cascade(targets: &Vec<String>) -> (r: String)
    ensures
        r@ == cascade_text(texts(targets@)),
{
    let list = join_texts(targets, ", ");
    let cs = chars_of(list.as_str());
    if cs.len() == 0 {
        "Cascade delete".to_string()
    } else {
        concat2("Cascade delete affects: ", list.as_str())
    }
}

fn format_structured_factor(t: &Json) -> (r: String)
    ensures
        r@ == structured_text(t@),
{
    let name: &str = match text_field(t, "name") {
        Some(s) => s.as_str(),
        None => "unknown",
    };
    if same_text(name, "cascade_delete") {
        let targets: Vec<String> = match array_field(t, "targets") {
            Some(a) => collect_texts(a),
            None => {
                let none: Vec<String> = Vec::new();
                assert(texts(none@) =~= seq![]);
                none
            },
        };
        show_cascade(&targets)
    } else if same_text(name, "large_table") {
        let rows: i64 = match int_field(t, "rows") {
            Some(n) => n,
            None => 0,
        };
        concat3("Large table: ", format_number(rows).as_str(), " rows")
    } else if same_text(name, "many_warnings") {
        let count: u64 = match uint_field(t, "count") {
            Some(n) => n,
            None => 0,
        };
        concat2(decimal_text(count).as_str(), " review warnings")
    } else if same_text(name, "drop_operation") {
        "DROP/TRUNCATE operation".to_string()
    } else if same_text(name, "multi_statement") {
        "Multiple DML statements".to_string()
    } else if same_text(name, "schema_not_synced") {
        "Schema not available".to_string()
    } else if same_text(name, "read_only") {
        "Read-only query".to_string()
    } else if same_text(name, "safe_ddl") {
        "Safe DDL operation".to_string()
    } else {
        capitalize_snake(name)
    }
}

// --- older factors ---

/// A target without the white space, quotes and backslashes around it.
pub open spec fn cleaned(piece: Seq<char>) -> Seq<char> {
    stripped(stripped(stripped(piece, Strip::White), Strip::One('"')), Strip::One('\\'))
}

/// The targets among the pieces of a list, in order; empty ones are left out.
pub open spec fn targets_among(list: Seq<Seq<char>>) -> Seq<Seq<char>>
    decreases list.len(),
{
    if list.len() == 0 {
        seq![]
    } else {
        let rest = targets_among(list.drop_last());
        let t = cleaned(list.last());
        if t.len() > 0 {
            rest.push(t)
        } else {
            rest
        }
    }
}

/// What a reader is told of an older text about dependent tables. The list
/// stands between the first opening and the last closing bracket, in this order.
pub open spec fn old_cascade_text(s: Seq<char>) -> Seq<char> {
    match (first_char(s, '[', 0), last_char(s, ']', s.len() as int)) {
        (Some(a), Some(b)) => {
            let targets = targets_among(pieces(s.subrange(a + 1, b), ','));
            if a < b && targets.len() > 0 {
                "Cascade delete affects: "@ + join(targets, ", "@)
            } else {
                "Cascade delete"@
            }
        },
        _ => "Cascade delete"@,
    }
}

/// The number that follows the label in an older text, if it is at most `max`.
pub open spec fn labelled_number(s: Seq<char>, label: Seq<char>, max: nat) -> Option<nat> {
    match first_occurrence(s, label, 0) {
        Some(p) => leading_number(stripped(s.skip(p + label.len()), Strip::White), max),
        None => None,
    }
}

/// What a reader is told of an older text.
pub open spec fn legacy_text(s: Seq<char>) -> Seq<char> {
    if has_prefix(s, "CascadeDelete"@) {
        old_cascade_text(s)
    } else if has_prefix(s, "LargeTable"@) {
        match labelled_number(s, "rows:"@, i64::MAX as nat) {
            Some(n) => large_text(n as int),
            None => "Large table"@,
        }
    } else if has_prefix(s, "ManyWarnings"@) {
        match labelled_number(s, "count:"@, u64::MAX as nat) {
            Some(n) => warnings_text(n),
            None => "Many warnings"@,
        }
    } else if s == "DropOperation"@ {
        "DROP/TRUNCATE operation"@
    } else if s == "MultiStatement"@ {
        "Multiple DML statements"@
    } else if s == "SchemaNotSynced"@ {
        "Schema not available"@
    } else if s == "ReadOnly"@ {
        "Read-only query"@
    } else if s == "SafeDdl"@ {
        "Safe DDL operation"@
    } else {
        s
    }
}

fn clean_piece(piece: &str) -> (r: String)
    ensures
        r@ == cleaned(piece@),
{
    let a = strip_text(piece, Strip::White);
    let b = strip_text(a.as_str(), Strip::One('"'));
    strip_text(b.as_str(), Strip::One('\\'))
}

fn collect_targets(list: &Vec<String>) -> (r: Vec<String>)
    ensures
        texts(r@) == targets_among(texts(list@)),
{
    let mut out: Vec<String> = Vec::new();
    let n: usize = list.len();
    let mut i: usize = 0;
    assert(texts(out@) =~= targets_among(texts(list@).take(0)));
    while i < n
        invariant
            i <= n,
            n == list@.len(),
            texts(out@) == targets_among(texts(list@).take(i as int)),
        decreases n - i,
    {
        let ghost before = texts(out@);
        proof {
            assert(texts(list@).take(i + 1).drop_last() =~= texts(list@).take(i as int));
            assert(texts(list@).take(i + 1).last() == list@[i as int]@);
        }
        let t = clean_piece(list[i].as_str());
        let cs = chars_of(t.as_str());
        if cs.len() > 0 {
            out.push(t);
            assert(texts(out@) =~= before.push(t@));
        }
        i += 1;
    }
    assert(texts(list@).take(n as int) =~= texts(list@));
    out
}

fn format_old_cascade(s: &str) -> (r: String)
    ensures
        r@ == old_cascade_text(s@),
{
    let cs = chars_of(s);
    match (find_char(&cs, '['), find_last_char(&cs, ']')) {
        (Some(a), Some(b)) => {
            if a >= b {
                return "Cascade delete".to_string();
            }
            let inner = text_of(&cs, a + 1, b);
            let inner_chars = chars_of(inner.as_str());
            let list = split_pieces(&inner_chars, ',');
            let targets = collect_targets(&list);
            assert(texts(targets@).len() == targets@.len());
            if targets.len() > 0 {
                concat2("Cascade delete affects: ", join_texts(&targets, ", ").as_str())
            } else {
                "Cascade delete".to_string()
            }
        },
        _ => "Cascade delete".to_string(),
    }
}

fn read_labelled(s: &str, label: &str, max: u64) -> (r: Option<u64>)
    ensures
        match r {
            Some(v) => labelled_number(s@, label@, max as nat) == Some(v as nat),
            None => labelled_number(s@, label@, max as nat) is None,
        },
{
    let cs = chars_of(s);
    let l = chars_of(label);
    match find_text(&cs, &l) {
        Some(p) => {
            let n: usize = cs.len();
            let after = text_of(&cs, p + l.len(), n);
            assert(after@ =~= s@.skip(p + label@.len()));
            let trimmed = strip_text(after.as_str(), Strip::White);
            read_number(trimmed.as_str(), max)
        },
        None => None,
    }
}

/// What a reader is told of an older text; a text that cannot be read is shown
/// as it is.
pub fn format_legacy_factor(s: &str) -> (r: String)
    ensures
        r@ == legacy_text(s@),
{
    if starts_with(s, "CascadeDelete") {
        format_old_cascade(s)
    } else if starts_with(s, "LargeTable") {
        match read_labelled(s, "rows:", i64::MAX as u64) {
            Some(n) => concat3("Large table: ", format_unsigned(n).as_str(), " rows"),
            None => "Large table".to_string(),
        }
    } else if starts_with(s, "ManyWarnings") {
        match read_labelled(s, "count:", u64::MAX) {
            Some(n) => concat2(decimal_text(n).as_str(), " review warnings"),
            None => "Many warnings".to_string(),
        }
    } else if same_text(s, "DropOperation") {
        "DROP/TRUNCATE operation".to_string()
    } else if same_text(s, "MultiStatement") {
        "Multiple DML statements".to_string()
    } else if same_text(s, "SchemaNotSynced") {
        "Schema not available".to_string()
    } else if same_text(s, "ReadOnly") {
        "Read-only query".to_string()
    } else if same_text(s, "SafeDdl") {
        "Safe DDL operation".to_string()
    } else {
        s.to_string()
    }
}

// --- any factor ---

/// What a reader is told of a factor, stored or older.
pub open spec fn factor_text(t: JsonTree) -> Seq<char> {
    match t {
        JsonTree::Object(_) => structured_text(t),
        JsonTree::Text(s) => legacy_text(s),
        _ => "Unknown factor"@,
    }
}

fn format_single_factor(f: &Json) -> (r: String)
    ensures
        r@ == factor_text(f@),
{
    match f {
        Json::Object(_) => format_structured_factor(f),
        Json::Text(s) => format_legacy_factor(s.as_str()),
        _ => "Unknown factor".to_string(),
    }
}

/// What a reader is told of the factors, in order.
pub fn format_risk_factors(factors: &[Json]) -> (r: Vec<String>)
    ensures
        r@.len() == factors@.len(),
        forall|k: int| 0 <= k < r@.len() ==> (#[trigger] r@[k])@ == factor_text(factors@[k]@),
{
    let mut out: Vec<String> = Vec::new();
    let n: usize = factors.len();
    let mut i: usize = 0;
    while i < n
        invariant
            i <= n,
            n == factors@.len(),
            out@.len() == i,
            forall|k: int| 0 <= k < i ==> (#[trigger] out@[k])@ == factor_text(factors@[k]@),
        decreases n - i,
    {
        out.push(format_single_factor(&factors[i]));
        i += 1;
    }
    out
}

/// A list of texts holds all of them.
proof fn lemma_texts_in(s: Seq<Seq<char>>)
    ensures
        texts_in(text_trees(s)) == s,
    decreases s.len(),
{
    if s.len() > 0 {
        lemma_texts_in(s.drop_last());
        assert(text_trees(s).drop_last() =~= text_trees(s.drop_last()));
        assert(text_trees(s).last() == JsonTree::Text(s.last()));
        assert(s =~= s.drop_last().push(s.last()));
    } else {
        assert(texts_in(text_trees(s)) =~= s);
    }
}

/// The names of factors are told apart.
proof fn lemma_names()
    ensures
        "cascade_delete"@ != "large_table"@,
        "cascade_delete"@ != "many_warnings"@,
        "large_table"@ != "many_warnings"@,
        "drop_operation"@ != "cascade_delete"@,
        "drop_operation"@ != "large_table"@,
        "drop_operation"@ != "many_warnings"@,
        "multi_statement"@ != "cascade_delete"@,
        "multi_statement"@ != "large_table"@,
        "multi_statement"@ != "many_warnings"@,
        "multi_statement"@ != "drop_operation"@,
        "schema_not_synced"@ != "cascade_delete"@,
        "schema_not_synced"@ != "large_table"@,
        "schema_not_synced"@ != "many_warnings"@,
        "schema_not_synced"@ != "drop_operation"@,
        "schema_not_synced"@ != "multi_statement"@,
        "read_only"@ != "cascade_delete"@,
        "read_only"@ != "large_table"@,
        "read_only"@ != "many_warnings"@,
        "read_only"@ != "drop_operation"@,
        "read_only"@ != "multi_statement"@,
        "read_only"@ != "schema_not_synced"@,
        "safe_ddl"@ != "cascade_delete"@,
        "safe_ddl"@ != "large_table"@,
        "safe_ddl"@ != "many_warnings"@,
        "safe_ddl"@ != "drop_operation"@,
        "safe_ddl"@ != "multi_statement"@,
        "safe_ddl"@ != "schema_not_synced"@,
        "safe_ddl"@ != "read_only"@,
        "name"@ != "targets"@,
        "name"@ != "rows"@,
        "name"@ != "count"@,
{
    reveal_strlit("cascade_delete");
    reveal_strlit("large_table");
    reveal_strlit("many_warnings");
    reveal_strlit("drop_operation");
    reveal_strlit("multi_statement");
    reveal_strlit("schema_not_synced");
    reveal_strlit("read_only");
    reveal_strlit("safe_ddl");
    reveal_strlit("name");
    reveal_strlit("targets");
    reveal_strlit("rows");
    reveal_strlit("count");
    assert("cascade_delete"@.len() == 14);
    assert("large_table"@.len() == 11);
    assert("many_warnings"@.len() == 13);
    assert("drop_operation"@.len() == 14);
    assert("drop_operation"@[0] != "cascade_delete"@[0]);
    assert("multi_statement"@.len() == 15);
    assert("schema_not_synced"@.len() == 17);
    assert("read_only"@.len() == 9);
    assert("safe_ddl"@.len() == 8);
    assert("name"@[0] != "rows"@[0]);
}

/// The object as which a factor is stored; what a reader is told of it is what
/// the factor describes.
fn serialize_factor(f: &RiskFactor) -> (r: Json)
    ensures
        r@ == f.tree(),
        factor_text(r@) == f.described(),
{
    let base = JsonObject::new().with("name", Json::text(f.name()));
    proof {
        lemma_names();
    }
    match f {
        RiskFactor::CascadeDelete { targets } => {
            let list = Json::text_list(targets);
            proof {
                lemma_texts_in(texts(targets@));
            }
            base.with("targets", list).build()
        },
        RiskFactor::LargeTable { rows } => base.with("rows", Json::integer(*rows)).build(),
        RiskFactor::ManyWarnings { count } => base.with("count", Json::unsigned(*count)).build(),
        _ => base.build(),
    }
}

/// The objects as which factors are stored, in order. Showing a stored factor
/// tells the reader what the factor describes, and what its older text tells.
pub fn serialize_factors(factors: &[RiskFactor]) -> (r: Vec<Json>)
    ensures
        r@.len() == factors@.len(),
        forall|k: int| 0 <= k < r@.len() ==> (#[trigger] r@[k])@ == factors@[k].tree(),
        forall|k: int|
            0 <= k < r@.len() ==> factor_text((#[trigger] r@[k])@) == factors@[k].described(),
        forall|k: int|
            0 <= k < r@.len() && factors@[k].told_plainly() ==> factor_text((#[trigger] r@[k])@)
                == factor_text(JsonTree::Text(factors@[k].old_text())),
{
    let mut out: Vec<Json> = Vec::new();
    let n: usize = factors.len();
    let mut i: usize = 0;
    while i < n
        invariant
            i <= n,
            n == factors@.len(),
            out@.len() == i,
            forall|k: int| 0 <= k < i ==> (#[trigger] out@[k])@ == factors@[k].tree(),
            forall|k: int|
                0 <= k < i ==> factor_text((#[trigger] out@[k])@) == factors@[k].described(),
        decreases n - i,
    {
        out.push(serialize_factor(&factors[i]));
        i += 1;
    }
    proof {
        assert forall|k: int|
            0 <= k < out@.len() && factors@[k].told_plainly() implies factor_text(
            (#[trigger] out@[k])@,
        ) == factor_text(JsonTree::Text(factors@[k].old_text())) by {
            older_factors_are_shown_alike(factors@[k]);
        }
    }
    out
}

/// The characters of `s` that are no commas, in order.
pub open spec fn without_commas(s: Seq<char>) -> Seq<char>
    decreases s.len(),
{
    if s.len() == 0 {
        seq![]
    } else {
        let rest = without_commas(s.drop_last());
        if s.last() == ',' {
            rest
        } else {
            rest.push(s.last())
        }
    }
}

proof fn lemma_without_commas_append(a: Seq<char>, b: Seq<char>)
    ensures
        without_commas(a + b) == without_commas(a) + without_commas(b),
    decreases b.len(),
{
    if b.len() == 0 {
        assert(a + b =~= a);
        assert(without_commas(a) + without_commas(b) =~= without_commas(a));
    } else {
        lemma_without_commas_append(a, b.drop_last());
        assert((a + b).drop_last() =~= a + b.drop_last());
        assert((a + b).last() == b.last());
        assert(without_commas(a + b) =~= without_commas(a) + without_commas(b));
    }
}

proof fn lemma_no_commas(s: Seq<char>)
    requires
        forall|i: int| 0 <= i < s.len() ==> #[trigger] s[i] != ',',
    ensures
        without_commas(s) == s,
    decreases s.len(),
{
    if s.len() > 0 {
        lemma_no_commas(s.drop_last());
        assert(s.drop_last().push(s.last()) =~= s);
    } else {
        assert(without_commas(s) =~= s);
    }
}

proof fn lemma_grouping(digits: Seq<char>)
    requires
        forall|i: int| 0 <= i < digits.len() ==> #[trigger] digits[i] != ',',
    ensures
        without_commas(grouped(digits)) == digits,
    decreases digits.len(),
{
    if digits.len() <= 3 {
        lemma_no_commas(digits);
    } else {
        let n = digits.len() - 3;
        let head = digits.take(n);
        let tail = digits.skip(n);
        lemma_grouping(head);
        lemma_no_commas(tail);
        reveal_strlit(",");
        assert(","@ =~= seq![',']);
        assert(without_commas(","@) =~= Seq::<char>::empty()) by {
            reveal_with_fuel(without_commas, 2);
        }
        lemma_without_commas_append(grouped(head) + ","@, tail);
        lemma_without_commas_append(grouped(head), ","@);
        assert(head + Seq::<char>::empty() + tail =~= digits);
    }
}

/// Grouping changes nothing but the commas: without them the decimal notation
/// is back.
pub proof fn grouping_keeps_the_digits(n: nat)
    ensures
        without_commas(grouped(decimal(n))) == decimal(n),
{
    lemma_decimal_digits(n);
    assert forall|i: int| 0 <= i < decimal(n).len() implies #[trigger] decimal(n)[i] != ',' by {
        assert('0' <= decimal(n)[i]);
    }
    lemma_grouping(decimal(n));
}

proof fn lemma_cleaned(name: Seq<char>)
    requires
        plain_name(name),
    ensures
        cleaned(quoted(name)) == name,
        cleaned(" "@ + quoted(name)) == name,
{
    reveal_strlit("\"");
    reveal_strlit(" ");
    let none = Seq::<char>::empty();
    let q = quoted(name);
    assert(q[0] == '"' && q.last() == '"');
    assert(name[0] != '"' && name.last() != '"');
    assert(name[0] != '\\' && name.last() != '\\');
    lemma_stripped(none, q, none, Strip::White);
    assert(none + q + none =~= q);
    lemma_stripped(" "@, q, none, Strip::White);
    assert(" "@ + q + none =~= " "@ + q);
    lemma_stripped("\""@, name, "\""@, Strip::One('"'));
    lemma_stripped(none, name, none, Strip::One('\\'));
    assert(none + name + none =~= name);
}

proof fn lemma_quoted_has_no_comma(name: Seq<char>)
    requires
        plain_name(name),
    ensures
        forall|i: int| 0 <= i < quoted(name).len() ==> #[trigger] quoted(name)[i] != ',',
        forall|i: int|
            0 <= i < (" "@ + quoted(name)).len() ==> #[trigger] (" "@ + quoted(name))[i] != ',',
{
    reveal_strlit("\"");
    reveal_strlit(" ");
    let q = quoted(name);
    assert forall|i: int| 0 <= i < q.len() implies #[trigger] q[i] != ',' by {
        if 0 < i <= name.len() {
            assert(q[i] == name[i - 1]);
        }
    }
    assert forall|i: int| 0 <= i < (" "@ + q).len() implies #[trigger] (" "@ + q)[i] != ',' by {
        if i > 0 {
            assert((" "@ + q)[i] == q[i - 1]);
        }
    }
}

/// The names are back when their quoted list is taken apart.
proof fn lemma_list_taken_apart(names: Seq<Seq<char>>)
    requires
        forall|i: int| 0 <= i < names.len() ==> plain_name(#[trigger] names[i]),
    ensures
        targets_among(pieces(join(quoted_all(names), ", "@), ',')) == names,
    decreases names.len(),
{
    reveal_strlit(", ");
    reveal_strlit(" ");
    reveal_with_fuel(targets_among, 2);
    let list = quoted_all(names);
    if names.len() == 0 {
        let none = Seq::<char>::empty();
        lemma_pieces(none, none, ',');
        assert(join(list, ", "@) =~= none);
        assert(seq![none].drop_last() =~= Seq::<Seq<char>>::empty());
        assert(cleaned(none).len() == 0);
        assert(targets_among(seq![none]) =~= names);
    } else {
        let last = names.last();
        assert(plain_name(names[names.len() - 1]));
        lemma_cleaned(last);
        lemma_quoted_has_no_comma(last);
        assert(list.last() == quoted(last));
        if names.len() == 1 {
            lemma_pieces(Seq::empty(), quoted(last), ',');
            assert(join(list, ", "@) == quoted(last));
            assert(seq![quoted(last)].drop_last() =~= Seq::<Seq<char>>::empty());
            assert(targets_among(seq![quoted(last)]) =~= names);
        } else {
            let rest = names.drop_last();
            lemma_list_taken_apart(rest);
            assert(list.drop_last() =~= quoted_all(rest));
            let head = join(quoted_all(rest), ", "@);
            lemma_pieces(head, " "@ + quoted(last), ',');
            assert(join(list, ", "@) =~= head.push(',') + (" "@ + quoted(last)));
            let parts = pieces(head, ',').push(" "@ + quoted(last));
            assert(parts.drop_last() =~= pieces(head, ','));
            assert(targets_among(parts) =~= names);
        }
    }
}

proof fn lemma_old_cascade(names: Seq<Seq<char>>)
    requires
        forall|i: int| 0 <= i < names.len() ==> plain_name(#[trigger] names[i]),
    ensures
        legacy_text(
            "CascadeDelete { targets: ["@ + join(quoted_all(names), ", "@) + "] }"@,
        ) == cascade_text(names),
{
    reveal_strlit("CascadeDelete { targets: [");
    reveal_strlit("CascadeDelete");
    reveal_strlit("] }");
    let before = "CascadeDelete { targets: ["@;
    let list = join(quoted_all(names), ", "@);
    let after = "] }"@;
    let s = before + list + after;
    let a = before.len() - 1;
    let b = (before.len() + list.len()) as int;
    assert(s.subrange(0, "CascadeDelete"@.len() as int) =~= "CascadeDelete"@);
    assert(has_prefix(s, "CascadeDelete"@));
    assert(s[a] == before[a]);
    assert forall|j: int| 0 <= j < a implies #[trigger] s[j] != '[' by {
        assert(s[j] == before[j]);
    }
    lemma_first_char(s, '[', 0, a);
    assert(s[b] == after[0]);
    assert(s[b + 1] == after[1]);
    assert(s[b + 2] == after[2]);
    lemma_last_char(s, ']', s.len() as int, b);
    assert(s.subrange(a + 1, b) =~= list);
    lemma_list_taken_apart(names);
    lemma_joined_is_empty(names);
}

/// Joined names are empty where there are none only.
proof fn lemma_joined_is_empty(names: Seq<Seq<char>>)
    requires
        forall|i: int| 0 <= i < names.len() ==> plain_name(#[trigger] names[i]),
    ensures
        join(names, ", "@).len() == 0 <==> names.len() == 0,
{
    if names.len() > 0 {
        assert(plain_name(names[names.len() - 1]));
    }
}

/// What stands behind the label is the number.
proof fn lemma_labelled(start: Seq<char>, label: Seq<char>, n: nat, max: nat)
    requires
        n <= max,
        first_occurrence(start + label + " "@ + decimal(n) + " }"@, label, 0) == Some(
            start.len() as int,
        ),
    ensures
        labelled_number(start + label + " "@ + decimal(n) + " }"@, label, max) == Some(n),
{
    reveal_strlit(" ");
    reveal_strlit(" }");
    let s = start + label + " "@ + decimal(n) + " }"@;
    let kept = decimal(n) + " }"@;
    lemma_decimal_digits(n);
    assert(kept[0] == decimal(n)[0]);
    assert(kept.last() == '}');
    assert(s.skip((start.len() + label.len()) as int) =~= " "@ + kept + Seq::<char>::empty());
    lemma_stripped(" "@, kept, Seq::empty(), Strip::White);
    lemma_leading_decimal(n, " }"@, max);
}

proof fn lemma_old_rows(rows: nat)
    requires
        rows <= i64::MAX,
    ensures
        legacy_text("LargeTable { rows: "@ + decimal(rows) + " }"@) == large_text(rows as int),
{
    reveal_strlit("LargeTable { rows: ");
    reveal_strlit("LargeTable { ");
    reveal_strlit("LargeTable");
    reveal_strlit("CascadeDelete");
    reveal_strlit("rows:");
    reveal_strlit(" ");
    let start = "LargeTable { "@;
    let label = "rows:"@;
    let s = "LargeTable { rows: "@ + decimal(rows) + " }"@;
    assert("LargeTable { rows: "@ =~= start + label + " "@);
    assert(s =~= start + label + " "@ + decimal(rows) + " }"@);
    assert(s[0] == 'L');
    assert(!has_prefix(s, "CascadeDelete"@)) by {
        if has_prefix(s, "CascadeDelete"@) {
            assert(s.subrange(0, 13)[0] == "CascadeDelete"@[0]);
        }
    }
    assert(s.subrange(0, 10) =~= "LargeTable"@);
    assert(has_prefix(s, "LargeTable"@));
    assert forall|i: int| 0 <= i < 13 implies !#[trigger] occurs_at(s, label, i) by {
        if occurs_at(s, label, i) {
            assert(s.subrange(i, i + 5)[0] == label[0]);
            assert(s.subrange(i, i + 5)[1] == label[1]);
        }
    }
    assert(s.subrange(13, 18) =~= label);
    lemma_first_occurrence(s, label, 0, 13);
    lemma_labelled(start, label, rows, i64::MAX as nat);
}

proof fn lemma_old_count(count: nat)
    requires
        count <= u64::MAX,
    ensures
        legacy_text("ManyWarnings { count: "@ + decimal(count) + " }"@) == warnings_text(count),
{
    reveal_strlit("ManyWarnings { count: ");
    reveal_strlit("ManyWarnings { ");
    reveal_strlit("ManyWarnings");
    reveal_strlit("LargeTable");
    reveal_strlit("CascadeDelete");
    reveal_strlit("count:");
    reveal_strlit(" ");
    let start = "ManyWarnings { "@;
    let label = "count:"@;
    let s = "ManyWarnings { count: "@ + decimal(count) + " }"@;
    assert("ManyWarnings { count: "@ =~= start + label + " "@);
    assert(s =~= start + label + " "@ + decimal(count) + " }"@);
    assert(s[0] == 'M');
    assert(!has_prefix(s, "CascadeDelete"@)) by {
        if has_prefix(s, "CascadeDelete"@) {
            assert(s.subrange(0, 13)[0] == "CascadeDelete"@[0]);
        }
    }
    assert(!has_prefix(s, "LargeTable"@)) by {
        if has_prefix(s, "LargeTable"@) {
            assert(s.subrange(0, 10)[0] == "LargeTable"@[0]);
        }
    }
    assert(s.subrange(0, 12) =~= "ManyWarnings"@);
    assert(has_prefix(s, "ManyWarnings"@));
    assert forall|i: int| 0 <= i < 15 implies !#[trigger] occurs_at(s, label, i) by {
        if occurs_at(s, label, i) {
            assert(s.subrange(i, i + 6)[0] == label[0]);
        }
    }
    assert(s.subrange(15, 21) =~= label);
    lemma_first_occurrence(s, label, 0, 15);
    lemma_labelled(start, label, count, u64::MAX as nat);
}

proof fn lemma_old_words()
    ensures
        legacy_text("DropOperation"@) == "DROP/TRUNCATE operation"@,
        legacy_text("MultiStatement"@) == "Multiple DML statements"@,
        legacy_text("SchemaNotSynced"@) == "Schema not available"@,
        legacy_text("ReadOnly"@) == "Read-only query"@,
        legacy_text("SafeDdl"@) == "Safe DDL operation"@,
{
    reveal_strlit("CascadeDelete");
    reveal_strlit("LargeTable");
    reveal_strlit("ManyWarnings");
    reveal_strlit("DropOperation");
    reveal_strlit("MultiStatement");
    reveal_strlit("SchemaNotSynced");
    reveal_strlit("ReadOnly");
    reveal_strlit("SafeDdl");
    assert forall|s: Seq<char>| #[trigger]
        has_prefix(s, "CascadeDelete"@) implies s[0] == 'C' by {
        assert(s.subrange(0, 13)[0] == "CascadeDelete"@[0]);
    }
    assert forall|s: Seq<char>| #[trigger] has_prefix(s, "LargeTable"@) implies s[0] == 'L' by {
        assert(s.subrange(0, 10)[0] == "LargeTable"@[0]);
    }
    assert forall|s: Seq<char>| #[trigger] has_prefix(s, "ManyWarnings"@) implies s[0] == 'M'
        && s[1] == 'a' by {
        assert(s.subrange(0, 12)[0] == "ManyWarnings"@[0]);
        assert(s.subrange(0, 12)[1] == "ManyWarnings"@[1]);
    }
    assert("DropOperation"@.len() == 13);
    assert("MultiStatement"@.len() == 14);
    assert("SchemaNotSynced"@.len() == 15);
    assert("ReadOnly"@.len() == 8);
    assert("SafeDdl"@.len() == 7);
}

/// An older text of a factor is shown as what the factor describes, and so as
/// the object that `serialize_factors` makes of it.
pub proof fn older_factors_are_shown_alike(f: RiskFactor)
    requires
        f.told_plainly(),
    ensures
        factor_text(JsonTree::Text(f.old_text())) == f.described(),
{
    match f {
        RiskFactor::CascadeDelete { targets } => {
            let names = texts(targets@);
            assert forall|i: int| 0 <= i < names.len() implies plain_name(#[trigger] names[i]) by {
                assert(names[i] == targets@[i]@);
            }
            lemma_old_cascade(names);
        },
        RiskFactor::LargeTable { rows } => {
            lemma_old_rows(rows as nat);
        },
        RiskFactor::ManyWarnings { count } => {
            lemma_old_count(count as nat);
        },
        _ => {
            lemma_old_words();
        },
    }
}

/// Stored factors are told by their names; one of an unknown name is told by it,
/// and what is neither an object nor a text is unknown.
pub proof fn stored_factors_are_told_by_their_names(factors: &[Json], r: Vec<String>, k: int)
    requires
        call_ensures(format_risk_factors, (factors,), r),
        0 <= k < factors@.len(),
    ensures
        r@.len() == factors@.len(),
        factors@[k]@ is Object ==> {
            let name = factors@[k]@.at("name"@).as_text();
            &&& name == Some("drop_operation"@) ==> r@[k]@ == "DROP/TRUNCATE operation"@
            &&& name == Some("multi_statement"@) ==> r@[k]@ == "Multiple DML statements"@
            &&& name == Some("schema_not_synced"@) ==> r@[k]@ == "Schema not available"@
            &&& name == Some("read_only"@) ==> r@[k]@ == "Read-only query"@
            &&& name == Some("safe_ddl"@) ==> r@[k]@ == "Safe DDL operation"@
            &&& name == Some("many_warnings"@) ==> (factors@[k]@.at("count"@).as_uint() matches Some(
                n,
            ) ==> r@[k]@ == decimal(n as nat) + " review warnings"@)
            &&& name == Some("large_table"@) ==> (factors@[k]@.at("rows"@).as_int() matches Some(n)
                ==> r@[k]@ == "Large table: "@ + number_text(n as int) + " rows"@)
            &&& name == Some("cascade_delete"@) && factors@[k]@.at("targets"@).as_array() is None
                ==> r@[k]@ == "Cascade delete"@
            &&& name == Some("cascade_delete"@) ==> (factors@[k]@.at("targets"@).as_array() matches Some(
                a,
            ) ==> join(texts_in(a), ", "@).len() > 0 ==> r@[k]@ == "Cascade delete affects: "@
                + join(texts_in(a), ", "@))
        },
        !(factors@[k]@ is Object) && !(factors@[k]@ is Text) ==> r@[k]@ == "Unknown factor"@,
{
    lemma_names();
    assert(r@[k]@ == factor_text(factors@[k]@));
    assert(join(Seq::<Seq<char>>::empty(), ", "@).len() == 0);
}

/// A number is shown with a sign if it is negative, and with a comma before each
/// three digits, counted from the right.
pub proof fn numbers_are_grouped_by_three(n: i64, r: String)
    requires
        call_ensures(format_number, (n,), r),
    ensures
        0 <= n < 1000 ==> r@ == decimal(n as nat),
        n >= 1000 ==> r@.len() >= 5 && r@[r@.len() - 4] == ',',
        n < 0 ==> r@.len() > 0 && r@[0] == '-',
        n >= 0 ==> without_commas(r@) == decimal(n as nat),
{
    reveal_strlit("-");
    reveal_strlit(",");
    if n >= 0 {
        grouping_keeps_the_digits(n as nat);
        lemma_decimal_size(n as nat);
        let d = decimal(n as nat);
        if n >= 1000 {
            let h = grouped(d.take(d.len() - 3));
            lemma_grouped_is_not_empty(d.take(d.len() - 3));
            let g = h + ","@ + d.skip(d.len() - 3);
            assert(r@ == g);
            assert(g[h.len() as int] == ',');
            assert(g.len() == h.len() + 4);
        }
    }
}

proof fn lemma_grouped_is_not_empty(digits: Seq<char>)
    requires
        digits.len() > 0,
    ensures
        grouped(digits).len() > 0,
{
}

/// Numbers below a thousand, and no others, have up to three digits.
proof fn lemma_decimal_size(n: nat)
    ensures
        n < 1000 ==> decimal(n).len() <= 3,
        n >= 1000 ==> decimal(n).len() >= 4,
{
    reveal_with_fuel(decimal, 5);
}

/// A snake case name is shown in words: an underscore becomes a blank, a letter
/// at the start or after an underscore its capital, any other stays.
pub proof fn names_are_shown_in_words(s: &str, t: &str, c: char, shown: String, more: String)
    requires
        call_ensures(capitalize_snake, (s,), shown),
        call_ensures(capitalize_snake, (t,), more),
        t@ == s@.push(c),
    ensures
        s@.len() == 0 ==> shown@.len() == 0,
        c == '_' ==> more@ == shown@.push(' '),
        c != '_' && (s@.len() == 0 || s@.last() == '_') ==> more@ == shown@ + uppercase_of(c),
        c != '_' && s@.len() > 0 && s@.last() != '_' ==> more@ == shown@.push(c),
{
    assert(t@.drop_last() =~= s@);
}

/// A factor is stored under its name, with its tables, rows or count.
pub proof fn factors_are_stored_with_what_they_tell(
    factors: &[RiskFactor],
    r: Vec<Json>,
    k: int,
)
    requires
        call_ensures(serialize_factors, (factors,), r),
        0 <= k < factors@.len(),
    ensures
        r@.len() == factors@.len(),
        r@[k]@ is Object,
        factors@[k] is ReadOnly ==> r@[k]@.at("name"@) == JsonTree::Text("read_only"@),
        factors@[k] is SafeDdl ==> r@[k]@.at("name"@) == JsonTree::Text("safe_ddl"@),
        factors@[k] is DropOperation ==> r@[k]@.at("name"@) == JsonTree::Text("drop_operation"@),
        factors@[k] is MultiStatement ==> r@[k]@.at("name"@) == JsonTree::Text("multi_statement"@),
        factors@[k] is SchemaNotSynced ==> r@[k]@.at("name"@) == JsonTree::Text(
            "schema_not_synced"@,
        ),
        factors@[k] matches RiskFactor::LargeTable { rows } ==> r@[k]@.at("name"@)
            == JsonTree::Text("large_table"@) && r@[k]@.at("rows"@) == JsonTree::Number(
            int_number(rows),
        ),
        factors@[k] matches RiskFactor::ManyWarnings { count } ==> r@[k]@.at("name"@)
            == JsonTree::Text("many_warnings"@) && r@[k]@.at("count"@) == JsonTree::Number(
            uint_number(count),
        ),
        factors@[k] matches RiskFactor::CascadeDelete { targets } ==> r@[k]@.at("name"@)
            == JsonTree::Text("cascade_delete"@) && r@[k]@.at("targets"@) == JsonTree::Array(
            text_trees(texts(targets@)),
        ),
{
    lemma_names();
    assert(r@[k]@ == factors@[k].tree());
}

/// Older factors are told by their names; what is not known is shown as it is.
pub proof fn older_factors_are_told_by_their_names(s: &str, r: String)
    requires
        call_ensures(format_legacy_factor, (s,), r),
    ensures
        s@ == "DropOperation"@ ==> r@ == "DROP/TRUNCATE operation"@,
        s@ == "MultiStatement"@ ==> r@ == "Multiple DML statements"@,
        s@ == "SchemaNotSynced"@ ==> r@ == "Schema not available"@,
        s@ == "ReadOnly"@ ==> r@ == "Read-only query"@,
        s@ == "SafeDdl"@ ==> r@ == "Safe DDL operation"@,
        !has_prefix(s@, "CascadeDelete"@) && !has_prefix(s@, "LargeTable"@) && !has_prefix(
            s@,
            "ManyWarnings"@,
        ) && s@ != "DropOperation"@ && s@ != "MultiStatement"@ && s@ != "SchemaNotSynced"@ && s@
            != "ReadOnly"@ && s@ != "SafeDdl"@ ==> r@ == s@,
        forall|rows: nat|
            rows <= i64::MAX && s@ == "LargeTable { rows: "@ + #[trigger] decimal(rows) + " }"@
                ==> r@ == "Large table: "@ + number_text(rows as int) + " rows"@,
        forall|count: nat|
            count <= u64::MAX && s@ == "ManyWarnings { count: "@ + #[trigger] decimal(count) + " }"@
                ==> r@ == decimal(count) + " review warnings"@,
{
    lemma_old_words();
    assert forall|rows: nat|
        rows <= i64::MAX && s@ == "LargeTable { rows: "@ + #[trigger] decimal(rows)
            + " }"@ implies r@ == "Large table: "@ + number_text(rows as int) + " rows"@ by {
        lemma_old_rows(rows);
    }
    assert forall|count: nat|
        count <= u64::MAX && s@ == "ManyWarnings { count: "@ + #[trigger] decimal(count)
            + " }"@ implies r@ == decimal(count) + " review warnings"@ by {
        lemma_old_count(count);
    }
}

/// Factors go by their names.
pub proof fn factors_go_by_their_names(f: RiskFactor, r: &'static str)
    requires
        call_ensures(RiskFactor::name, (&f,), r),
    ensures
        f is ReadOnly ==> r@ == "read_only"@,
        f is SafeDdl ==> r@ == "safe_ddl"@,
        f is DropOperation ==> r@ == "drop_operation"@,
        f is MultiStatement ==> r@ == "multi_statement"@,
        f is SchemaNotSynced ==> r@ == "schema_not_synced"@,
        f is CascadeDelete ==> r@ == "cascade_delete"@,
        f is LargeTable ==> r@ == "large_table"@,
        f is ManyWarnings ==> r@ == "many_warnings"@,
{
}

} // verus!
