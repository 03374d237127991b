//! Text: lengths, comparison, joining, searching and decimal numbers.
//!
//! A `String` is seen as the sequence of its characters; its size in bytes is
//! the length of its UTF-8 encoding.

use vstd::prelude::*;
use vstd::utf8::*;

verus! {

broadcast use vstd::seq_lib::group_seq_properties;

/// `String::push` appends one character.
pub assume_specification[ String::push ](s: &mut String, ch: char)
    ensures
        final(s)@ == old(s)@.push(ch),
;

/// The number of bytes of the UTF-8 encoding of `s`.
pub open spec fn utf8_len(s: Seq<char>) -> nat {
    encode_utf8(s).len()
}

/// The size of `s` in bytes.
pub fn byte_len(s: &str) -> (n: usize)
    ensures
        n == utf8_len(s@),
{
    s.as_bytes().len()
}

/// Whether two texts hold the same characters.
pub fn same_text(a: &str, b: &str) -> (r: bool)
    ensures
        r == (a@ == b@),
{
    let x = a.as_bytes();
    let y = b.as_bytes();
    if x.len() != y.len() {
        return false;
    }
    let n: usize = x.len();
    let mut i: usize = 0;
    while i < n
        invariant
            i <= n,
            n == x@.len(),
            n == y@.len(),
            x@ == encode_utf8(a@),
            y@ == encode_utf8(b@),
            forall|k: int| 0 <= k < i ==> x@[k] == y@[k],
        decreases n - i,
    {
        if x[i] != y[i] {
            return false;
        }
        i += 1;
    }
    proof {
        assert(encode_utf8(a@) =~= encode_utf8(b@));
        encode_utf8_decode_utf8(a@);
        encode_utf8_decode_utf8(b@);
    }
    true
}

/// Whether an optional text is present and equal to `b`.
pub fn is_text(a: &Option<String>, b: &str) -> (r: bool)
    ensures
        r == (a is Some && a->0@ == b@),
{
    match a {
        Some(s) => same_text(s.as_str(), b),
        None => false,
    }
}

/// The characters of `s`.
pub fn chars_of(s: &str) -> (r: Vec<char>)
    ensures
        r@ == s@,
{
    let mut out: Vec<char> = Vec::new();
    for c in it: s.chars()
        invariant
            it.seq() == s@,
            out@ == s@.take(it.index()),
    {
        out.push(c);
        assert(out@ =~= s@.take(it.index() + 1));
    }
    assert(s@.take(s@.len() as int) =~= s@);
    out
}

/// The text made of the characters `from..to` of `cs`.
pub fn text_of(cs: &Vec<char>, from: usize, to: usize) -> (r: String)
    requires
        from <= to <= cs@.len(),
    ensures
        r@ == cs@.subrange(from as int, to as int),
{
    let mut out = String::new();
    let mut i: usize = from;
    while i < to
        invariant
            from <= i <= to <= cs@.len(),
            out@ == cs@.subrange(from as int, i as int),
        decreases to - i,
    {
        out.push(cs[i]);
        i += 1;
        assert(out@ =~= cs@.subrange(from as int, i as int));
    }
    out
}

/// The views of a sequence of strings.
pub open spec fn texts(v: Seq<String>) -> Seq<Seq<char>> {
    v.map_values(|s: String| s@)
}

/// The parts in order, with `sep` between each two.
pub open spec fn join(parts: Seq<Seq<char>>, sep: Seq<char>) -> Seq<char>
    decreases parts.len(),
{
    if parts.len() == 0 {
        Seq::empty()
    } else if parts.len() == 1 {
        parts[0]
    } else {
        join(parts.drop_last(), sep) + sep + parts.last()
    }
}

/// Concatenates the parts with `sep` between each two.
pub fn join_texts(parts: &Vec<String>, sep: &str) -> (r: String)
    ensures
        r@ == join(texts(parts@), sep@),
{
    let mut out = String::new();
    let n: usize = parts.len();
    let mut i: usize = 0;
    while i < n
        invariant
            i <= n,
            n == parts@.len(),
            out@ == join(texts(parts@.take(i as int)), sep@),
        decreases n - i,
    {
        if i > 0 {
            out.append(sep);
        }
        out.append(parts[i].as_str());
        proof {
            let before = texts(parts@.take(i as int));
            let after = texts(parts@.take(i + 1));
            assert(after.drop_last() =~= before);
            assert(after.last() == parts@[i as int]@);
            if i == 0 {
                assert(before =~= Seq::empty());
                assert(Seq::<char>::empty() + parts@[0]@ =~= parts@[0]@);
            }
        }
        i += 1;
    }
    assert(parts@.take(n as int) =~= parts@);
    out
}

/// Whether `needle` occurs in `hay` at position `i`.
pub open spec fn occurs_at(hay: Seq<char>, needle: Seq<char>, i: int) -> bool {
    0 <= i && i + needle.len() <= hay.len() && hay.subrange(i, i + needle.len()) == needle
}

/// Whether `needle` occurs somewhere in `hay`.
pub open spec fn contains_seq(hay: Seq<char>, needle: Seq<char>) -> bool {
    exists|i: int| occurs_at(hay, needle, i)
}

/// Whether the characters of `needle` stand in `hay` from position `at` on.
pub fn matches_at(hay: &Vec<char>, needle: &Vec<char>, at: usize) -> (r: bool)
    requires
        at <= hay@.len(),
    ensures
        r == occurs_at(hay@, needle@, at as int),
{
    if needle.len() > hay.len() - at {
        return false;
    }
    let n: usize = needle.len();
    let m: usize = hay.len();
    let mut k: usize = 0;
    while k < n
        invariant
            k <= n,
            n == needle@.len(),
            m == hay@.len(),
            at + n <= m,
            forall|j: int| 0 <= j < k ==> hay@[at + j] == needle@[j],
        decreases n - k,
    {
        if hay[at + k] != needle[k] {
            assert(hay@.subrange(at as int, at + n)[k as int] != needle@[k as int]);
            return false;
        }
        k += 1;
    }
    assert(hay@.subrange(at as int, at + n) =~= needle@);
    true
}

/// The first position of `needle` in `hay` from `from` on.
pub fn find_from(hay: &Vec<char>, needle: &Vec<char>, from: usize) -> (r: Option<usize>)
    requires
        from <= hay@.len(),
    ensures
        match r {
            Some(i) => from <= i && occurs_at(hay@, needle@, i as int) && forall|j: int|
                from <= j < i ==> !occurs_at(hay@, needle@, j),
            None => forall|j: int| from <= j ==> !occurs_at(hay@, needle@, j),
        },
{
    let n: usize = hay.len();
    let mut i: usize = from;
    loop
        invariant
            from <= i <= n,
            n == hay@.len(),
            forall|j: int| from <= j < i ==> !occurs_at(hay@, needle@, j),
        decreases n - i,
    {
        if matches_at(hay, needle, i) {
            return Some(i);
        }
        if i == n {
            return None;
        }
        i += 1;
    }
}

/// Whether `needle` occurs in `hay`.
pub fn contains_text(hay: &str, needle: &str) -> (r: bool)
    ensures
        r == contains_seq(hay@, needle@),
{
    let h = chars_of(hay);
    let n = chars_of(needle);
    match find_from(&h, &n, 0) {
        Some(i) => {
            assert(occurs_at(hay@, needle@, i as int));
            true
        },
        None => false,
    }
}

/// Whether `s` begins with `prefix`.
pub open spec fn has_prefix(s: Seq<char>, prefix: Seq<char>) -> bool {
    occurs_at(s, prefix, 0)
}

/// Whether `s` begins with `prefix`.
pub fn starts_with(s: &str, prefix: &str) -> (r: bool)
    ensures
        r == has_prefix(s@, prefix@),
{
    let h = chars_of(s);
    let p = chars_of(prefix);
    matches_at(&h, &p, 0)
}

/// The decimal digit `d`.
pub open spec fn digit(d: nat) -> char {
    (('0' as u32) + d) as char
}

/// The decimal digits of `n`, without leading zeros.
pub open spec fn decimal(n: nat) -> Seq<char>
    decreases n,
{
    if n < 10 {
        seq![digit(n)]
    } else {
        decimal(n / 10).push(digit(n % 10))
    }
}

/// A decimal notation is not empty and holds digits only.
pub proof fn lemma_decimal_digits(n: nat)
    ensures
        decimal(n).len() > 0,
        forall|i: int| 0 <= i < decimal(n).len() ==> '0' <= #[trigger] decimal(n)[i] <= '9',
    decreases n,
{
    if n >= 10 {
        lemma_decimal_digits(n / 10);
    }
}

/// The digit `d`.
pub fn digit_char(d: u64) -> (c: char)
    requires
        d < 10,
    ensures
        c == digit(d as nat),
{
    let b: u8 = 48u8 + d as u8;
    b as char
}

/// The digits of `n`, most significant first.
pub fn decimal_digits(n: u64) -> (r: Vec<char>)
    ensures
        r@ == decimal(n as nat),
    decreases n,
{
    if n < 10 {
        let mut v: Vec<char> = Vec::new();
        v.push(digit_char(n));
        assert(v@ =~= decimal(n as nat));
        v
    } else {
        let mut v = decimal_digits(n / 10);
        v.push(digit_char(n % 10));
        v
    }
}

/// The decimal notation of `n`.
pub fn decimal_text(n: u64) -> (r: String)
    ensures
        r@ == decimal(n as nat),
{
    let v = decimal_digits(n);
    let r = text_of(&v, 0, v.len());
    assert(v@.subrange(0, v@.len() as int) =~= v@);
    r
}

/// Two texts one after the other.
pub fn concat2(a: &str, b: &str) -> (r: String)
    ensures
        r@ == a@ + b@,
{
    let mut out = a.to_string();
    out.append(b);
    out
}

/// Three texts one after the other.
pub fn concat3(a: &str, b: &str, c: &str) -> (r: String)
    ensures
        r@ == a@ + b@ + c@,
{
    let mut out = a.to_string();
    out.append(b);
    out.append(c);
    out
}

/// Four texts one after the other.
pub fn concat4(a: &str, b: &str, c: &str, d: &str) -> (r: String)
    ensures
        r@ == a@ + b@ + c@ + d@,
{
    let mut out = a.to_string();
    out.append(b);
    out.append(c);
    out.append(d);
    out
}

/// Five texts one after the other.
pub fn concat5(a: &str, b: &str, c: &str, d: &str, e: &str) -> (r: String)
    ensures
        r@ == a@ + b@ + c@ + d@ + e@,
{
    let mut out = a.to_string();
    out.append(b);
    out.append(c);
    out.append(d);
    out.append(e);
    out
}

/// A copy of the strings in order.
pub fn copy_texts(v: &Vec<String>) -> (r: Vec<String>)
    ensures
        r@ == v@,
{
    let r = v.clone();
    assert(r@ =~= v@);
    r
}

/// Whether some string of `v` holds the characters of `s`.
pub open spec fn holds_text(v: Seq<String>, s: Seq<char>) -> bool {
    exists|i: int| 0 <= i < v.len() && (#[trigger] v[i])@ == s
}

/// Holding a text is having it among the texts.
pub proof fn lemma_holds_text(v: Seq<String>, s: Seq<char>)
    ensures
        holds_text(v, s) == texts(v).contains(s),
{
    if holds_text(v, s) {
        let i = choose|i: int| 0 <= i < v.len() && (#[trigger] v[i])@ == s;
        assert(texts(v)[i] == s);
    }
    if texts(v).contains(s) {
        let i = choose|i: int| 0 <= i < texts(v).len() && texts(v)[i] == s;
        assert(v[i]@ == s);
    }
}

/// Whether some string of `v` equals `s`.
pub fn list_holds(v: &Vec<String>, s: &str) -> (r: bool)
    ensures
        r == holds_text(v@, s@),
{
    let n: usize = v.len();
    let mut i: usize = 0;
    while i < n
        invariant
            i <= n,
            n == v@.len(),
            forall|k: int| 0 <= k < i ==> (#[trigger] v@[k])@ != s@,
        decreases n - i,
    {
        if same_text(v[i].as_str(), s) {
            assert(v@[i as int]@ == s@);
            return true;
        }
        i += 1;
    }
    false
}

/// The lower-case form of a text.
pub uninterp spec fn lowercase(s: Seq<char>) -> Seq<char>;

/// Whether every character is an ASCII character.
pub open spec fn all_ascii(s: Seq<char>) -> bool {
    forall|i: int| 0 <= i < s.len() ==> (#[trigger] s[i] as u32) < 0x80
}

/// `str::to_lowercase`: the Unicode lower-case form, a function of the text. In
/// an ASCII text the capitals are made small and nothing else changes.
#[verifier::external_body]
pub(crate) fn to_lowercase(s: &str) -> (r: String)
    ensures
        r@ == lowercase(s@),
        all_ascii(s@) ==> r@ == s@.map_values(|c: char| ascii_lower(c)),
{
    s.to_lowercase()
}

/// Lexicographic order by code point.
pub open spec fn lex_lt(a: Seq<char>, b: Seq<char>) -> bool
    decreases a.len(),
{
    if b.len() == 0 {
        false
    } else if a.len() == 0 {
        true
    } else if a[0] != b[0] {
        a[0] < b[0]
    } else {
        lex_lt(a.drop_first(), b.drop_first())
    }
}

/// The order is transitive.
pub proof fn lemma_lex_trans(a: Seq<char>, b: Seq<char>, c: Seq<char>)
    requires
        lex_lt(a, b),
        lex_lt(b, c),
    ensures
        lex_lt(a, c),
    decreases a.len(),
{
    if a.len() > 0 && a[0] == b[0] && b[0] == c[0] {
        lemma_lex_trans(a.drop_first(), b.drop_first(), c.drop_first());
    }
}

/// The order is irreflexive.
pub proof fn lemma_lex_irreflexive(a: Seq<char>)
    ensures
        !lex_lt(a, a),
    decreases a.len(),
{
    if a.len() > 0 {
        lemma_lex_irreflexive(a.drop_first());
    }
}

/// The order is total.
pub proof fn lemma_lex_total(a: Seq<char>, b: Seq<char>)
    ensures
        lex_lt(a, b) || a == b || lex_lt(b, a),
    decreases a.len(),
{
    if a.len() > 0 && b.len() > 0 {
        if a[0] == b[0] {
            lemma_lex_total(a.drop_first(), b.drop_first());
            if a.drop_first() == b.drop_first() {
                assert(a =~= seq![a[0]] + a.drop_first());
                assert(b =~= seq![b[0]] + b.drop_first());
            }
        }
    } else if a.len() == 0 && b.len() == 0 {
        assert(a =~= b);
    }
}

/// Whether `a` comes before `b` in lexicographic order by code point.
pub fn lex_less(a: &str, b: &str) -> (r: bool)
    ensures
        r == lex_lt(a@, b@),
{
    let x = chars_of(a);
    let y = chars_of(b);
    let mut i: usize = 0;
    assert(x@.skip(0) =~= x@);
    assert(y@.skip(0) =~= y@);
    loop
        invariant
            i <= x@.len(),
            i <= y@.len(),
            x@ == a@,
            y@ == b@,
            lex_lt(a@, b@) == lex_lt(x@.skip(i as int), y@.skip(i as int)),
        decreases x@.len() - i,
    {
        if i >= y.len() {
            return false;
        }
        if i >= x.len() {
            return true;
        }
        if x[i] != y[i] {
            return x[i] < y[i];
        }
        proof {
            assert(x@.skip(i as int).drop_first() =~= x@.skip(i + 1));
            assert(y@.skip(i as int).drop_first() =~= y@.skip(i + 1));
        }
        i += 1;
    }
}

/// `c` with ASCII capitals made small.
pub open spec fn ascii_lower(c: char) -> char {
    if 'A' <= c <= 'Z' {
        ((c as u32) + 32) as char
    } else {
        c
    }
}

/// Whether two texts agree up to the case of ASCII letters.
pub open spec fn same_ignoring_case(a: Seq<char>, b: Seq<char>) -> bool {
    a.len() == b.len() && forall|i: int|
        0 <= i < a.len() ==> ascii_lower(#[trigger] a[i]) == ascii_lower(b[i])
}

fn lower_char(c: char) -> (r: char)
    ensures
        r == ascii_lower(c),
{
    if 'A' <= c && c <= 'Z' {
        ((c as u8) + 32u8) as char
    } else {
        c
    }
}

/// Whether two texts agree up to the case of ASCII letters.
pub fn eq_ignore_case(a: &str, b: &str) -> (r: bool)
    ensures
        r == same_ignoring_case(a@, b@),
{
    let x = chars_of(a);
    let y = chars_of(b);
    if x.len() != y.len() {
        return false;
    }
    let n: usize = x.len();
    let mut i: usize = 0;
    while i < n
        invariant
            i <= n,
            n == x@.len(),
            n == y@.len(),
            x@ == a@,
            y@ == b@,
            forall|k: int| 0 <= k < i ==> ascii_lower(#[trigger] a@[k]) == ascii_lower(b@[k]),
        decreases n - i,
    {
        if lower_char(x[i]) != lower_char(y[i]) {
            assert(ascii_lower(a@[i as int]) != ascii_lower(b@[i as int]));
            return false;
        }
        i += 1;
    }
    true
}

/// The last character boundary of `bytes` at or before `max`.
pub open spec fn boundary(bytes: Seq<u8>, max: nat) -> nat
    decreases max,
{
    if max >= bytes.len() {
        bytes.len()
    } else if max == 0 || is_char_boundary(bytes, max as int) {
        max
    } else {
        boundary(bytes, (max - 1) as nat)
    }
}

/// The longest beginning of `s` that takes at most `max` bytes.
pub open spec fn truncated(s: Seq<char>, max: nat) -> Seq<char> {
    let bytes = encode_utf8(s);
    decode_utf8(bytes.subrange(0, boundary(bytes, max) as int))
}

/// The longest beginning of `s` that takes at most `max_bytes` bytes, cut
/// between characters.
pub fn truncate_utf8(s: &str, max_bytes: usize) -> (r: &str)
    ensures
        r@ == truncated(s@, max_bytes as nat),
{
    let ghost bytes = encode_utf8(s@);
    let size: usize = byte_len(s);
    if size <= max_bytes {
        proof {
            assert(bytes.subrange(0, bytes.len() as int) =~= bytes);
            encode_utf8_decode_utf8(s@);
        }
        return s;
    }
    let mut end: usize = max_bytes;
    while end > 0 && !s.is_char_boundary(end)
        invariant
            end <= max_bytes,
            max_bytes < bytes.len(),
            bytes == encode_utf8(s@),
            boundary(bytes, max_bytes as nat) == boundary(bytes, end as nat),
        decreases end,
    {
        end -= 1;
    }
    proof {
        encode_utf8_valid_utf8(s@);
        is_char_boundary_start_end_of_seq(bytes);
    }
    let (head, _tail) = s.split_at(end);
    proof {
        assert(encode_utf8(head@) =~= bytes.subrange(0, end as int));
        encode_utf8_decode_utf8(head@);
    }
    head
}

/// The boundary is a boundary within the limit, and none lies between.
proof fn lemma_boundary(bytes: Seq<u8>, max: nat)
    requires
        valid_utf8(bytes),
    ensures
        boundary(bytes, max) <= max || boundary(bytes, max) == bytes.len() && bytes.len() <= max,
        boundary(bytes, max) <= bytes.len(),
        is_char_boundary(bytes, boundary(bytes, max) as int),
        forall|e: int|
            boundary(bytes, max) < e <= max && e <= bytes.len() ==> !#[trigger] is_char_boundary(
                bytes,
                e,
            ),
    decreases max,
{
    is_char_boundary_start_end_of_seq(bytes);
    if max < bytes.len() && max > 0 && !is_char_boundary(bytes, max as int) {
        lemma_boundary(bytes, (max - 1) as nat);
    }
}

/// A truncated text is a beginning of the text, fits the limit, and is the
/// whole text where that fits already.
pub proof fn truncation_is_prefix(s: Seq<char>, max: nat)
    ensures
        truncated(s, max).len() <= s.len(),
        s.take(truncated(s, max).len() as int) == truncated(s, max),
        utf8_len(truncated(s, max)) <= max,
        utf8_len(s) <= max ==> truncated(s, max) == s,
{
    let bytes = encode_utf8(s);
    let b = boundary(bytes, max) as int;
    encode_utf8_valid_utf8(s);
    encode_utf8_decode_utf8(s);
    lemma_boundary(bytes, max);
    decode_utf8_split(bytes, b);
    valid_utf8_split(bytes, b);
    decode_utf8_encode_utf8(bytes.subrange(0, b));
    let t = truncated(s, max);
    let rest = decode_utf8(bytes.subrange(b, bytes.len() as int));
    assert(s =~= t + rest);
    assert(s.take(t.len() as int) =~= t);
    if utf8_len(s) <= max {
        assert(bytes.subrange(0, b) =~= bytes);
    }
}

/// The text of bytes that may not be UTF-8.
pub uninterp spec fn lossy_text(bytes: Seq<u8>) -> Seq<char>;

/// `String::from_utf8_lossy`: bytes that are UTF-8 give the text they encode;
/// what other bytes give depends on the bytes alone.
#[verifier::external_body]
pub(crate) fn utf8_lossy(bytes: &Vec<u8>) -> (r: String)
    ensures
        r@ == lossy_text(bytes@),
        valid_utf8(bytes@) ==> r@ == decode_utf8(bytes@),
{
    String::from_utf8_lossy(bytes).into_owned()
}

/// The bytes of a text.
pub fn bytes_of(s: &str) -> (r: Vec<u8>)
    ensures
        r@ == encode_utf8(s@),
{
    vstd::slice::slice_to_vec(s.as_bytes())
}

/// What follows `prefix` in `s`, if `s` begins with it.
pub fn strip_prefix(s: &str, prefix: &str) -> (r: Option<String>)
    ensures
        match r {
            Some(t) => has_prefix(s@, prefix@) && t@ == s@.skip(prefix@.len() as int),
            None => !has_prefix(s@, prefix@),
        },
{
    let h = chars_of(s);
    let p = chars_of(prefix);
    if matches_at(&h, &p, 0) {
        let r = text_of(&h, p.len(), h.len());
        assert(h@.subrange(p@.len() as int, h@.len() as int) =~= s@.skip(prefix@.len() as int));
        Some(r)
    } else {
        None
    }
}

/// The first place of `c` in `s` from `i` on.
pub open spec fn first_char(s: Seq<char>, c: char, i: int) -> Option<int>
    decreases s.len() - i,
{
    if i < 0 || i >= s.len() {
        None
    } else if s[i] == c {
        Some(i)
    } else {
        first_char(s, c, i + 1)
    }
}

/// The first place of `c` in `s`.
pub fn find_char(s: &Vec<char>, c: char) -> (r: Option<usize>)
    ensures
        match r {
            Some(i) => first_char(s@, c, 0) == Some(i as int) && i < s@.len(),
            None => first_char(s@, c, 0) is None,
        },
{
    let n: usize = s.len();
    let mut i: usize = 0;
    while i < n
        invariant
            i <= n,
            n == s@.len(),
            first_char(s@, c, 0) == first_char(s@, c, i as int),
        decreases n - i,
    {
        if s[i] == c {
            return Some(i);
        }
        i += 1;
    }
    None
}

/// The last place of `c` in `s` before `i`.
pub open spec fn last_char(s: Seq<char>, c: char, i: int) -> Option<int>
    decreases i,
{
    if i <= 0 || i > s.len() {
        None
    } else if s[i - 1] == c {
        Some(i - 1)
    } else {
        last_char(s, c, i - 1)
    }
}

/// The last place of `c` in `s`.
pub fn find_last_char(s: &Vec<char>, c: char) -> (r: Option<usize>)
    ensures
        match r {
            Some(i) => last_char(s@, c, s@.len() as int) == Some(i as int) && i < s@.len(),
            None => last_char(s@, c, s@.len() as int) is None,
        },
{
    let n: usize = s.len();
    let mut i: usize = n;
    while i > 0
        invariant
            i <= n,
            n == s@.len(),
            last_char(s@, c, n as int) == last_char(s@, c, i as int),
        decreases i,
    {
        if s[i - 1] == c {
            return Some(i - 1);
        }
        i -= 1;
    }
    None
}

/// The first place where `needle` occurs in `hay` from `i` on.
pub open spec fn first_occurrence(hay: Seq<char>, needle: Seq<char>, i: int) -> Option<int>
    decreases hay.len() - i + 1,
{
    if i < 0 || i > hay.len() {
        None
    } else if occurs_at(hay, needle, i) {
        Some(i)
    } else {
        first_occurrence(hay, needle, i + 1)
    }
}

/// The first place where `needle` occurs in `hay`.
pub fn find_text(hay: &Vec<char>, needle: &Vec<char>) -> (r: Option<usize>)
    ensures
        match r {
            Some(i) => first_occurrence(hay@, needle@, 0) == Some(i as int) && occurs_at(
                hay@,
                needle@,
                i as int,
            ),
            None => first_occurrence(hay@, needle@, 0) is None,
        },
{
    let n: usize = hay.len();
    let mut i: usize = 0;
    loop
        invariant
            i <= n,
            n == hay@.len(),
            first_occurrence(hay@, needle@, 0) == first_occurrence(hay@, needle@, i as int),
        decreases n - i,
    {
        if matches_at(hay, needle, i) {
            return Some(i);
        }
        if i == n {
            return None;
        }
        i += 1;
    }
}

/// The parts of `s` between the separators `c`; there is always one.
pub open spec fn pieces(s: Seq<char>, c: char) -> Seq<Seq<char>>
    decreases s.len(),
{
    if s.len() == 0 {
        seq![Seq::<char>::empty()]
    } else {
        let rest = pieces(s.drop_last(), c);
        if s.last() == c {
            rest.push(Seq::<char>::empty())
        } else {
            rest.drop_last().push(rest.last().push(s.last()))
        }
    }
}

/// The parts of `s` between the separators `c`.
pub fn split_pieces(s: &Vec<char>, c: char) -> (r: Vec<String>)
    ensures
        texts(r@) == pieces(s@, c),
        r@.len() > 0,
{
    let mut done: Vec<String> = Vec::new();
    let mut cur = String::new();
    let n: usize = s.len();
    let mut i: usize = 0;
    proof {
        assert(s@.take(0) =~= Seq::<char>::empty());
        assert(cur@ =~= Seq::<char>::empty());
        assert(texts(done@).push(cur@) =~= pieces(s@.take(0), c));
    }
    while i < n
        invariant
            i <= n,
            n == s@.len(),
            pieces(s@.take(i as int), c) == texts(done@).push(cur@),
        decreases n - i,
    {
        let ghost before = texts(done@).push(cur@);
        proof {
            assert(s@.take(i + 1).drop_last() =~= s@.take(i as int));
            assert(s@.take(i + 1).last() == s@[i as int]);
            assert(before.drop_last() =~= texts(done@));
        }
        if s[i] == c {
            done.push(cur);
            cur = String::new();
            proof {
                assert(cur@ =~= Seq::<char>::empty());
                assert(texts(done@) =~= before);
            }
        } else {
            cur.push(s[i]);
        }
        i += 1;
    }
    assert(s@.take(n as int) =~= s@);
    let ghost last = cur@;
    let ghost closed = texts(done@);
    done.push(cur);
    assert(texts(done@) =~= closed.push(last));
    done
}

/// Whether a character is white space: the Unicode property `White_Space`.
pub open spec fn white(c: char) -> bool {
    let n = c as u32;
    ||| 0x9 <= n <= 0xd
    ||| n == 0x20
    ||| n == 0x85
    ||| n == 0xa0
    ||| n == 0x1680
    ||| 0x2000 <= n <= 0x200a
    ||| n == 0x2028
    ||| n == 0x2029
    ||| n == 0x202f
    ||| n == 0x205f
    ||| n == 0x3000
}

fn is_white(c: char) -> (r: bool)
    ensures
        r == white(c),
{
    let n: u32 = c as u32;
    (0x9 <= n && n <= 0xd) || n == 0x20 || n == 0x85 || n == 0xa0 || n == 0x1680 || (0x2000 <= n
        && n <= 0x200a) || n == 0x2028 || n == 0x2029 || n == 0x202f || n == 0x205f || n == 0x3000
}

/// `c` with ASCII small letters made capitals.
pub open spec fn ascii_upper(c: char) -> char {
    if 'a' <= c <= 'z' {
        ((c as u32) - 32) as char
    } else {
        c
    }
}

/// The upper-case form of a character.
pub uninterp spec fn uppercase_of(c: char) -> Seq<char>;

/// `char::to_uppercase`: the Unicode upper-case form, which may be several
/// characters, a function of the character. An ASCII letter gives its capital,
/// any other ASCII character itself.
#[verifier::external_body]
pub(crate) fn upper_text(c: char) -> (r: String)
    ensures
        r@ == uppercase_of(c),
        (c as u32) < 0x80 ==> r@ == seq![ascii_upper(c)],
{
    c.to_uppercase().to_string()
}

/// What is taken off both ends of a text.
#[derive(Clone, Copy, Debug, PartialEq, Eq, Structural)]
pub enum Strip {
    White,
    One(char),
}

impl Strip {
    /// Whether a character is taken off.
    pub open spec fn takes(self, c: char) -> bool {
        match self {
            Strip::White => white(c),
            Strip::One(d) => c == d,
        }
    }
}

fn strip_takes(k: Strip, c: char) -> (r: bool)
    ensures
        r == k.takes(c),
{
    match k {
        Strip::White => is_white(c),
        Strip::One(d) => c == d,
    }
}

/// The place of the first character from `i` on that stays.
pub open spec fn strip_start(s: Seq<char>, k: Strip, i: int) -> int
    decreases s.len() - i,
{
    if i < 0 || i >= s.len() || !k.takes(s[i]) {
        i
    } else {
        strip_start(s, k, i + 1)
    }
}

/// The place behind the last character before `i` that stays, not below `low`.
pub open spec fn strip_end(s: Seq<char>, k: Strip, low: int, i: int) -> int
    decreases i - low,
{
    if i <= low || i > s.len() || !k.takes(s[i - 1]) {
        i
    } else {
        strip_end(s, k, low, i - 1)
    }
}

/// `s` without what is taken off both ends.
pub open spec fn stripped(s: Seq<char>, k: Strip) -> Seq<char> {
    let low = strip_start(s, k, 0);
    s.subrange(low, strip_end(s, k, low, s.len() as int))
}

/// `s` without what is taken off both ends.
pub fn strip_text(s: &str, k: Strip) -> (r: String)
    ensures
        r@ == stripped(s@, k),
{
    let cs = chars_of(s);
    let n: usize = cs.len();
    let mut low: usize = 0;
    while low < n && strip_takes(k, cs[low])
        invariant
            low <= n,
            n == cs@.len(),
            strip_start(cs@, k, 0) == strip_start(cs@, k, low as int),
        decreases n - low,
    {
        low += 1;
    }
    let mut high: usize = n;
    while high > low && strip_takes(k, cs[high - 1])
        invariant
            low <= high <= n,
            n == cs@.len(),
            strip_end(cs@, k, low as int, n as int) == strip_end(cs@, k, low as int, high as int),
        decreases high,
    {
        high -= 1;
    }
    text_of(&cs, low, high)
}

proof fn lemma_strip_start(s: Seq<char>, k: Strip, i: int, low: int)
    requires
        0 <= i <= low < s.len(),
        forall|j: int| i <= j < low ==> k.takes(#[trigger] s[j]),
        !k.takes(s[low]),
    ensures
        strip_start(s, k, i) == low,
    decreases low - i,
{
    if i < low {
        assert(k.takes(s[i]));
        lemma_strip_start(s, k, i + 1, low);
    }
}

proof fn lemma_strip_end(s: Seq<char>, k: Strip, low: int, i: int, high: int)
    requires
        0 <= low < high <= i <= s.len(),
        forall|j: int| high <= j < i ==> k.takes(#[trigger] s[j]),
        !k.takes(s[high - 1]),
    ensures
        strip_end(s, k, low, i) == high,
    decreases i - high,
{
    if high < i {
        assert(k.takes(s[i - 1]));
        lemma_strip_end(s, k, low, i - 1, high);
    }
}

/// Between what is taken off, the text from the first to the last character
/// that stays is left.
pub proof fn lemma_stripped(before: Seq<char>, kept: Seq<char>, after: Seq<char>, k: Strip)
    requires
        kept.len() > 0,
        !k.takes(kept[0]),
        !k.takes(kept.last()),
        forall|j: int| 0 <= j < before.len() ==> k.takes(#[trigger] before[j]),
        forall|j: int| 0 <= j < after.len() ==> k.takes(#[trigger] after[j]),
    ensures
        stripped(before + kept + after, k) == kept,
{
    let s = before + kept + after;
    let low = before.len() as int;
    let high = low + kept.len();
    assert(s[low] == kept[0]);
    assert(s[high - 1] == kept.last());
    assert forall|j: int| 0 <= j < low implies k.takes(#[trigger] s[j]) by {
        assert(s[j] == before[j]);
    }
    assert forall|j: int| high <= j < s.len() implies k.takes(#[trigger] s[j]) by {
        assert(s[j] == after[j - high]);
    }
    lemma_strip_start(s, k, 0, low);
    lemma_strip_end(s, k, low, s.len() as int, high);
    assert(s.subrange(low, high) =~= kept);
}

/// The first place of a character is where it stands and never stands before.
pub proof fn lemma_first_char(s: Seq<char>, c: char, i: int, p: int)
    requires
        0 <= i <= p < s.len(),
        s[p] == c,
        forall|j: int| i <= j < p ==> #[trigger] s[j] != c,
    ensures
        first_char(s, c, i) == Some(p),
    decreases p - i,
{
    if i < p {
        assert(s[i] != c);
        lemma_first_char(s, c, i + 1, p);
    }
}

/// The last place of a character is where it stands and never stands after.
pub proof fn lemma_last_char(s: Seq<char>, c: char, i: int, p: int)
    requires
        0 <= p < i <= s.len(),
        s[p] == c,
        forall|j: int| p < j < i ==> #[trigger] s[j] != c,
    ensures
        last_char(s, c, i) == Some(p),
    decreases i - p,
{
    if p < i - 1 {
        assert(s[i - 1] != c);
        lemma_last_char(s, c, i - 1, p);
    }
}

/// The first place where a text occurs is one where it does and none before.
pub proof fn lemma_first_occurrence(hay: Seq<char>, needle: Seq<char>, i: int, p: int)
    requires
        0 <= i <= p <= hay.len(),
        occurs_at(hay, needle, p),
        forall|j: int| i <= j < p ==> !#[trigger] occurs_at(hay, needle, j),
    ensures
        first_occurrence(hay, needle, i) == Some(p),
    decreases p - i,
{
    if i < p {
        assert(!occurs_at(hay, needle, i));
        lemma_first_occurrence(hay, needle, i + 1, p);
    }
}

/// A text without the separator is one piece, and makes one more behind one.
pub proof fn lemma_pieces(a: Seq<char>, b: Seq<char>, c: char)
    requires
        forall|j: int| 0 <= j < b.len() ==> #[trigger] b[j] != c,
    ensures
        pieces(b, c) == seq![b],
        pieces(a.push(c) + b, c) == pieces(a, c).push(b),
    decreases b.len(),
{
    if b.len() == 0 {
        assert(b =~= Seq::<char>::empty());
        assert(a.push(c) + b =~= a.push(c));
        assert(a.push(c).drop_last() =~= a);
        assert(pieces(a.push(c), c) == pieces(a, c).push(Seq::<char>::empty()));
    } else {
        let rest = b.drop_last();
        lemma_pieces(a, rest, c);
        let whole = a.push(c) + b;
        assert(whole.drop_last() =~= a.push(c) + rest);
        assert(whole.last() == b.last());
        assert(b.last() != c);
        assert(rest.push(b.last()) =~= b);
        assert(pieces(a, c).push(rest).drop_last() =~= pieces(a, c));
        assert(seq![rest].drop_last() =~= Seq::<Seq<char>>::empty());
        assert(pieces(b, c) =~= seq![b]);
        assert(pieces(whole, c) =~= pieces(a, c).push(b));
    }
}

/// Whether a character is a decimal digit.
pub open spec fn is_digit(c: char) -> bool {
    '0' <= c && c <= '9'
}

/// The place of the first character from `i` on that is no digit.
pub open spec fn digits_end(s: Seq<char>, i: int) -> int
    decreases s.len() - i,
{
    if i < 0 || i >= s.len() || !is_digit(s[i]) {
        i
    } else {
        digits_end(s, i + 1)
    }
}

/// The number that decimal digits denote.
pub open spec fn number(s: Seq<char>) -> nat
    decreases s.len(),
{
    if s.len() == 0 {
        0
    } else {
        number(s.drop_last()) * 10 + (s.last() as nat - '0' as nat) as nat
    }
}

/// The number that a text begins with: its leading digits, if there are any and
/// they denote at most `max`.
pub open spec fn leading_number(s: Seq<char>, max: nat) -> Option<nat> {
    let digits = s.take(digits_end(s, 0));
    if digits.len() > 0 && number(digits) <= max {
        Some(number(digits))
    } else {
        None
    }
}

/// More digits make no smaller number.
proof fn lemma_number_grows(s: Seq<char>, i: int)
    requires
        0 <= i <= s.len(),
    ensures
        number(s.take(i)) <= number(s),
    decreases s.len() - i,
{
    if i < s.len() {
        lemma_number_grows(s, i + 1);
        assert(s.take(i + 1).drop_last() =~= s.take(i));
    } else {
        assert(s.take(i) =~= s);
    }
}

/// Digits end within the text.
proof fn lemma_digits_end(s: Seq<char>, i: int)
    requires
        0 <= i <= s.len(),
    ensures
        i <= digits_end(s, i) <= s.len(),
        forall|k: int| i <= k < digits_end(s, i) ==> is_digit(#[trigger] s[k]),
    decreases s.len() - i,
{
    if i < s.len() && is_digit(s[i]) {
        lemma_digits_end(s, i + 1);
    }
}

/// The decimal notation of a number denotes it.
proof fn lemma_number_of_decimal(n: nat)
    ensures
        number(decimal(n)) == n,
    decreases n,
{
    reveal_with_fuel(number, 2);
    if n < 10 {
        assert(decimal(n).drop_last() =~= Seq::<char>::empty());
        assert(decimal(n).last() == digit(n));
    } else {
        lemma_number_of_decimal(n / 10);
        assert(decimal(n).drop_last() =~= decimal(n / 10));
        assert(decimal(n).last() == digit(n % 10));
    }
}

proof fn lemma_all_digits(s: Seq<char>, i: int, end: int)
    requires
        0 <= i <= end <= s.len(),
        forall|j: int| i <= j < end ==> is_digit(#[trigger] s[j]),
        end < s.len() ==> !is_digit(s[end]),
    ensures
        digits_end(s, i) == end,
    decreases end - i,
{
    if i < end {
        assert(is_digit(s[i]));
        lemma_all_digits(s, i + 1, end);
    }
}

/// A number is read back from its decimal notation, if no digit follows.
pub proof fn lemma_leading_decimal(n: nat, after: Seq<char>, max: nat)
    requires
        n <= max,
        after.len() > 0 ==> !is_digit(after[0]),
    ensures
        leading_number(decimal(n) + after, max) == Some(n),
{
    let d = decimal(n);
    let s = d + after;
    lemma_decimal_digits(n);
    lemma_number_of_decimal(n);
    assert forall|j: int| 0 <= j < d.len() implies is_digit(#[trigger] s[j]) by {
        assert(s[j] == d[j]);
    }
    lemma_all_digits(s, 0, d.len() as int);
    assert(s.take(d.len() as int) =~= d);
}

/// The number that a text begins with, if it has leading digits and they denote
/// at most `max`.
pub fn read_number(s: &str, max: u64) -> (r: Option<u64>)
    ensures
        match r {
            Some(v) => leading_number(s@, max as nat) == Some(v as nat),
            None => leading_number(s@, max as nat) is None,
        },
{
    let cs = chars_of(s);
    let n: usize = cs.len();
    let ghost end = digits_end(s@, 0);
    proof {
        lemma_digits_end(s@, 0);
    }
    let mut value: u64 = 0;
    let mut i: usize = 0;
    assert(s@.take(0) =~= Seq::<char>::empty());
    while i < n && '0' <= cs[i] && cs[i] <= '9'
        invariant
            i <= n,
            n == cs@.len(),
            cs@ == s@,
            end == digits_end(s@, 0),
            i <= end <= n,
            digits_end(s@, i as int) == end,
            value == number(s@.take(i as int)),
            value <= max,
        decreases n - i,
    {
        let d: u64 = (cs[i] as u32 - '0' as u32) as u64;
        proof {
            assert(is_digit(s@[i as int]));
            lemma_digits_end(s@, i + 1);
            assert(s@.take(i + 1).drop_last() =~= s@.take(i as int));
            assert(s@.take(i + 1).last() == s@[i as int]);
            assert(number(s@.take(i + 1)) == value * 10 + d);
            lemma_number_grows(s@.take(end), i + 1);
            assert(s@.take(end).take(i + 1) =~= s@.take(i + 1));
        }
        if d > max || value > (max - d) / 10 {
            return None;
        }
        value = value * 10 + d;
        i += 1;
    }
    if i == 0 {
        assert(s@.take(end).len() == 0);
        return None;
    }
    Some(value)
}

} // verus!
