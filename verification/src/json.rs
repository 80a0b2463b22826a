//! What the library takes from `serde_json`: looking into a parsed value, and writing a string
//! as JSON.

use serde_json::Value;
use vstd::prelude::*;

verus! {

/// A parsed JSON value. What is inside is told by [`json_object`], [`json_array`], [`json_str`]
/// and [`json_i64`].
#[verifier::external_type_specification]
#[verifier::external_body]
pub struct ExValue(serde_json::Value);

/// The members of a value that is an object; none for any other value.
pub uninterp spec fn json_object(v: Value) -> Option<Map<Seq<char>, Value>>;

/// The elements of a value that is an array; none for any other value.
pub uninterp spec fn json_array(v: Value) -> Option<Seq<Value>>;

/// The text of a value that is a string; none for any other value.
pub uninterp spec fn json_str(v: Value) -> Option<Seq<char>>;

/// The integer that a value is, where it is one and fits in an `i64`.
pub uninterp spec fn json_i64(v: Value) -> Option<i64>;

/// The member `key` of an object; none where the value is no object or has no such member.
pub open spec fn member(v: Value, key: Seq<char>) -> Option<Value> {
    match json_object(v) {
        Some(m) => if m.contains_key(key) {
            Some(m[key])
        } else {
            None
        },
        None => None,
    }
}

/// `Value::as_array` gives the elements of an array, and nothing for any other value.
pub assume_specification[ serde_json::Value::as_array ](v: &serde_json::Value) -> (r: Option<
    &Vec<serde_json::Value>,
>)
    ensures
        match r {
            Some(list) => json_array(*v) == Some(list@),
            None => json_array(*v) is None,
        },
;

/// `Value::as_str` gives the text of a string, and nothing for any other value.
pub assume_specification[ serde_json::Value::as_str ](v: &serde_json::Value) -> (r: Option<&str>)
    ensures
        match r {
            Some(s) => json_str(*v) == Some(s@),
            None => json_str(*v) is None,
        },
;

/// `Value::as_i64` gives the integer that the value is, where it fits in an `i64`, and nothing
/// for any other value.
pub assume_specification[ serde_json::Value::as_i64 ](v: &serde_json::Value) -> (r: Option<i64>)
    ensures
        r == json_i64(*v),
;

/// `Value::get` with a string gives the member of that name of an object, and nothing where the
/// value is no object or has no such member.
#[verifier::external_body]
pub(crate) fn get<'a>(v: &'a Value, key: &str) -> (r: Option<&'a Value>)
    ensures
        match r {
            Some(x) => member(*v, key@) == Some(*x),
            None => member(*v, key@) is None,
        },
{
    v.get(key)
}

/// Whether one key comes before another: at the first place where they differ it has the lower
/// character, or it is the beginning of the other.
pub open spec fn key_before(a: Seq<char>, b: Seq<char>) -> bool {
    ||| a.len() < b.len() && b.take(a.len() as int) == a
    ||| exists|i: int|
        0 <= i < a.len() && i < b.len() && a.take(i) == b.take(i) && (#[trigger] a[i]) < b[i]
}

/// Of two keys at most one comes before the other, so at most one of several comes first.
pub proof fn at_most_one_key_comes_first(a: Seq<char>, b: Seq<char>)
    requires
        key_before(a, b),
    ensures
        !key_before(b, a),
        a != b,
{
    if key_before(b, a) {
        if a.len() < b.len() && b.take(a.len() as int) == a {
            let i = choose|i: int|
                0 <= i < b.len() && i < a.len() && b.take(i) == a.take(i) && (#[trigger] b[i])
                    < a[i];
            assert(b.take(a.len() as int)[i] == b[i]);
        } else {
            let i = choose|i: int|
                0 <= i < a.len() && i < b.len() && a.take(i) == b.take(i) && (#[trigger] a[i])
                    < b[i];
            if b.len() < a.len() && a.take(b.len() as int) == b {
                assert(a.take(b.len() as int)[i] == a[i]);
            } else {
                let j = choose|j: int|
                    0 <= j < b.len() && j < a.len() && b.take(j) == a.take(j) && (#[trigger] b[j])
                        < a[j];
                if i < j {
                    assert(a.take(j)[i] == b.take(j)[i]);
                } else if j < i {
                    assert(a.take(i)[j] == b.take(i)[j]);
                }
            }
        }
    }
}

/// The map of an object's members. What it holds is told by [`json_members`].
#[verifier::external_type_specification]
#[verifier::external_body]
#[verifier::reject_recursive_types(K)]
#[verifier::reject_recursive_types(V)]
pub struct ExMap<K, V>(serde_json::Map<K, V>);

/// The members that a map holds.
pub uninterp spec fn json_members(m: serde_json::Map<String, Value>) -> Map<Seq<char>, Value>;

/// `Value::as_object` gives the members of an object, and nothing for any other value.
pub assume_specification[ serde_json::Value::as_object ](v: &serde_json::Value) -> (r: Option<
    &serde_json::Map<String, serde_json::Value>,
>)
    ensures
        match r {
            Some(m) => json_object(*v) == Some(json_members(*m)),
            None => json_object(*v) is None,
        },
;

/// `Map::iter` walks the members, each once; the map, a `BTreeMap` underneath, is walked by
/// ascending key.
#[verifier::external_body]
pub(crate) fn entries(m: &serde_json::Map<String, Value>) -> (r: Vec<(&String, &Value)>)
    ensures
        forall|i: int|
            0 <= i < r@.len() ==> json_members(*m).contains_key((#[trigger] r@[i]).0@)
                && json_members(*m)[r@[i].0@] == *r@[i].1,
        forall|key: Seq<char>| #[trigger]
            json_members(*m).contains_key(key) ==> exists|i: int|
                0 <= i < r@.len() && (#[trigger] r@[i]).0@ == key,
        forall|i: int, j: int|
            0 <= i < j < r@.len() ==> key_before((#[trigger] r@[i]).0@, (#[trigger] r@[j]).0@),
{
    m.iter().collect()
}

/// A word that a JSON pointer can name as it stands: neither empty nor a number, and with nothing
/// in it that a pointer escapes.
pub open spec fn plain_token(s: Seq<char>) -> bool {
    &&& s.len() > 0
    &&& 'a' <= s[0] && s[0] <= 'z'
    &&& !s.contains('/')
    &&& !s.contains('~')
}

/// The pointer to the member `inner` of the member `outer`.
pub open spec fn pointer_text(outer: Seq<char>, inner: Seq<char>) -> Seq<char> {
    seq!['/'] + outer + seq!['/'] + inner
}

/// The member `inner` of the member `outer`.
pub open spec fn inner_member(v: Value, outer: Seq<char>, inner: Seq<char>) -> Option<Value> {
    match member(v, outer) {
        Some(x) => member(x, inner),
        None => None,
    }
}

/// `Value::pointer` follows a path of members; here one of two plain words.
#[verifier::external_body]
pub(crate) fn pointer<'a>(v: &'a Value, path: &str) -> (r: Option<&'a Value>)
    requires
        exists|outer: Seq<char>, inner: Seq<char>|
            plain_token(outer) && plain_token(inner) && path@ == #[trigger] pointer_text(
                outer,
                inner,
            ),
    ensures
        forall|outer: Seq<char>, inner: Seq<char>|
            plain_token(outer) && plain_token(inner) && path@ == #[trigger] pointer_text(
                outer,
                inner,
            ) ==> match r {
                Some(x) => inner_member(*v, outer, inner) == Some(*x),
                None => inner_member(*v, outer, inner) is None,
            },
{
    v.pointer(path)
}

// ---------------------------------------------------------------- writing

/// The lower-case hexadecimal digit for `d`.
pub open spec fn hex_digit(d: int) -> char {
    if d < 10 {
        (48 + d) as char
    } else {
        (87 + d) as char
    }
}

/// How a character stands inside a JSON string.
pub open spec fn json_char(c: char) -> Seq<char> {
    let u = c as int;
    if c == '"' || c == '\\' {
        seq!['\\', c]
    } else if u == 0x08 {
        seq!['\\', 'b']
    } else if u == 0x09 {
        seq!['\\', 't']
    } else if u == 0x0A {
        seq!['\\', 'n']
    } else if u == 0x0C {
        seq!['\\', 'f']
    } else if u == 0x0D {
        seq!['\\', 'r']
    } else if u < 0x20 {
        seq!['\\', 'u', '0', '0', hex_digit(u / 16), hex_digit(u % 16)]
    } else {
        seq![c]
    }
}

/// The characters of a JSON string between its quotes.
pub open spec fn json_chars(s: Seq<char>) -> Seq<char>
    decreases s.len(),
{
    if s.len() == 0 {
        Seq::empty()
    } else {
        json_chars(s.drop_last()) + json_char(s.last())
    }
}

/// `s` as a JSON string, with its quotes.
pub open spec fn json_string(s: Seq<char>) -> Seq<char> {
    seq!['"'] + json_chars(s) + seq!['"']
}

/// The error of `serde_json`.
#[verifier::external_type_specification]
#[verifier::external_body]
pub struct ExError(serde_json::Error);

/// `serde_json::to_string` of a string writes it between quotes: quotes, backslashes and control
/// characters are escaped, everything else stands as it is. Writing to memory does not fail.
#[verifier::external_body]
pub(crate) fn write_string(s: &str) -> (r: Result<String, serde_json::Error>)
    ensures
        r is Ok,
        r->Ok_0@ == json_string(s@),
{
    serde_json::to_string(s)
}

// ---------------------------------------------------------------- laws

/// A value has a member exactly where it is an object that holds one of that name, and then it is
/// that one; a member of a member likewise.
pub proof fn members_are_those_of_the_object(v: Value, key: Seq<char>, inner: Seq<char>, x: Value)
    ensures
        member(v, key) == Some(x) <==> json_object(v) is Some && json_object(v)->0.contains_key(key)
            && json_object(v)->0[key] == x,
        inner_member(v, key, inner) == Some(x) <==> {
            &&& json_object(v) is Some
            &&& json_object(v)->0.contains_key(key)
            &&& json_object(json_object(v)->0[key]) is Some
            &&& json_object(json_object(v)->0[key])->0.contains_key(inner)
            &&& json_object(json_object(v)->0[key])->0[inner] == x
        },
{
}

/// Keys are ordered as a dictionary orders words: by the first character in which they differ, and
/// the beginning of a word before the word.
pub proof fn keys_are_ordered_as_words(
    head: Seq<char>,
    x: char,
    y: char,
    a: Seq<char>,
    b: Seq<char>,
)
    ensures
        x < y ==> key_before(head + seq![x] + a, head + seq![y] + b),
        key_before(head, head + seq![x] + a),
        !key_before(head, head),
{
    let p = head + seq![x] + a;
    let q = head + seq![y] + b;
    let n = head.len() as int;
    assert(p.take(n) =~= head);
    assert(q.take(n) =~= head);
    assert(p[n] == x && q[n] == y);
}

/// A string is written between quotes. Characters other than quotes, backslashes and control
/// characters stand for themselves.
pub proof fn plain_text_is_quoted_as_it_is(s: Seq<char>)
    requires
        forall|i: int|
            0 <= i < s.len() ==> (#[trigger] s[i]) as int >= 0x20 && s[i] != '"' && s[i] != '\\',
    ensures
        json_string(s) == seq!['"'] + s + seq!['"'],
    decreases s.len(),
{
    lemma_plain_chars(s);
}

proof fn lemma_plain_chars(s: Seq<char>)
    requires
        forall|i: int|
            0 <= i < s.len() ==> (#[trigger] s[i]) as int >= 0x20 && s[i] != '"' && s[i] != '\\',
    ensures
        json_chars(s) == s,
    decreases s.len(),
{
    if s.len() > 0 {
        let early = s.drop_last();
        assert forall|i: int| 0 <= i < early.len() implies (#[trigger] early[i]) as int >= 0x20
            && early[i] != '"' && early[i] != '\\' by {
            assert(early[i] == s[i]);
        }
        lemma_plain_chars(early);
        assert(s[s.len() - 1] == s.last());
        assert(json_chars(s) =~= s);
    } else {
        assert(json_chars(s) =~= s);
    }
}

/// A string is written character by character, and the characters that cannot stand for
/// themselves are escaped: quotes and backslashes by a backslash before them, control characters
/// by a letter or by their number in four hexadecimal digits.
pub proof fn text_is_escaped_by_character(a: Seq<char>, b: Seq<char>, c: char)
    ensures
        json_string(a).len() >= 2,
        json_string(a)[0] == '"',
        json_string(a).last() == '"',
        json_string(a).subrange(1, json_string(a).len() - 1) == json_chars(a),
        json_chars(a + b) == json_chars(a) + json_chars(b),
        json_chars(seq!['"']) == seq!['\\', '"'],
        json_chars(seq!['\\']) == seq!['\\', '\\'],
        json_chars(seq!['\u{8}']) == seq!['\\', 'b'],
        json_chars(seq!['\u{9}']) == seq!['\\', 't'],
        json_chars(seq!['\u{A}']) == seq!['\\', 'n'],
        json_chars(seq!['\u{C}']) == seq!['\\', 'f'],
        json_chars(seq!['\u{D}']) == seq!['\\', 'r'],
        (c as int) < 0x20 && c != '\u{8}' && c != '\u{9}' && c != '\u{A}' && c != '\u{C}' && c
            != '\u{D}' ==> {
            let low = c as int % 16;
            json_chars(seq![c]) == seq![
                '\\',
                'u',
                '0',
                '0',
                if c as int >= 16 {
                    '1'
                } else {
                    '0'
                },
                (if low < 10 {
                    low + 48
                } else {
                    low + 87
                }) as char,
            ]
        },
{
    assert(json_string(a).subrange(1, json_string(a).len() - 1) =~= json_chars(a));
    lemma_chars_join(a, b);
    lemma_char_alone('"');
    lemma_char_alone('\\');
    lemma_char_alone('\u{8}');
    lemma_char_alone('\u{9}');
    lemma_char_alone('\u{A}');
    lemma_char_alone('\u{C}');
    lemma_char_alone('\u{D}');
    lemma_char_alone(c);
}

proof fn lemma_char_alone(c: char)
    ensures
        json_chars(seq![c]) == json_char(c),
{
    assert(seq![c].drop_last() =~= Seq::<char>::empty());
    assert(json_chars(Seq::<char>::empty()) =~= Seq::<char>::empty());
    assert(json_chars(seq![c]) =~= json_char(c));
}

proof fn lemma_chars_join(a: Seq<char>, b: Seq<char>)
    ensures
        json_chars(a + b) == json_chars(a) + json_chars(b),
    decreases b.len(),
{
    if b.len() == 0 {
        assert(a + b =~= a);
        assert(json_chars(b) =~= Seq::<char>::empty());
        assert(json_chars(a) + json_chars(b) =~= json_chars(a));
    } else {
        lemma_chars_join(a, b.drop_last());
        assert((a + b).drop_last() =~= a + b.drop_last());
        assert(json_chars(a + b) =~= json_chars(a) + json_chars(b));
    }
}

} // verus!
