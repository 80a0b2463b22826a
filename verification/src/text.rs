//! Characters and strings: decimal numbers, trimming, ASCII case, splitting.

use vstd::prelude::*;

verus! {

/// `String::push` appends one character to the end of the string.
pub assume_specification[ String::push ](s: &mut String, c: char)
    ensures
        final(s)@ == old(s)@.push(c),
;

// ---------------------------------------------------------------- contents

/// The characters of a string.
pub fn chars_of(s: &str) -> (v: Vec<char>)
    ensures
        v@ == s@,
{
    let mut v: Vec<char> = Vec::new();
    for c in it: s.chars()
        invariant
            v@ == s@.take(it.index()),
            it.seq() == s@,
    {
        v.push(c);
    }
    v
}

/// A string made of the given characters.
pub fn string_of(chars: &Vec<char>) -> (s: String)
    ensures
        s@ == chars@,
{
    let mut s = String::new();
    for i in 0..chars.len()
        invariant
            s@ == chars@.take(i as int),
    {
        s.push(chars[i]);
    }
    s
}

/// Whether two strings hold the same characters.
pub fn same(a: &str, b: &str) -> (r: bool)
    ensures
        r == (a@ == b@),
{
    a.to_owned() == b.to_owned()
}

/// The views of a list of strings.
pub open spec fn views(list: Seq<String>) -> Seq<Seq<char>> {
    list.map_values(|s: String| s@)
}

/// The views of a list of string slices.
pub open spec fn str_views(list: Seq<&'static str>) -> Seq<Seq<char>> {
    list.map_values(|s: &'static str| s@)
}

/// The view of an optional string.
pub open spec fn opt_view(s: Option<String>) -> Option<Seq<char>> {
    match s {
        Some(s) => Some(s@),
        None => None,
    }
}

/// The view of an optional string slice.
pub open spec fn opt_str_view(s: Option<&str>) -> Option<Seq<char>> {
    match s {
        Some(s) => Some(s@),
        None => None,
    }
}

/// The place of the first element equal to `x`.
pub open spec fn position<T>(list: Seq<T>, x: T) -> Option<int>
    decreases list.len(),
{
    if list.len() == 0 {
        None
    } else if list[0] == x {
        Some(0)
    } else {
        match position(list.drop_first(), x) {
            Some(i) => Some(i + 1),
            None => None,
        }
    }
}

/// The first place is the place of an equal element with none before it, and there is none
/// exactly where no element is equal.
pub proof fn lemma_position<T>(list: Seq<T>, x: T)
    ensures
        match position(list, x) {
            Some(i) => 0 <= i < list.len() && list[i] == x && forall|j: int|
                0 <= j < i ==> list[j] != x,
            None => !list.contains(x),
        },
    decreases list.len(),
{
    if list.len() > 0 && list[0] != x {
        let rest = list.drop_first();
        lemma_position(rest, x);
        assert(forall|j: int| 0 < j < list.len() ==> list[j] == rest[j - 1]);
        if position(rest, x) is None {
            assert forall|j: int| 0 <= j < list.len() implies list[j] != x by {
                if j > 0 {
                    assert(rest[j - 1] == list[j]);
                    assert(rest.contains(rest[j - 1]));
                }
            }
        }
    }
}

/// An element with none equal before it is at the first place.
pub proof fn lemma_position_is<T>(list: Seq<T>, x: T, i: int)
    requires
        0 <= i < list.len(),
        list[i] == x,
        forall|j: int| 0 <= j < i ==> list[j] != x,
    ensures
        position(list, x) == Some(i),
{
    lemma_position(list, x);
    assert(list.contains(x));
}

/// Position of `name` in a list of strings.
pub fn find_name(list: &Vec<String>, name: &str) -> (r: Option<usize>)
    ensures
        match r {
            Some(i) => position(views(list@), name@) == Some(i as int) && i < list@.len(),
            None => position(views(list@), name@) is None,
        },
{
    let ghost all = views(list@);
    proof {
        lemma_position(all, name@);
    }
    for i in 0..list.len()
        invariant
            all == views(list@),
            forall|k: int| 0 <= k < i ==> all[k] != name@,
    {
        assert(all[i as int] == list@[i as int]@);
        if same(list[i].as_str(), name) {
            proof {
                lemma_position_is(all, name@, i as int);
            }
            return Some(i);
        }
    }
    None
}

// ---------------------------------------------------------------- numbers

/// The decimal digit for `d`.
pub open spec fn digit(d: int) -> char {
    (48 + d) as char
}

/// Whether `c` is one of `0` to `9`.
pub open spec fn is_digit(c: char) -> bool {
    '0' <= c && c <= '9'
}

/// `n` in decimal, without leading zeros.
pub open spec fn decimal(n: nat) -> Seq<char>
    decreases n,
{
    if n < 10 {
        seq![digit(n as int)]
    } else {
        decimal(n / 10).push(digit((n % 10) as int))
    }
}

/// `n` in decimal, with a minus sign where it is negative.
pub open spec fn signed_decimal(n: int) -> Seq<char> {
    if n < 0 {
        seq!['-'] + decimal((-n) as nat)
    } else {
        decimal(n as nat)
    }
}

/// `n` in decimal, filled up with zeros on the left to `width` characters.
pub open spec fn padded(n: nat, width: nat) -> Seq<char> {
    let digits = decimal(n);
    if digits.len() < width {
        Seq::new((width - digits.len()) as nat, |i: int| '0') + digits
    } else {
        digits
    }
}

/// Appends `n` in decimal.
pub fn push_decimal(out: &mut String, n: u64)
    ensures
        final(out)@ == old(out)@ + decimal(n as nat),
    decreases n,
{
    if n >= 10 {
        push_decimal(out, n / 10);
    }
    let d: u8 = (n % 10) as u8;
    out.push((48 + d) as char);
    assert(out@ =~= old(out)@ + decimal(n as nat));
}

/// Appends `n` in decimal, with its sign.
pub fn push_signed(out: &mut String, n: i32)
    ensures
        final(out)@ == old(out)@ + signed_decimal(n as int),
{
    if n < 0 {
        out.push('-');
        push_decimal(out, (-(n as i64)) as u64);
        assert(out@ =~= old(out)@ + signed_decimal(n as int));
    } else {
        push_decimal(out, n as u64);
    }
}

/// Appends `n` in decimal, filled up with zeros to `width` characters.
pub fn push_padded(out: &mut String, n: u16, width: usize)
    ensures
        final(out)@ == old(out)@ + padded(n as nat, width as nat),
{
    let mut digits = String::new();
    push_decimal(&mut digits, n as u64);
    let len = digits.as_str().unicode_len();
    assert(digits@ =~= decimal(n as nat));
    let mut i: usize = len;
    while i < width
        invariant
            len == digits@.len(),
            digits@ == decimal(n as nat),
            len <= i,
            i <= width || i == len,
            out@ == old(out)@ + Seq::new((i - len) as nat, |k: int| '0'),
        decreases width - i,
    {
        out.push('0');
        i = i + 1;
        assert(out@ =~= old(out)@ + Seq::new((i - len) as nat, |k: int| '0'));
    }
    out.append(digits.as_str());
    assert(out@ =~= old(out)@ + padded(n as nat, width as nat));
}

/// The number that a run of decimal digits writes.
pub open spec fn digits_value(s: Seq<char>) -> nat
    decreases s.len(),
{
    if s.len() == 0 {
        0
    } else {
        digits_value(s.drop_last()) * 10 + (s.last() as int - 48) as nat
    }
}

/// Whether every character is a decimal digit.
pub open spec fn all_digits(s: Seq<char>) -> bool {
    forall|i: int| 0 <= i < s.len() ==> is_digit(#[trigger] s[i])
}

/// The `u32` that a string writes: an optional `+`, then one or more digits, nothing else, and
/// no more than the type holds.
pub open spec fn u32_of(s: Seq<char>) -> Option<u32> {
    let body = if s.len() > 0 && s[0] == '+' {
        s.drop_first()
    } else {
        s
    };
    if body.len() > 0 && all_digits(body) && digits_value(body) <= u32::MAX {
        Some(digits_value(body) as u32)
    } else {
        None
    }
}

/// More digits never write a smaller number.
proof fn lemma_digits_value_grows(s: Seq<char>, n: int)
    requires
        0 <= n <= s.len(),
    ensures
        digits_value(s.take(n)) <= digits_value(s),
    decreases s.len(),
{
    if n < s.len() {
        lemma_digits_value_grows(s.drop_last(), n);
        assert(s.drop_last().take(n) =~= s.take(n));
    } else {
        assert(s.take(n) =~= s);
    }
}

/// Reads a `u32`.
pub fn parse_u32(s: &Vec<char>) -> (r: Option<u32>)
    ensures
        r == u32_of(s@),
{
    let start: usize = if s.len() > 0 && s[0] == '+' {
        1
    } else {
        0
    };
    let ghost body = s@.skip(start as int);
    proof {
        if start == 0 {
            assert(body =~= s@);
        } else {
            assert(body =~= s@.drop_first());
        }
    }
    if start == s.len() {
        return None;
    }
    let mut value: u32 = 0;
    let mut i: usize = start;
    assert(body.take(0) =~= Seq::<char>::empty());
    while i < s.len()
        invariant
            start <= i <= s.len(),
            start == (if s.len() > 0 && s@[0] == '+' { 1int } else { 0int }),
            body == s@.skip(start as int),
            body == (if s@.len() > 0 && s@[0] == '+' { s@.drop_first() } else { s@ }),
            all_digits(body.take(i - start)),
            value == digits_value(body.take(i - start)),
        decreases s.len() - i,
    {
        let c = s[i];
        assert(body[i - start] == c);
        let ghost next = body.take(i - start + 1);
        assert(next.drop_last() =~= body.take(i - start));
        assert(next.last() == c);
        if c < '0' || c > '9' {
            return None;
        }
        let d: u32 = c as u32 - 48;
        assert(digits_value(next) == value * 10 + d);
        proof {
            lemma_digits_value_grows(body, i - start + 1);
        }
        if value > (u32::MAX - d) / 10 {
            assert(value * 10 + d > u32::MAX);
            return None;
        }
        value = value * 10 + d;
        assert forall|k: int| 0 <= k < next.len() implies is_digit(#[trigger] next[k]) by {
            if k < i - start {
                assert(next[k] == body.take(i - start)[k]);
            }
        }
        i = i + 1;
    }
    assert(body.take(i - start) =~= body);
    Some(value)
}

/// Reading the decimal digits of a number gives the number back.
pub proof fn decimal_reads_back(n: u32)
    ensures
        u32_of(decimal(n as nat)) == Some(n),
{
    lemma_decimal_digits(n as nat);
    assert(is_digit(decimal(n as nat)[0]));
}

/// The decimal form of a number is made of digits, at least one, and they write the number.
pub proof fn lemma_decimal_digits(n: nat)
    ensures
        decimal(n).len() > 0,
        all_digits(decimal(n)),
        digits_value(decimal(n)) == n,
    decreases n,
{
    if n >= 10 {
        lemma_decimal_digits(n / 10);
        assert(decimal(n).drop_last() =~= decimal(n / 10));
    } else {
        assert(decimal(n).drop_last() =~= Seq::<char>::empty());
        assert(digits_value(decimal(n).drop_last()) == 0);
    }
}

// ---------------------------------------------------------------- trimming

/// The characters with the Unicode property `White_Space`.
pub open spec fn is_whitespace(c: char) -> bool {
    let u = c as u32;
    ||| 0x09 <= u <= 0x0D
    ||| u == 0x20
    ||| u == 0x85
    ||| u == 0xA0
    ||| u == 0x1680
    ||| 0x2000 <= u <= 0x200A
    ||| u == 0x2028
    ||| u == 0x2029
    ||| u == 0x202F
    ||| u == 0x205F
    ||| u == 0x3000
}

/// `s` without the characters at its front that are in `drop`.
pub open spec fn strip_front(s: Seq<char>, drop: spec_fn(char) -> bool) -> Seq<char>
    decreases s.len(),
{
    if s.len() > 0 && drop(s[0]) {
        strip_front(s.drop_first(), drop)
    } else {
        s
    }
}

/// `s` without the characters at its back that are in `drop`.
pub open spec fn strip_back(s: Seq<char>, drop: spec_fn(char) -> bool) -> Seq<char>
    decreases s.len(),
{
    if s.len() > 0 && drop(s.last()) {
        strip_back(s.drop_last(), drop)
    } else {
        s
    }
}

/// The whitespace characters.
pub open spec fn whitespaces() -> spec_fn(char) -> bool {
    |c: char| is_whitespace(c)
}

/// The character `q` alone.
pub open spec fn just(q: char) -> spec_fn(char) -> bool {
    |c: char| c == q
}

/// `s` without whitespace at either end.
pub open spec fn trimmed(s: Seq<char>) -> Seq<char> {
    strip_back(strip_front(s, whitespaces()), whitespaces())
}

/// `s` without the character `q` at either end.
pub open spec fn trimmed_of(s: Seq<char>, q: char) -> Seq<char> {
    strip_back(strip_front(s, just(q)), just(q))
}

/// Whether `c` is whitespace.
pub fn whitespace(c: char) -> (r: bool)
    ensures
        r == is_whitespace(c),
{
    let u: u32 = c as u32;
    (0x09 <= u && u <= 0x0D) || u == 0x20 || u == 0x85 || u == 0xA0 || u == 0x1680 || (0x2000 <= u
        && u <= 0x200A) || u == 0x2028 || u == 0x2029 || u == 0x202F || u == 0x205F || u == 0x3000
}

/// Removes whitespace at both ends.
pub fn trim(s: &Vec<char>) -> (r: Vec<char>)
    ensures
        r@ == trimmed(s@),
{
    let ghost drop = whitespaces();
    let mut from: usize = 0;
    assert(s@.skip(0) =~= s@);
    while from < s.len() && whitespace(s[from])
        invariant
            from <= s.len(),
            drop == whitespaces(),
            strip_front(s@, drop) == strip_front(s@.skip(from as int), drop),
        decreases s.len() - from,
    {
        assert(s@.skip(from as int).drop_first() =~= s@.skip(from + 1));
        from = from + 1;
    }
    let mut to: usize = s.len();
    let ghost front = s@.skip(from as int);
    assert(strip_front(s@, drop) == front);
    assert(s@.subrange(from as int, to as int) =~= front);
    while to > from && whitespace(s[to - 1])
        invariant
            from <= to <= s.len(),
            drop == whitespaces(),
            strip_back(front, drop) == strip_back(s@.subrange(from as int, to as int), drop),
        decreases to,
    {
        assert(s@.subrange(from as int, to as int).drop_last() =~= s@.subrange(
            from as int,
            to - 1,
        ));
        to = to - 1;
    }
    copy_range(s, from, to)
}

/// Removes the character `q` at both ends.
pub fn trim_matches(s: &Vec<char>, q: char) -> (r: Vec<char>)
    ensures
        r@ == trimmed_of(s@, q),
{
    let ghost drop = just(q);
    let mut from: usize = 0;
    assert(s@.skip(0) =~= s@);
    while from < s.len() && s[from] == q
        invariant
            from <= s.len(),
            drop == just(q),
            strip_front(s@, drop) == strip_front(s@.skip(from as int), drop),
        decreases s.len() - from,
    {
        assert(s@.skip(from as int).drop_first() =~= s@.skip(from + 1));
        from = from + 1;
    }
    let mut to: usize = s.len();
    let ghost front = s@.skip(from as int);
    assert(strip_front(s@, drop) == front);
    assert(s@.subrange(from as int, to as int) =~= front);
    while to > from && s[to - 1] == q
        invariant
            from <= to <= s.len(),
            drop == just(q),
            strip_back(front, drop) == strip_back(s@.subrange(from as int, to as int), drop),
        decreases to,
    {
        assert(s@.subrange(from as int, to as int).drop_last() =~= s@.subrange(
            from as int,
            to - 1,
        ));
        to = to - 1;
    }
    copy_range(s, from, to)
}

/// The characters from `from` up to `to`.
fn copy_range(s: &Vec<char>, from: usize, to: usize) -> (r: Vec<char>)
    requires
        from <= to <= s@.len(),
    ensures
        r@ == s@.subrange(from as int, to as int),
{
    let mut r: Vec<char> = Vec::new();
    for i in from..to
        invariant
            to <= s@.len(),
            r@ == s@.subrange(from as int, i as int),
    {
        r.push(s[i]);
    }
    r
}

// ---------------------------------------------------------------- ASCII case

/// `c`, lower case where it is one of `A` to `Z`.
pub open spec fn lower_char(c: char) -> char {
    if 'A' <= c && c <= 'Z' {
        (c as u32 + 32) as char
    } else {
        c
    }
}

/// `s` with `A` to `Z` in lower case.
pub open spec fn lowered(s: Seq<char>) -> Seq<char> {
    s.map_values(|c: char| lower_char(c))
}

/// `c`, lower case where it is one of `A` to `Z`.
pub fn ascii_lower(c: char) -> (r: char)
    ensures
        r == lower_char(c),
{
    if 'A' <= c && c <= 'Z' {
        (c as u8 + 32) as char
    } else {
        c
    }
}

/// `s` with `A` to `Z` in lower case.
pub fn to_ascii_lowercase(s: &Vec<char>) -> (r: Vec<char>)
    ensures
        r@ == lowered(s@),
{
    let mut r: Vec<char> = Vec::new();
    for i in 0..s.len()
        invariant
            r@ == lowered(s@.take(i as int)),
    {
        r.push(ascii_lower(s[i]));
        assert(r@ =~= lowered(s@.take(i + 1)));
    }
    assert(s@.take(s@.len() as int) =~= s@);
    r
}

// ---------------------------------------------------------------- splitting

/// The parts of `s` between the occurrences of `sep`; there is always at least one.
pub open spec fn split(s: Seq<char>, sep: char) -> Seq<Seq<char>>
    decreases s.len(),
{
    if s.len() == 0 {
        seq![Seq::<char>::empty()]
    } else {
        let before = split(s.drop_last(), sep);
        if s.last() == sep {
            before.push(Seq::<char>::empty())
        } else {
            before.drop_last().push(before.last().push(s.last()))
        }
    }
}

/// Splitting gives at least one part.
pub proof fn lemma_split_nonempty(s: Seq<char>, sep: char)
    ensures
        split(s, sep).len() > 0,
    decreases s.len(),
{
    if s.len() > 0 {
        lemma_split_nonempty(s.drop_last(), sep);
    }
}

/// A string without the separator is its own only part.
pub proof fn lemma_split_single(s: Seq<char>, sep: char)
    requires
        !s.contains(sep),
    ensures
        split(s, sep) =~= seq![s],
    decreases s.len(),
{
    if s.len() > 0 {
        assert forall|i: int| 0 <= i < s.drop_last().len() implies s.drop_last()[i] != sep by {
            assert(s[i] == s.drop_last()[i]);
            assert(s.contains(s[i]));
        }
        lemma_split_single(s.drop_last(), sep);
        assert(s.contains(s.last()));
        assert(s.drop_last().push(s.last()) =~= s);
    } else {
        assert(s =~= Seq::<char>::empty());
    }
}

/// Splitting two strings joined by the separator gives the parts of the one, then those of the
/// other.
pub proof fn lemma_split_join(a: Seq<char>, b: Seq<char>, sep: char)
    ensures
        split(a + seq![sep] + b, sep) =~= split(a, sep) + split(b, sep),
    decreases b.len(),
{
    let s = a + seq![sep] + b;
    if b.len() == 0 {
        assert(s.drop_last() =~= a);
    } else {
        lemma_split_join(a, b.drop_last(), sep);
        lemma_split_nonempty(b.drop_last(), sep);
        assert(s.drop_last() =~= a + seq![sep] + b.drop_last());
        assert(s.last() == b.last());
    }
}

// ---------------------------------------------------------------- prefixes

/// Whether `s` begins with `prefix`.
pub open spec fn starts_with(s: Seq<char>, prefix: Seq<char>) -> bool {
    prefix.len() <= s.len() && s.take(prefix.len() as int) == prefix
}

/// The rest of `s` after `prefix`, where it begins with it.
pub fn strip_prefix(s: &str, prefix: &str) -> (r: Option<String>)
    ensures
        match r {
            Some(rest) => starts_with(s@, prefix@) && rest@ == s@.skip(
                prefix@.len() as int,
            ),
            None => !starts_with(s@, prefix@),
        },
{
    let p = chars_of(s);
    let q = chars_of(prefix);
    if p.len() < q.len() {
        return None;
    }
    let mut i: usize = 0;
    while i < q.len()
        invariant
            i <= q@.len() <= p@.len(),
            p@ == s@,
            q@ == prefix@,
            forall|k: int| 0 <= k < i ==> p@[k] == q@[k],
        decreases q.len() - i,
    {
        if p[i] != q[i] {
            assert(s@.take(prefix@.len() as int)[i as int] != prefix@[i as int]);
            return None;
        }
        i = i + 1;
    }
    assert(s@.take(prefix@.len() as int) =~= prefix@);
    let mut rest = String::new();
    let mut k: usize = q.len();
    while k < p.len()
        invariant
            q@.len() <= k <= p@.len(),
            p@ == s@,
            rest@ == s@.subrange(q@.len() as int, k as int),
        decreases p.len() - k,
    {
        rest.push(p[k]);
        assert(rest@ =~= s@.subrange(q@.len() as int, k + 1));
        k = k + 1;
    }
    assert(rest@ =~= s@.skip(prefix@.len() as int));
    Some(rest)
}

// ---------------------------------------------------------------- laws

/// The views of a list are the characters of its strings, one by one.
pub proof fn views_are_the_contents(list: Seq<String>, names: Seq<&'static str>)
    ensures
        views(list).len() == list.len(),
        forall|i: int| 0 <= i < list.len() ==> #[trigger] views(list)[i] == list[i]@,
        str_views(names).len() == names.len(),
        forall|i: int| 0 <= i < names.len() ==> #[trigger] str_views(names)[i] == names[i]@,
        forall|s: String| #[trigger] opt_view(Some(s)) == Some(s@),
        opt_view(None) is None,
        forall|s: &'static str| #[trigger] opt_str_view(Some(s)) == Some(s@),
        opt_str_view(None) is None,
{
}

/// Reading the digits from the left, each adding its value to ten times what was read before.
spec fn reading() -> spec_fn(int, char) -> int {
    |acc: int, c: char| 10 * acc + (c as int - 48)
}

/// Reading from the left gives what [`digits_value`] says.
proof fn lemma_reading(s: Seq<char>)
    requires
        all_digits(s),
    ensures
        s.fold_left(0int, reading()) == digits_value(s),
    decreases s.len(),
{
    reveal(Seq::fold_left);
    if s.len() > 0 {
        assert(all_digits(s.drop_last())) by {
            assert forall|i: int| 0 <= i < s.drop_last().len() implies is_digit(
                #[trigger] s.drop_last()[i],
            ) by {
                assert(is_digit(s[i]));
            }
        }
        lemma_reading(s.drop_last());
        assert(is_digit(s[s.len() - 1]));
    }
}

/// Decimal digits, read from the left, are the number that they were written for: there are
/// digits only, at least one, no leading zero, and ten times what stands before a digit plus that
/// digit, over all of them, is the number.
pub proof fn decimal_writes_the_number(n: nat)
    ensures
        decimal(n).len() > 0,
        forall|i: int| 0 <= i < decimal(n).len() ==> '0' <= #[trigger] decimal(n)[i] <= '9',
        decimal(n).len() > 1 ==> decimal(n)[0] != '0',
        decimal(n).fold_left(0int, |acc: int, c: char| 10 * acc + (c as int - 48)) == n,
    decreases n,
{
    lemma_decimal_digits(n);
    lemma_reading(decimal(n));
    assert(reading() =~= (|acc: int, c: char| 10 * acc + (c as int - 48)));
    assert forall|i: int| 0 <= i < decimal(n).len() implies '0' <= #[trigger] decimal(n)[i]
        <= '9' by {
        assert(is_digit(decimal(n)[i]));
    }
    if n >= 10 {
        decimal_writes_the_number(n / 10);
        assert(decimal(n)[0] == decimal(n / 10)[0]);
        if n / 10 < 10 {
            assert(decimal(n / 10)[0] == digit((n / 10) as int));
        } else {
            lemma_decimal_digits(n / 100);
            assert(n / 10 / 10 == n / 100);
            assert(decimal(n / 10).len() == decimal(n / 100).len() + 1);
        }
    }
}

/// Two numbers never have the same decimal form.
pub proof fn decimals_differ(a: nat, b: nat)
    requires
        decimal(a) == decimal(b),
    ensures
        a == b,
{
    lemma_decimal_digits(a);
    lemma_decimal_digits(b);
}

/// A negative number is written as a minus sign and the number without its sign, any other as it
/// is: the digits, read from the left, are the number's size.
pub proof fn signed_decimal_writes_the_number(n: int)
    ensures
        ({
            let text = signed_decimal(n);
            let digits = if n < 0 {
                text.skip(1)
            } else {
                text
            };
            &&& n < 0 ==> text.len() > 1 && text[0] == '-'
            &&& digits.len() > 0
            &&& forall|i: int| 0 <= i < digits.len() ==> '0' <= #[trigger] digits[i] <= '9'
            &&& digits.len() > 1 ==> digits[0] != '0'
            &&& digits.fold_left(0int, |acc: int, c: char| 10 * acc + (c as int - 48)) == (if n
                < 0 {
                -n
            } else {
                n
            })
        }),
{
    if n < 0 {
        decimal_writes_the_number((-n) as nat);
        assert(signed_decimal(n).skip(1) =~= decimal((-n) as nat));
    } else {
        decimal_writes_the_number(n as nat);
    }
}

/// Filling up with zeros changes the length, not the number: there are as many characters as
/// asked for, or more where the number needs them, all of them digits that read as the number.
pub proof fn padding_keeps_the_number(n: nat, width: nat)
    ensures
        padded(n, width).len() == (if decimal(n).len() < width {
            width
        } else {
            decimal(n).len()
        }),
        forall|i: int| 0 <= i < padded(n, width).len() ==> '0' <= #[trigger] padded(n, width)[i]
            <= '9',
        padded(n, width).fold_left(0int, |acc: int, c: char| 10 * acc + (c as int - 48)) == n,
{
    lemma_decimal_digits(n);
    let p = padded(n, width);
    assert forall|i: int| 0 <= i < p.len() implies is_digit(#[trigger] p[i]) by {
        let zeros = p.len() - decimal(n).len();
        if i >= zeros {
            assert(p[i] == decimal(n)[i - zeros]);
        }
    }
    lemma_reading(p);
    assert(reading() =~= (|acc: int, c: char| 10 * acc + (c as int - 48)));
    if decimal(n).len() < width {
        lemma_leading_zeros((width - decimal(n).len()) as nat, decimal(n));
    }
}

/// Zeros before digits add nothing.
proof fn lemma_leading_zeros(count: nat, s: Seq<char>)
    ensures
        digits_value(Seq::new(count, |i: int| '0') + s) == digits_value(s),
    decreases count + s.len(),
{
    let zeros = Seq::new(count, |i: int| '0');
    let all = zeros + s;
    if s.len() > 0 {
        assert(all.drop_last() =~= zeros + s.drop_last());
        lemma_leading_zeros(count, s.drop_last());
    } else if count > 0 {
        let fewer = Seq::new((count - 1) as nat, |i: int| '0');
        assert(all.drop_last() =~= fewer + s);
        lemma_leading_zeros((count - 1) as nat, s);
    } else {
        assert(all =~= s);
    }
}

/// A string is read as a number exactly where it is digits, at least one, with or without a plus
/// sign before them, and then as the number that the digits read as from the left; a number that
/// is too large is not read.
pub proof fn number_read_is_the_number_written(s: Seq<char>, digits: Seq<char>)
    requires
        s == digits || s == seq!['+'] + digits,
        digits.len() > 0,
        forall|i: int| 0 <= i < digits.len() ==> '0' <= #[trigger] digits[i] <= '9',
    ensures
        ({
            let n = digits.fold_left(0int, |acc: int, c: char| 10 * acc + (c as int - 48));
            match u32_of(s) {
                Some(r) => r == n,
                None => n > u32::MAX,
            }
        }),
{
    assert forall|i: int| 0 <= i < digits.len() implies is_digit(#[trigger] digits[i]) by {}
    assert(is_digit(digits[0]));
    lemma_reading(digits);
    assert(reading() =~= (|acc: int, c: char| 10 * acc + (c as int - 48)));
    if s == seq!['+'] + digits {
        assert(s.drop_first() =~= digits);
    }
}

/// What is not digits, or digits after a plus sign, is not read as a number.
pub proof fn only_digits_are_numbers(s: Seq<char>)
    requires
        u32_of(s) is Some,
    ensures
        ({
            let digits = if s.len() > 0 && s[0] == '+' {
                s.skip(1)
            } else {
                s
            };
            &&& digits.len() > 0
            &&& forall|i: int| 0 <= i < digits.len() ==> '0' <= #[trigger] digits[i] <= '9'
        }),
{
    let digits = if s.len() > 0 && s[0] == '+' {
        s.skip(1)
    } else {
        s
    };
    if s.len() > 0 && s[0] == '+' {
        assert(digits =~= s.drop_first());
    }
    assert forall|i: int| 0 <= i < digits.len() implies '0' <= #[trigger] digits[i] <= '9' by {
        assert(is_digit(digits[i]));
    }
}

/// The characters that count as whitespace, one by one.
pub proof fn whitespace_is_as_listed(c: char)
    ensures
        is_whitespace(c) <==> seq![
            '\u{9}',
            '\u{A}',
            '\u{B}',
            '\u{C}',
            '\u{D}',
            '\u{20}',
            '\u{85}',
            '\u{A0}',
            '\u{1680}',
            '\u{2000}',
            '\u{2001}',
            '\u{2002}',
            '\u{2003}',
            '\u{2004}',
            '\u{2005}',
            '\u{2006}',
            '\u{2007}',
            '\u{2008}',
            '\u{2009}',
            '\u{200A}',
            '\u{2028}',
            '\u{2029}',
            '\u{202F}',
            '\u{205F}',
            '\u{3000}',
        ].contains(c),
{
    let list = seq![
        '\u{9}',
        '\u{A}',
        '\u{B}',
        '\u{C}',
        '\u{D}',
        '\u{20}',
        '\u{85}',
        '\u{A0}',
        '\u{1680}',
        '\u{2000}',
        '\u{2001}',
        '\u{2002}',
        '\u{2003}',
        '\u{2004}',
        '\u{2005}',
        '\u{2006}',
        '\u{2007}',
        '\u{2008}',
        '\u{2009}',
        '\u{200A}',
        '\u{2028}',
        '\u{2029}',
        '\u{202F}',
        '\u{205F}',
        '\u{3000}',
    ];
    if is_whitespace(c) {
        let u = c as int;
        let k = if u <= 0x0D {
            u - 9
        } else if u == 0x20 {
            5
        } else if u == 0x85 {
            6
        } else if u == 0xA0 {
            7
        } else if u == 0x1680 {
            8
        } else if u <= 0x200A {
            u - 0x2000 + 9
        } else if u == 0x2028 {
            20
        } else if u == 0x2029 {
            21
        } else if u == 0x202F {
            22
        } else if u == 0x205F {
            23
        } else {
            24
        };
        assert(list[k] == c);
    }
}

/// Stripping takes characters from the front, all of them in `drop`, as long as there are any.
proof fn lemma_strip_front(s: Seq<char>, drop: spec_fn(char) -> bool)
    ensures
        exists|n: int|
            {
                &&& 0 <= n <= s.len()
                &&& strip_front(s, drop) == #[trigger] s.skip(n)
                &&& forall|i: int| 0 <= i < n ==> drop(#[trigger] s[i])
                &&& n < s.len() ==> !drop(s[n])
            },
    decreases s.len(),
{
    if s.len() > 0 && drop(s[0]) {
        let rest = s.drop_first();
        lemma_strip_front(rest, drop);
        let m = choose|m: int|
            {
                &&& 0 <= m <= rest.len()
                &&& strip_front(rest, drop) == #[trigger] rest.skip(m)
                &&& forall|i: int| 0 <= i < m ==> drop(#[trigger] rest[i])
                &&& m < rest.len() ==> !drop(rest[m])
            };
        assert(s.skip(m + 1) =~= rest.skip(m));
        assert forall|i: int| 0 <= i < m + 1 implies drop(#[trigger] s[i]) by {
            if i > 0 {
                assert(drop(rest[i - 1]));
            }
        }
    } else {
        assert(s.skip(0) =~= s);
    }
}

/// Stripping takes characters from the back, all of them in `drop`, as long as there are any.
proof fn lemma_strip_back(s: Seq<char>, drop: spec_fn(char) -> bool)
    ensures
        exists|n: int|
            {
                &&& 0 <= n <= s.len()
                &&& strip_back(s, drop) == #[trigger] s.take(n)
                &&& forall|i: int| n <= i < s.len() ==> drop(#[trigger] s[i])
                &&& n > 0 ==> !drop(s[n - 1])
            },
    decreases s.len(),
{
    if s.len() > 0 && drop(s.last()) {
        let rest = s.drop_last();
        lemma_strip_back(rest, drop);
        let m = choose|m: int|
            {
                &&& 0 <= m <= rest.len()
                &&& strip_back(rest, drop) == #[trigger] rest.take(m)
                &&& forall|i: int| m <= i < rest.len() ==> drop(#[trigger] rest[i])
                &&& m > 0 ==> !drop(rest[m - 1])
            };
        assert(s.take(m) =~= rest.take(m));
        assert forall|i: int| m <= i < s.len() implies drop(#[trigger] s[i]) by {
            if i < rest.len() {
                assert(drop(rest[i]));
            }
        }
    } else {
        assert(s.take(s.len() as int) =~= s);
    }
}

/// Stripping both ends leaves a middle part: what was taken is in `drop`, and neither end of what
/// is left is.
proof fn lemma_strip_both(s: Seq<char>, drop: spec_fn(char) -> bool)
    ensures
        exists|from: int, to: int|
            {
                &&& 0 <= from <= to <= s.len()
                &&& strip_back(strip_front(s, drop), drop) == #[trigger] s.subrange(from, to)
                &&& forall|i: int| 0 <= i < from || to <= i < s.len() ==> drop(#[trigger] s[i])
                &&& from < to ==> !drop(s[from]) && !drop(s[to - 1])
            },
{
    lemma_strip_front(s, drop);
    let from = choose|n: int|
        {
            &&& 0 <= n <= s.len()
            &&& strip_front(s, drop) == #[trigger] s.skip(n)
            &&& forall|i: int| 0 <= i < n ==> drop(#[trigger] s[i])
            &&& n < s.len() ==> !drop(s[n])
        };
    let front = s.skip(from);
    lemma_strip_back(front, drop);
    let m = choose|n: int|
        {
            &&& 0 <= n <= front.len()
            &&& strip_back(front, drop) == #[trigger] front.take(n)
            &&& forall|i: int| n <= i < front.len() ==> drop(#[trigger] front[i])
            &&& n > 0 ==> !drop(front[n - 1])
        };
    let to = from + m;
    assert(s.subrange(from, to) =~= front.take(m));
    assert forall|i: int| 0 <= i < from || to <= i < s.len() implies drop(#[trigger] s[i]) by {
        if i >= to {
            assert(drop(front[i - from]));
        }
    }
}

/// Trimming leaves a middle part of the string: everything taken from the two ends is whitespace,
/// and what is left neither begins nor ends with whitespace.
pub proof fn trimming_takes_whitespace_from_the_ends(s: Seq<char>)
    ensures
        exists|from: int, to: int|
            {
                &&& 0 <= from <= to <= s.len()
                &&& trimmed(s) == #[trigger] s.subrange(from, to)
                &&& forall|i: int| 0 <= i < from || to <= i < s.len() ==> is_whitespace(
                    #[trigger] s[i],
                )
                &&& from < to ==> !is_whitespace(s[from]) && !is_whitespace(s[to - 1])
            },
{
    lemma_strip_both(s, whitespaces());
    let (from, to) = choose|from: int, to: int|
        {
            &&& 0 <= from <= to <= s.len()
            &&& strip_back(strip_front(s, whitespaces()), whitespaces()) == #[trigger] s.subrange(
                from,
                to,
            )
            &&& forall|i: int|
                0 <= i < from || to <= i < s.len() ==> whitespaces()(#[trigger] s[i])
            &&& from < to ==> !whitespaces()(s[from]) && !whitespaces()(s[to - 1])
        };
    assert forall|i: int| 0 <= i < from || to <= i < s.len() implies is_whitespace(
        #[trigger] s[i],
    ) by {
        assert(whitespaces()(s[i]));
    }
    assert(trimmed(s) == s.subrange(from, to));
}

/// Trimming a character leaves a middle part of the string: everything taken from the two ends is
/// that character, and what is left neither begins nor ends with it.
pub proof fn trimming_takes_the_character_from_the_ends(s: Seq<char>, q: char)
    ensures
        exists|from: int, to: int|
            {
                &&& 0 <= from <= to <= s.len()
                &&& trimmed_of(s, q) == #[trigger] s.subrange(from, to)
                &&& forall|i: int| 0 <= i < from || to <= i < s.len() ==> #[trigger] s[i] == q
                &&& from < to ==> s[from] != q && s[to - 1] != q
            },
{
    lemma_strip_both(s, just(q));
    let (from, to) = choose|from: int, to: int|
        {
            &&& 0 <= from <= to <= s.len()
            &&& strip_back(strip_front(s, just(q)), just(q)) == #[trigger] s.subrange(from, to)
            &&& forall|i: int| 0 <= i < from || to <= i < s.len() ==> just(q)(#[trigger] s[i])
            &&& from < to ==> !just(q)(s[from]) && !just(q)(s[to - 1])
        };
    assert forall|i: int| 0 <= i < from || to <= i < s.len() implies #[trigger] s[i] == q by {
        assert(just(q)(s[i]));
    }
    assert(trimmed_of(s, q) == s.subrange(from, to));
}

/// Lower case touches `A` to `Z` alone and keeps their place: those move up by 32 code points,
/// everything else stays.
pub proof fn lowering_touches_capitals_alone(s: Seq<char>)
    ensures
        lowered(s).len() == s.len(),
        forall|i: int|
            0 <= i < s.len() ==> #[trigger] lowered(s)[i] as int == (if 65 <= s[i] as int <= 90 {
                s[i] as int + 32
            } else {
                s[i] as int
            }),
{
}

/// The parts of a string hold no separator, there is one more of them than separators, and put
/// together again with the separator between them they are the string.
pub proof fn parts_make_up_the_string(s: Seq<char>, sep: char)
    ensures
        split(s, sep).len() == s.filter(|c: char| c == sep).len() + 1,
        forall|i: int| 0 <= i < split(s, sep).len() ==> !(#[trigger] split(s, sep)[i]).contains(sep),
        s == split(s, sep).drop_first().fold_left(
            split(s, sep)[0],
            |acc: Seq<char>, part: Seq<char>| acc + seq![sep] + part,
        ),
    decreases s.len(),
{
    reveal(Seq::filter);
    reveal(Seq::fold_left);
    let join = |acc: Seq<char>, part: Seq<char>| acc + seq![sep] + part;
    let parts = split(s, sep);
    if s.len() == 0 {
        assert(parts =~= seq![Seq::<char>::empty()]);
        assert(parts.drop_first() =~= Seq::<Seq<char>>::empty());
        assert(s =~= Seq::<char>::empty());
    } else {
        let early = s.drop_last();
        let before = split(early, sep);
        parts_make_up_the_string(early, sep);
        lemma_split_nonempty(early, sep);
        if s.last() == sep {
            let tail = parts.drop_first();
            assert(tail.drop_last() =~= before.drop_first());
            assert(parts[0] == before[0]);
            assert(s =~= early + seq![sep] + Seq::<char>::empty());
            assert forall|i: int| 0 <= i < parts.len() implies !(#[trigger] parts[i]).contains(
                sep,
            ) by {
                if i < before.len() {
                    assert(parts[i] == before[i]);
                }
            }
        } else {
            let last = before.last().push(s.last());
            assert forall|i: int| 0 <= i < parts.len() implies !(#[trigger] parts[i]).contains(
                sep,
            ) by {
                if i < before.len() - 1 {
                    assert(parts[i] == before[i]);
                } else {
                    assert(!before[before.len() - 1].contains(sep));
                    if last.contains(sep) {
                        let k = choose|k: int| 0 <= k < last.len() && last[k] == sep;
                        assert(before.last()[k] == sep);
                    }
                }
            }
            if before.len() == 1 {
                assert(parts.drop_first() =~= Seq::<Seq<char>>::empty());
                assert(before.drop_first() =~= Seq::<Seq<char>>::empty());
                assert(s =~= early.push(s.last()));
            } else {
                let tail = parts.drop_first();
                let old_tail = before.drop_first();
                assert(tail.drop_last() =~= old_tail.drop_last());
                assert(parts[0] == before[0]);
                let acc = old_tail.drop_last().fold_left(before[0], join);
                assert(old_tail.last() == before.last());
                assert(early == acc + seq![sep] + before.last());
                assert(s =~= early.push(s.last()));
                assert(s =~= acc + seq![sep] + last);
                assert(tail.last() == last);
            }
        }
    }
}

/// A string begins with another exactly where the other, followed by something, is the string.
pub proof fn beginning_and_rest_make_the_string(s: Seq<char>, prefix: Seq<char>)
    ensures
        starts_with(s, prefix) ==> s == prefix + s.skip(prefix.len() as int),
        forall|rest: Seq<char>| starts_with(#[trigger] (prefix + rest), prefix),
{
    if starts_with(s, prefix) {
        assert(s =~= s.take(prefix.len() as int) + s.skip(prefix.len() as int));
    }
    assert forall|rest: Seq<char>| starts_with(#[trigger] (prefix + rest), prefix) by {
        assert((prefix + rest).take(prefix.len() as int) =~= prefix);
    }
}

} // verus!
