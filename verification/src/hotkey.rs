//! The cycle hotkey: its written form, the keys that can be recorded, and what is registered.

use crate::text::{
    ascii_lower, chars_of, decimal, digit, is_digit, lower_char, lowered, parse_u32, push_decimal,
    same, split, string_of, to_ascii_lowercase, trim, trimmed, u32_of,
};
use vstd::prelude::*;

verus! {

/// Modifier bits of a registered hotkey, as Win32 numbers them.
pub const MOD_ALT: u32 = 0x0001;

pub const MOD_CONTROL: u32 = 0x0002;

pub const MOD_SHIFT: u32 = 0x0004;

pub const MOD_WIN: u32 = 0x0008;

/// Asks that holding the combination down does not repeat it.
pub const MOD_NOREPEAT: u32 = 0x4000;

/// Virtual key of F1; F2 to F24 follow it.
pub const VK_F1: u32 = 0x70;

/// What one part of a written hotkey means.
#[derive(Clone, Copy, Debug, PartialEq, Eq, Structural)]
pub enum Part {
    Ctrl,
    Shift,
    Alt,
    Win,
    /// The key itself, by its virtual-key code.
    Key(u32),
    /// Not a part of any hotkey.
    Bad,
}

/// The modifiers that are held down.
#[derive(Clone, Copy, Debug, PartialEq, Eq, Structural)]
pub struct Modifiers {
    pub ctrl: bool,
    pub shift: bool,
    pub alt: bool,
    pub win: bool,
}

/// The bits under which a hotkey with these modifiers is registered.
pub open spec fn modifier_bits(m: Modifiers) -> u32 {
    (MOD_NOREPEAT + (if m.alt { MOD_ALT } else { 0 }) + (if m.ctrl { MOD_CONTROL } else { 0 }) + (
    if m.shift { MOD_SHIFT } else { 0 }) + (if m.win { MOD_WIN } else { 0 })) as u32
}

// ---------------------------------------------------------------- reading

/// The virtual key of a letter or digit: the code of its upper-case form.
pub open spec fn letter_key(c: char) -> Option<u32> {
    if is_digit(c) || ('A' <= c && c <= 'Z') {
        Some(c as u32)
    } else if 'a' <= c && c <= 'z' {
        Some((c as u32 - 32) as u32)
    } else {
        None
    }
}

/// What a lower-case part without spaces around it means.
pub open spec fn part_of(word: Seq<char>) -> Part {
    if word == "ctrl"@ || word == "control"@ {
        Part::Ctrl
    } else if word == "shift"@ {
        Part::Shift
    } else if word == "alt"@ {
        Part::Alt
    } else if word == "win"@ || word == "super"@ {
        Part::Win
    } else if word.len() == 1 {
        match letter_key(word[0]) {
            Some(vk) => Part::Key(vk),
            None => Part::Bad,
        }
    } else if word.len() > 0 && word[0] == 'f' {
        match u32_of(word.drop_first()) {
            Some(n) => if 1 <= n <= 24 {
                Part::Key((VK_F1 + n - 1) as u32)
            } else {
                Part::Bad
            },
            None => Part::Bad,
        }
    } else {
        Part::Bad
    }
}

/// What the parts of a written hotkey mean: they are separated by `+`, upper and lower case are
/// the same, and spaces around a part do not count.
pub open spec fn parts_of(spec: Seq<char>) -> Seq<Part> {
    split(spec, '+').map_values(|p: Seq<char>| part_of(lowered(trimmed(p))))
}

/// The last key among the parts.
pub open spec fn last_key(parts: Seq<Part>) -> Option<u32>
    decreases parts.len(),
{
    if parts.len() == 0 {
        None
    } else {
        match parts.last() {
            Part::Key(vk) => Some(vk),
            _ => last_key(parts.drop_last()),
        }
    }
}

/// The modifiers among the parts.
pub open spec fn modifiers_in(parts: Seq<Part>) -> Modifiers {
    Modifiers {
        ctrl: parts.contains(Part::Ctrl),
        shift: parts.contains(Part::Shift),
        alt: parts.contains(Part::Alt),
        win: parts.contains(Part::Win),
    }
}

/// The modifier bits and virtual key that a written hotkey stands for. There is none where a
/// part means nothing or no part is a key.
pub open spec fn hotkey_of(spec: Seq<char>) -> Option<(u32, u32)> {
    let parts = parts_of(spec);
    if parts.contains(Part::Bad) {
        None
    } else {
        match last_key(parts) {
            Some(vk) => Some((modifier_bits(modifiers_in(parts)), vk)),
            None => None,
        }
    }
}

/// What the parts read so far amount to.
struct Reading {
    mods: Modifiers,
    vk: Option<u32>,
}

impl Reading {
    spec fn reads(&self, parts: Seq<Part>) -> bool {
        &&& self.mods == modifiers_in(parts)
        &&& self.vk == last_key(parts)
        &&& !parts.contains(Part::Bad)
    }
}

/// Whether one more part leaves the list with `x` in it.
proof fn lemma_push_contains(parts: Seq<Part>, p: Part, x: Part)
    ensures
        parts.push(p).contains(x) == (parts.contains(x) || p == x),
{
    let more = parts.push(p);
    if parts.contains(x) {
        let i = choose|i: int| 0 <= i < parts.len() && parts[i] == x;
        assert(more[i] == x);
    }
    if p == x {
        assert(more[parts.len() as int] == x);
    }
    if more.contains(x) {
        let i = choose|i: int| 0 <= i < more.len() && more[i] == x;
        if i < parts.len() {
            assert(parts[i] == x);
        }
    }
}

/// Takes one more part in; false where it means nothing.
fn take_part(reading: &mut Reading, part: Part, Ghost(parts): Ghost<Seq<Part>>) -> (r: bool)
    requires
        old(reading).reads(parts),
    ensures
        r == (part != Part::Bad),
        r ==> final(reading).reads(parts.push(part)),
{
    proof {
        lemma_push_contains(parts, part, Part::Ctrl);
        lemma_push_contains(parts, part, Part::Shift);
        lemma_push_contains(parts, part, Part::Alt);
        lemma_push_contains(parts, part, Part::Win);
        lemma_push_contains(parts, part, Part::Bad);
        assert(parts.push(part).drop_last() =~= parts);
    }
    match part {
        Part::Ctrl => {
            reading.mods.ctrl = true;
        },
        Part::Shift => {
            reading.mods.shift = true;
        },
        Part::Alt => {
            reading.mods.alt = true;
        },
        Part::Win => {
            reading.mods.win = true;
        },
        Part::Key(vk) => {
            reading.vk = Some(vk);
        },
        Part::Bad => {
            return false;
        },
    }
    true
}

/// What a lower-case part without spaces around it means.
pub fn read_part(word: &Vec<char>) -> (r: Part)
    ensures
        r == part_of(word@),
{
    let text = string_of(word);
    let s = text.as_str();
    if same(s, "ctrl") || same(s, "control") {
        Part::Ctrl
    } else if same(s, "shift") {
        Part::Shift
    } else if same(s, "alt") {
        Part::Alt
    } else if same(s, "win") || same(s, "super") {
        Part::Win
    } else if word.len() == 1 {
        let c = word[0];
        if ('0' <= c && c <= '9') || ('A' <= c && c <= 'Z') {
            Part::Key(c as u32)
        } else if 'a' <= c && c <= 'z' {
            Part::Key(c as u32 - 32)
        } else {
            Part::Bad
        }
    } else if word.len() > 0 && word[0] == 'f' {
        let mut number: Vec<char> = Vec::new();
        for i in 1..word.len()
            invariant
                word@.len() > 0,
                number@ == word@.subrange(1, i as int),
        {
            number.push(word[i]);
        }
        assert(number@ =~= word@.drop_first());
        match parse_u32(&number) {
            Some(n) => if 1 <= n && n <= 24 {
                Part::Key(VK_F1 + n - 1)
            } else {
                Part::Bad
            },
            None => Part::Bad,
        }
    } else {
        Part::Bad
    }
}

/// The bits under which a hotkey with these modifiers is registered.
pub fn bits(m: Modifiers) -> (r: u32)
    ensures
        r == modifier_bits(m),
{
    let alt: u32 = if m.alt {
        MOD_ALT
    } else {
        0
    };
    let ctrl: u32 = if m.ctrl {
        MOD_CONTROL
    } else {
        0
    };
    let shift: u32 = if m.shift {
        MOD_SHIFT
    } else {
        0
    };
    let win: u32 = if m.win {
        MOD_WIN
    } else {
        0
    };
    MOD_NOREPEAT + alt + ctrl + shift + win
}

/// `"ctrl+shift+alt+v"` → (modifiers, virtual-key). Supports `ctrl`/`control`, `shift`, `alt`,
/// `win`/`super`, plus a single alphanumeric or `f1`–`f24` for the key.
pub fn parse_hotkey(spec: &str) -> (r: Option<(u32, u32)>)
    ensures
        r == hotkey_of(spec@),
{
    let s = chars_of(spec);
    let ghost meaning = |p: Seq<char>| part_of(lowered(trimmed(p)));
    let ghost all = parts_of(spec@);
    let mut reading = Reading {
        mods: Modifiers { ctrl: false, shift: false, alt: false, win: false },
        vk: None,
    };
    let mut word: Vec<char> = Vec::new();
    let ghost mut done: Seq<Seq<char>> = Seq::empty();
    proof {
        assert(s@.take(0) =~= Seq::<char>::empty());
        assert(split(s@.take(0), '+') =~= done.push(word@));
        assert(done.map_values(meaning) =~= Seq::<Part>::empty());
    }
    let mut i: usize = 0;
    while i < s.len()
        invariant
            i <= s.len(),
            s@ == spec@,
            meaning == (|p: Seq<char>| part_of(lowered(trimmed(p)))),
            split(s@.take(i as int), '+') == done.push(word@),
            reading.reads(done.map_values(meaning)),
        decreases s.len() - i,
    {
        let ghost next = s@.take(i + 1);
        assert(next.drop_last() =~= s@.take(i as int));
        assert(next.last() == s@[i as int]);
        assert(done.push(word@).drop_last() =~= done);
        if s[i] == '+' {
            let lower = to_ascii_lowercase(&trim(&word));
            let part = read_part(&lower);
            let ghost before = done;
            proof {
                done = done.push(word@);
                assert(done.map_values(meaning) =~= before.map_values(meaning).push(part));
            }
            if !take_part(&mut reading, part, Ghost(before.map_values(meaning))) {
                proof {
                    lemma_bad_part(spec@, i as int, done.len() - 1);
                }
                return None;
            }
            word = Vec::new();
            assert(split(next, '+') =~= done.push(word@));
        } else {
            word.push(s[i]);
            assert(split(next, '+') =~= done.push(word@));
        }
        i = i + 1;
    }
    assert(s@.take(i as int) =~= spec@);
    let lower = to_ascii_lowercase(&trim(&word));
    let part = read_part(&lower);
    assert(all =~= done.map_values(meaning).push(part));
    proof {
        lemma_push_contains(done.map_values(meaning), part, Part::Bad);
    }
    if !take_part(&mut reading, part, Ghost(done.map_values(meaning))) {
        return None;
    }
    match reading.vk {
        Some(vk) => Some((bits(reading.mods), vk)),
        None => None,
    }
}

/// Splitting more of a string keeps the parts that a separator has closed.
proof fn lemma_split_prefix(s: Seq<char>, n: int, k: int)
    requires
        0 <= n <= s.len(),
        0 <= k < split(s.take(n), '+').len() - 1,
    ensures
        k < split(s, '+').len() - 1,
        split(s, '+')[k] == split(s.take(n), '+')[k],
    decreases s.len(),
{
    if n == s.len() {
        assert(s.take(n) =~= s);
    } else {
        assert(s.drop_last().take(n) =~= s.take(n));
        lemma_split_prefix(s.drop_last(), n, k);
    }
}

/// A closed part that means nothing leaves no hotkey.
proof fn lemma_bad_part(s: Seq<char>, n: int, k: int)
    requires
        0 <= n < s.len(),
        s[n] == '+',
        0 <= k < split(s.take(n), '+').len(),
        part_of(lowered(trimmed(split(s.take(n), '+')[k]))) == Part::Bad,
    ensures
        hotkey_of(s) is None,
{
    let more = s.take(n + 1);
    assert(more.drop_last() =~= s.take(n));
    assert(split(more, '+')[k] == split(s.take(n), '+')[k]);
    lemma_split_prefix(s, n + 1, k);
    assert(parts_of(s)[k] == Part::Bad);
}

// ---------------------------------------------------------------- recording

/// Whether the virtual key is a modifier (shift, control, alt or the Windows key, on either
/// side).
pub open spec fn modifier_key(vk: u32) -> bool {
    0x10 <= vk <= 0x12 || 0xA0 <= vk <= 0xA5 || vk == 0x5B || vk == 0x5C
}

/// Whether the virtual key is a modifier.
pub fn is_modifier(vk: u32) -> (r: bool)
    ensures
        r == modifier_key(vk),
{
    vk == 0x10 || vk == 0x11 || vk == 0x12 || vk == 0xA0 || vk == 0xA1 || vk == 0xA2 || vk == 0xA3
        || vk == 0xA4 || vk == 0xA5 || vk == 0x5B || vk == 0x5C
}

/// The written form of a virtual key: a digit, a lower-case letter, or `f1` to `f24`.
pub open spec fn key_text(vk: u32) -> Option<Seq<char>> {
    if 0x30 <= vk <= 0x39 {
        Some(seq![digit(vk - 0x30)])
    } else if 0x41 <= vk <= 0x5A {
        Some(seq![lower_char(vk as char)])
    } else if 0x70 <= vk <= 0x87 {
        Some(seq!['f'] + decimal((vk - 0x70 + 1) as nat))
    } else {
        None
    }
}

/// The written form of a virtual key.
pub fn vk_to_string(vk: u32) -> (r: Option<String>)
    ensures
        crate::text::opt_view(r) == key_text(vk),
{
    if (0x30 <= vk && vk <= 0x39) || (0x41 <= vk && vk <= 0x5A) {
        let mut s = String::new();
        s.push(ascii_lower(vk as u8 as char));
        assert(vk <= 0x39 ==> s@ =~= seq![digit(vk - 0x30)]);
        assert(vk >= 0x41 ==> s@ =~= seq![lower_char(vk as char)]);
        return Some(s);
    }
    if 0x70 <= vk && vk <= 0x87 {
        let mut s = String::new();
        s.push('f');
        push_decimal(&mut s, (vk - 0x70 + 1) as u64);
        assert(s@ =~= seq!['f'] + decimal((vk - 0x70 + 1) as nat));
        return Some(s);
    }
    None
}

/// `word` followed by `+`, or nothing.
pub open spec fn prefix_if(on: bool, word: Seq<char>) -> Seq<char> {
    if on {
        word + seq!['+']
    } else {
        Seq::empty()
    }
}

/// The written form of a combination: the modifiers in a fixed order, then the key. A key alone,
/// or one without a written form, has none.
pub open spec fn combination_text(m: Modifiers, vk: u32) -> Option<Seq<char>> {
    if !(m.ctrl || m.shift || m.alt || m.win) {
        None
    } else {
        match key_text(vk) {
            Some(key) => Some(
                prefix_if(m.ctrl, "ctrl"@) + (prefix_if(m.shift, "shift"@) + (prefix_if(
                    m.alt,
                    "alt"@,
                ) + (prefix_if(m.win, "win"@) + key))),
            ),
            None => None,
        }
    }
}

/// Appends `word` and a `+`, or nothing.
fn push_prefix(out: &mut String, on: bool, word: &str)
    ensures
        final(out)@ == old(out)@ + prefix_if(on, word@),
{
    if on {
        out.append(word);
        out.push('+');
    }
    assert(out@ =~= old(out)@ + prefix_if(on, word@));
}

/// Appending pieces one after the other to nothing joins them.
proof fn lemma_append_in_order(
    a: Seq<char>,
    b: Seq<char>,
    c: Seq<char>,
    d: Seq<char>,
    e: Seq<char>,
)
    ensures
        Seq::<char>::empty() + a + b + c + d + e == a + (b + (c + (d + e))),
{
    assert(Seq::<char>::empty() + a + b + c + d + e =~= a + (b + (c + (d + e))));
}

/// The written form of the combination of the held modifiers and the key `vk`.
pub fn build_hotkey_spec(m: Modifiers, vk: u32) -> (r: Option<String>)
    ensures
        crate::text::opt_view(r) == combination_text(m, vk),
{
    if !m.ctrl && !m.shift && !m.alt && !m.win {
        return None;
    }
    let key = match vk_to_string(vk) {
        Some(key) => key,
        None => {
            return None;
        },
    };
    let mut spec = String::new();
    push_prefix(&mut spec, m.ctrl, "ctrl");
    push_prefix(&mut spec, m.shift, "shift");
    push_prefix(&mut spec, m.alt, "alt");
    push_prefix(&mut spec, m.win, "win");
    spec.append(key.as_str());
    proof {
        lemma_append_in_order(
            prefix_if(m.ctrl, "ctrl"@),
            prefix_if(m.shift, "shift"@),
            prefix_if(m.alt, "alt"@),
            prefix_if(m.win, "win"@),
            key@,
        );
    }
    Some(spec)
}

// ---------------------------------------------------------------- laws

/// A word with neither spaces at its ends nor upper-case letters is read as it stands.
proof fn lemma_plain_word(word: Seq<char>)
    requires
        word.len() > 0,
        forall|i: int|
            0 <= i < word.len() ==> (('a' <= #[trigger] word[i] && word[i] <= 'z') || is_digit(
                word[i],
            )),
    ensures
        lowered(trimmed(word)) == word,
        !word.contains('+'),
{
    assert(!crate::text::is_whitespace(word[0]));
    assert(!crate::text::is_whitespace(word.last()));
    assert(trimmed(word) == word);
    assert(lowered(word) =~= word);
}

/// A plain word before a `+` is the first part.
proof fn lemma_first_part(word: Seq<char>, rest: Seq<char>)
    requires
        word.len() > 0,
        forall|i: int|
            0 <= i < word.len() ==> (('a' <= #[trigger] word[i] && word[i] <= 'z') || is_digit(
                word[i],
            )),
    ensures
        parts_of(prefix_if(true, word) + rest) == seq![part_of(word)] + parts_of(rest),
{
    lemma_plain_word(word);
    crate::text::lemma_split_single(word, '+');
    crate::text::lemma_split_join(word, rest, '+');
    assert(prefix_if(true, word) + rest =~= word + seq!['+'] + rest);
    assert(parts_of(prefix_if(true, word) + rest) =~= seq![part_of(word)] + parts_of(rest));
}

/// The written form of a key is one part, which means that key.
proof fn lemma_key_part(vk: u32)
    requires
        key_text(vk) is Some,
    ensures
        parts_of(key_text(vk)->0) == seq![Part::Key(vk)],
{
    let key = key_text(vk)->0;
    reveal_strlit("ctrl");
    reveal_strlit("control");
    reveal_strlit("shift");
    reveal_strlit("alt");
    reveal_strlit("win");
    reveal_strlit("super");
    if vk < 0x70 {
        assert(key.len() == 1);
        lemma_plain_word(key);
    } else {
        let n = (vk - 0x70 + 1) as u32;
        crate::text::lemma_decimal_digits(n as nat);
        crate::text::decimal_reads_back(n);
        let d = decimal(n as nat);
        assert(key.drop_first() =~= d);
        assert forall|i: int| 0 <= i < key.len() implies (('a' <= #[trigger] key[i] && key[i]
            <= 'z') || is_digit(key[i])) by {
            if i > 0 {
                assert(key[i] == d[i - 1]);
            }
        }
        lemma_plain_word(key);
        assert(key[0] == 'f');
    }
    crate::text::lemma_split_single(key, '+');
    assert(parts_of(key) =~= seq![Part::Key(vk)]);
}

/// What is recorded can be registered: the written form of a combination stands for exactly
/// those modifiers and that key.
pub proof fn recorded_hotkey_reads_back(m: Modifiers, vk: u32)
    requires
        combination_text(m, vk) is Some,
    ensures
        hotkey_of(combination_text(m, vk)->0) == Some((modifier_bits(m), vk)),
{
    reveal_strlit("ctrl");
    reveal_strlit("shift");
    reveal_strlit("alt");
    reveal_strlit("win");
    reveal_strlit("control");
    reveal_strlit("super");
    let key = key_text(vk)->0;
    lemma_key_part(vk);
    let s3 = prefix_if(m.win, "win"@) + key;
    let s2 = prefix_if(m.alt, "alt"@) + s3;
    let s1 = prefix_if(m.shift, "shift"@) + s2;
    let s0 = prefix_if(m.ctrl, "ctrl"@) + s1;
    let p4 = seq![Part::Key(vk)];
    let p3 = part_if(m.win, Part::Win) + p4;
    let p2 = part_if(m.alt, Part::Alt) + p3;
    let p1 = part_if(m.shift, Part::Shift) + p2;
    let p0 = part_if(m.ctrl, Part::Ctrl) + p1;
    assert("alt"@ != "ctrl"@ && "alt"@ != "control"@ && "alt"@ != "shift"@) by {
        assert("alt"@.len() == 3);
    }
    assert("win"@ != "alt"@) by {
        assert("win"@[0] == 'w');
        assert("alt"@[0] == 'a');
    }
    assert("win"@.len() == 3 && "ctrl"@.len() == 4 && "control"@.len() == 7 && "shift"@.len() == 5);
    lemma_first_part("win"@, key);
    lemma_first_part("alt"@, s3);
    lemma_first_part("shift"@, s2);
    lemma_first_part("ctrl"@, s1);
    assert(Seq::<char>::empty() + key =~= key);
    assert(Seq::<char>::empty() + s3 =~= s3);
    assert(Seq::<char>::empty() + s2 =~= s2);
    assert(Seq::<char>::empty() + s1 =~= s1);
    assert(parts_of(s3) =~= p3);
    assert(parts_of(s2) =~= p2);
    assert(parts_of(s1) =~= p1);
    assert(parts_of(s0) =~= p0);
    assert(p0.last() == Part::Key(vk));
    lemma_contains_after(m.win, Part::Win, p4);
    lemma_contains_after(m.alt, Part::Alt, p3);
    lemma_contains_after(m.shift, Part::Shift, p2);
    lemma_contains_after(m.ctrl, Part::Ctrl, p1);
    assert(p4[0] == Part::Key(vk));
    assert(forall|x: Part| p4.contains(x) ==> x == Part::Key(vk));
    assert(modifiers_in(p0) == m);
}

/// `p` alone, or nothing.
spec fn part_if(on: bool, p: Part) -> Seq<Part> {
    if on {
        seq![p]
    } else {
        Seq::empty()
    }
}

/// What is in a list with an optional part before it.
proof fn lemma_contains_after(on: bool, p: Part, rest: Seq<Part>)
    ensures
        forall|x: Part|
            #[trigger] (part_if(on, p) + rest).contains(x) == ((on && x == p) || rest.contains(x)),
{
    let all = part_if(on, p) + rest;
    assert forall|x: Part| #[trigger] all.contains(x) == ((on && x == p) || rest.contains(x)) by {
        if on && x == p {
            assert(all[0] == x);
        }
        if rest.contains(x) {
            let i = choose|i: int| 0 <= i < rest.len() && rest[i] == x;
            assert(all[i + part_if(on, p).len()] == x);
        }
        if all.contains(x) {
            let i = choose|i: int| 0 <= i < all.len() && all[i] == x;
            if on && i > 0 {
                assert(rest[i - 1] == x);
            } else if !on {
                assert(rest[i] == x);
            }
        }
    }
}

/// Upper and lower case make no difference to a written hotkey.
pub proof fn hotkey_ignores_case(a: Seq<char>, b: Seq<char>)
    requires
        lowered(a) == lowered(b),
    ensures
        hotkey_of(a) == hotkey_of(b),
{
    lemma_parts_lowered(a);
    lemma_parts_lowered(b);
}

/// Whether two parts are written alike: letter case and spaces around them do not count, and
/// `ctrl` and `control`, and `win` and `super`, are two names of one key each.
pub open spec fn written_alike(a: Seq<char>, b: Seq<char>) -> bool {
    let x = lowered(trimmed(a));
    let y = lowered(trimmed(b));
    ||| x == y
    ||| (x == "ctrl"@ || x == "control"@) && (y == "ctrl"@ || y == "control"@)
    ||| (x == "win"@ || x == "super"@) && (y == "win"@ || y == "super"@)
}

/// How each part is written makes no difference to a hotkey, as long as the parts are written
/// alike.
pub proof fn hotkey_ignores_spelling(a: Seq<char>, b: Seq<char>)
    requires
        split(a, '+').len() == split(b, '+').len(),
        forall|i: int|
            0 <= i < split(a, '+').len() ==> written_alike(
                #[trigger] split(a, '+')[i],
                split(b, '+')[i],
            ),
    ensures
        hotkey_of(a) == hotkey_of(b),
{
    lemma_second_names();
    assert forall|i: int| 0 <= i < split(a, '+').len() implies #[trigger] parts_of(a)[i]
        == parts_of(b)[i] by {
        assert(written_alike(split(a, '+')[i], split(b, '+')[i]));
    }
    assert(parts_of(a) =~= parts_of(b));
}

/// The second names of the modifiers mean what the first ones do.
proof fn lemma_second_names()
    ensures
        part_of("ctrl"@) == Part::Ctrl,
        part_of("control"@) == Part::Ctrl,
        part_of("win"@) == Part::Win,
        part_of("super"@) == Part::Win,
{
    reveal_strlit("ctrl");
    reveal_strlit("control");
    reveal_strlit("shift");
    reveal_strlit("alt");
    reveal_strlit("win");
    reveal_strlit("super");
    assert("win"@[0] == 'w' && "alt"@[0] == 'a');
    assert("super"@[1] == 'u' && "shift"@[1] == 'h');
    assert("super"@.len() == 5 && "win"@.len() == 3 && "ctrl"@.len() == 4 && "control"@.len() == 7);
}

/// The keys among the parts, in their order.
pub open spec fn keys_in(parts: Seq<Part>) -> Seq<Part> {
    parts.filter(|p: Part| p is Key)
}

/// Neither the order of the modifiers, nor where they stand between the keys, nor how often each
/// is named makes a difference to a hotkey.
pub proof fn hotkey_ignores_order_of_modifiers(a: Seq<char>, b: Seq<char>)
    requires
        modifiers_in(parts_of(a)) == modifiers_in(parts_of(b)),
        keys_in(parts_of(a)) == keys_in(parts_of(b)),
        parts_of(a).contains(Part::Bad) == parts_of(b).contains(Part::Bad),
    ensures
        hotkey_of(a) == hotkey_of(b),
{
    lemma_last_key_of_keys(parts_of(a));
    lemma_last_key_of_keys(parts_of(b));
}

/// The last key is the last of the keys.
proof fn lemma_last_key_of_keys(parts: Seq<Part>)
    ensures
        last_key(parts) == (if keys_in(parts).len() == 0 {
            None
        } else {
            Some(keys_in(parts).last()->Key_0)
        }),
    decreases parts.len(),
{
    reveal(Seq::filter);
    if parts.len() > 0 {
        lemma_last_key_of_keys(parts.drop_last());
    }
}

/// A key that can be recorded, written alone, stands for that key without modifiers.
pub proof fn key_alone_reads_back(vk: u32)
    requires
        key_text(vk) is Some,
    ensures
        hotkey_of(key_text(vk)->0) == Some((MOD_NOREPEAT, vk)),
{
    lemma_key_part(vk);
    let parts = seq![Part::Key(vk)];
    assert(parts.last() == Part::Key(vk));
    assert(forall|x: Part| parts.contains(x) ==> x == Part::Key(vk));
}

/// A written hotkey and its lower-case form have the same parts.
proof fn lemma_parts_lowered(s: Seq<char>)
    ensures
        parts_of(lowered(s)) == parts_of(s),
{
    lemma_split_lowered(s);
    let low = split(lowered(s), '+');
    let raw = split(s, '+');
    assert forall|i: int| 0 <= i < raw.len() implies parts_of(lowered(s))[i] == parts_of(s)[i] by {
        assert(low[i] == lowered(raw[i]));
        lemma_trim_lowered(raw[i]);
        lemma_lowered_twice(trimmed(raw[i]));
    }
    assert(parts_of(lowered(s)) =~= parts_of(s));
}

/// Lower case again changes nothing.
proof fn lemma_lowered_twice(s: Seq<char>)
    ensures
        lowered(lowered(s)) == lowered(s),
{
    assert(lowered(lowered(s)) =~= lowered(s));
}

/// Splitting and lower-casing can be swapped.
proof fn lemma_split_lowered(s: Seq<char>)
    ensures
        split(lowered(s), '+').len() == split(s, '+').len(),
        forall|i: int|
            0 <= i < split(s, '+').len() ==> #[trigger] split(lowered(s), '+')[i] == lowered(
                split(s, '+')[i],
            ),
    decreases s.len(),
{
    if s.len() > 0 {
        lemma_split_lowered(s.drop_last());
        crate::text::lemma_split_nonempty(s.drop_last(), '+');
        assert(lowered(s).drop_last() =~= lowered(s.drop_last()));
        let before = split(s.drop_last(), '+');
        let low = split(lowered(s.drop_last()), '+');
        assert(lowered(s).last() == lower_char(s.last()));
        if s.last() == '+' {
            assert(lowered(Seq::<char>::empty()) =~= Seq::<char>::empty());
        } else {
            assert(low.last() == lowered(before.last()));
            assert(lowered(before.last().push(s.last())) =~= lowered(before.last()).push(
                lower_char(s.last()),
            ));
        }
    } else {
        assert(lowered(s) =~= s);
    }
}

/// Trimming and lower-casing can be swapped.
proof fn lemma_trim_lowered(s: Seq<char>)
    ensures
        trimmed(lowered(s)) == lowered(trimmed(s)),
{
    lemma_front_lowered(s);
    lemma_back_lowered(crate::text::strip_front(s, crate::text::whitespaces()));
}

proof fn lemma_front_lowered(s: Seq<char>)
    ensures
        crate::text::strip_front(lowered(s), crate::text::whitespaces()) == lowered(
            crate::text::strip_front(s, crate::text::whitespaces()),
        ),
    decreases s.len(),
{
    if s.len() > 0 {
        assert(lowered(s)[0] == lower_char(s[0]));
        assert(lowered(s).drop_first() =~= lowered(s.drop_first()));
        lemma_front_lowered(s.drop_first());
    }
}

proof fn lemma_back_lowered(s: Seq<char>)
    ensures
        crate::text::strip_back(lowered(s), crate::text::whitespaces()) == lowered(
            crate::text::strip_back(s, crate::text::whitespaces()),
        ),
    decreases s.len(),
{
    if s.len() > 0 {
        assert(lowered(s).last() == lower_char(s.last()));
        assert(lowered(s).drop_last() =~= lowered(s.drop_last()));
        lemma_back_lowered(s.drop_last());
    }
}

/// A modifier is never recorded as the key of a combination.
pub proof fn modifier_is_no_key(m: Modifiers, vk: u32)
    requires
        modifier_key(vk),
    ensures
        combination_text(m, vk) is None,
{
}

// ---------------------------------------------------------------- what words and keys mean

/// What a part of a hotkey means, by its word: the names of the modifiers mean them, one letter or
/// digit means that key, `f` with a number from 1 to 24 that function key, and nothing else means
/// anything.
pub proof fn parts_mean_by_their_words(word: Seq<char>, vk: u32)
    ensures
        part_of(word) == Part::Ctrl <==> word == "ctrl"@ || word == "control"@,
        part_of(word) == Part::Shift <==> word == "shift"@,
        part_of(word) == Part::Alt <==> word == "alt"@,
        part_of(word) == Part::Win <==> word == "win"@ || word == "super"@,
        part_of(word) == Part::Key(vk) <==> {
            ||| word.len() == 1 && 48 <= word[0] as int <= 57 && vk == word[0] as int
            ||| word.len() == 1 && 65 <= word[0] as int <= 90 && vk == word[0] as int
            ||| word.len() == 1 && 97 <= word[0] as int <= 122 && vk == word[0] as int - 32
            ||| word.len() > 1 && word[0] == 'f' && u32_of(word.skip(1)) is Some && 1 <= u32_of(
                word.skip(1),
            )->0 <= 24 && vk == 111 + u32_of(word.skip(1))->0
        },
{
    reveal_strlit("ctrl");
    reveal_strlit("control");
    reveal_strlit("shift");
    reveal_strlit("alt");
    reveal_strlit("win");
    reveal_strlit("super");
    assert("ctrl"@.len() == 4 && "control"@.len() == 7 && "shift"@.len() == 5);
    assert("alt"@.len() == 3 && "win"@.len() == 3 && "super"@.len() == 5);
    assert("ctrl"@[0] == 'c' && "control"@[0] == 'c' && "shift"@[0] == 's' && "shift"@[1] == 'h');
    assert("alt"@[0] == 'a' && "win"@[0] == 'w' && "super"@[0] == 's' && "super"@[1] == 'u');
    if word.len() > 0 {
        assert(word.drop_first() =~= word.skip(1));
    }
}

/// The parts of a hotkey are the words between its plus signs, one by one, without spaces around
/// them and in lower case.
pub proof fn parts_are_the_words_between_plus_signs(spec: Seq<char>, i: int)
    ensures
        parts_of(spec).len() == split(spec, '+').len(),
        0 <= i < split(spec, '+').len() ==> parts_of(spec)[i] == part_of(
            lowered(trimmed(split(spec, '+')[i])),
        ),
{
}

/// What a hotkey stands for: every part must mean something and one must be a key; then it is the
/// last key, and for each modifier its bit exactly where it is named, besides the bit that stops
/// repetition.
pub proof fn hotkey_is_its_last_key_and_its_modifiers(spec: Seq<char>)
    ensures
        ({
            let parts = parts_of(spec);
            match hotkey_of(spec) {
                Some((mods, vk)) => {
                    &&& !parts.contains(Part::Bad)
                    &&& exists|i: int|
                        0 <= i < parts.len() && #[trigger] parts[i] == Part::Key(vk) && forall|j: int|
                            i < j < parts.len() ==> !(#[trigger] parts[j] is Key)
                    &&& mods == 0x4000 + (if parts.contains(Part::Alt) {
                        1int
                    } else {
                        0
                    }) + (if parts.contains(Part::Ctrl) {
                        2int
                    } else {
                        0
                    }) + (if parts.contains(Part::Shift) {
                        4int
                    } else {
                        0
                    }) + (if parts.contains(Part::Win) {
                        8int
                    } else {
                        0
                    })
                },
                None => parts.contains(Part::Bad) || forall|i: int|
                    0 <= i < parts.len() ==> !(#[trigger] parts[i] is Key),
            }
        }),
{
    lemma_last_key(parts_of(spec));
}

/// What the last key is.
proof fn lemma_last_key(parts: Seq<Part>)
    ensures
        match last_key(parts) {
            Some(vk) => exists|i: int|
                0 <= i < parts.len() && #[trigger] parts[i] == Part::Key(vk) && forall|j: int|
                    i < j < parts.len() ==> !(#[trigger] parts[j] is Key),
            None => forall|i: int| 0 <= i < parts.len() ==> !(#[trigger] parts[i] is Key),
        },
    decreases parts.len(),
{
    if parts.len() > 0 {
        let last = parts.len() - 1;
        assert(parts[last] == parts.last());
        if !(parts.last() is Key) {
            let early = parts.drop_last();
            lemma_last_key(early);
            if last_key(early) is Some {
                let vk = last_key(early)->0;
                let i = choose|i: int|
                    0 <= i < early.len() && #[trigger] early[i] == Part::Key(vk) && forall|j: int|
                        i < j < early.len() ==> !(#[trigger] early[j] is Key);
                assert(parts[i] == Part::Key(vk));
                assert forall|j: int| i < j < parts.len() implies !(#[trigger] parts[j]
                    is Key) by {
                    if j < last {
                        assert(!(early[j] is Key));
                    }
                }
            } else {
                assert forall|i: int| 0 <= i < parts.len() implies !(#[trigger] parts[i]
                    is Key) by {
                    if i < last {
                        assert(!(early[i] is Key));
                    }
                }
            }
        } else {
            assert(parts[last] == Part::Key(last_key(parts)->0));
        }
    }
}

/// How a key is written: digits as they are, letters in lower case, function keys as `f` and their
/// number; no other key is written.
pub proof fn keys_are_written_by_name(vk: u32)
    ensures
        key_text(vk) is Some <==> (48 <= vk <= 57 || 65 <= vk <= 90 || 112 <= vk <= 135),
        48 <= vk <= 57 ==> key_text(vk) == Some(seq![vk as char]),
        65 <= vk <= 90 ==> key_text(vk) == Some(seq![(vk + 32) as char]),
        112 <= vk <= 120 ==> key_text(vk) == Some(seq!['f', (vk - 63) as char]),
        121 <= vk <= 130 ==> key_text(vk) == Some(seq!['f', '1', (vk - 73) as char]),
        131 <= vk <= 135 ==> key_text(vk) == Some(seq!['f', '2', (vk - 83) as char]),
{
    reveal_with_fuel(decimal, 3);
    if 48 <= vk <= 57 {
        assert(key_text(vk)->0 =~= seq![vk as char]);
    } else if 112 <= vk <= 120 {
        assert(key_text(vk)->0 =~= seq!['f', (vk - 63) as char]);
    } else if 121 <= vk <= 130 {
        assert(key_text(vk)->0 =~= seq!['f', '1', (vk - 73) as char]);
    } else if 131 <= vk <= 135 {
        assert(key_text(vk)->0 =~= seq!['f', '2', (vk - 83) as char]);
    }
}

/// How a combination is written: the modifiers that are held, each followed by a plus sign, in the
/// order control, shift, alt, Windows, and then the key. Without a modifier, or for a key that is
/// not written, there is nothing to write.
pub proof fn combinations_are_written_in_order(m: Modifiers, vk: u32)
    ensures
        combination_text(m, vk) is Some <==> (m.ctrl || m.shift || m.alt || m.win) && key_text(
            vk,
        ) is Some,
        combination_text(m, vk) is Some ==> combination_text(m, vk)->0 == (if m.ctrl {
            "ctrl+"@
        } else {
            ""@
        }) + (if m.shift {
            "shift+"@
        } else {
            ""@
        }) + (if m.alt {
            "alt+"@
        } else {
            ""@
        }) + (if m.win {
            "win+"@
        } else {
            ""@
        }) + key_text(vk)->0,
{
    reveal_strlit("ctrl");
    reveal_strlit("shift");
    reveal_strlit("alt");
    reveal_strlit("win");
    reveal_strlit("ctrl+");
    reveal_strlit("shift+");
    reveal_strlit("alt+");
    reveal_strlit("win+");
    reveal_strlit("");
    assert("ctrl"@ + seq!['+'] =~= "ctrl+"@);
    assert("shift"@ + seq!['+'] =~= "shift+"@);
    assert("alt"@ + seq!['+'] =~= "alt+"@);
    assert("win"@ + seq!['+'] =~= "win+"@);
    assert(Seq::<char>::empty() =~= ""@);
    if combination_text(m, vk) is Some {
        let a = prefix_if(m.ctrl, "ctrl"@);
        let b = prefix_if(m.shift, "shift"@);
        let c = prefix_if(m.alt, "alt"@);
        let d = prefix_if(m.win, "win"@);
        let e = key_text(vk)->0;
        assert(a + (b + (c + (d + e))) =~= a + b + c + d + e);
    }
}

/// The keys that are modifiers, one by one.
pub proof fn modifier_keys_are_as_listed(vk: u32)
    ensures
        modifier_key(vk) <==> vk == 0x10 || vk == 0x11 || vk == 0x12 || vk == 0xA0 || vk == 0xA1
            || vk == 0xA2 || vk == 0xA3 || vk == 0xA4 || vk == 0xA5 || vk == 0x5B || vk == 0x5C,
{
}

} // verus!
