//! Text handling shared by the rest of the library.
//!
//! Strings are modelled as sequences of `char`s. The executable helpers work on
//! `Vec<char>`, which can be indexed in constant time, and convert from and to
//! `&str` and `String` at the edges.

use vstd::prelude::*;

verus! {

/// `needle` stands in `hay` at offset `at`.
pub open spec fn occurs_at(hay: Seq<char>, needle: Seq<char>, at: int) -> bool {
    &&& 0 <= at
    &&& at + needle.len() <= hay.len()
    &&& hay.subrange(at, at + needle.len()) == needle
}

/// `needle` stands somewhere in `hay`.
pub open spec fn contains_text(hay: Seq<char>, needle: Seq<char>) -> bool {
    exists|at: int| occurs_at(hay, needle, at)
}

/// The views of a sequence of strings, in the same order.
pub open spec fn views(items: Seq<String>) -> Seq<Seq<char>> {
    Seq::new(items.len(), |i: int| items[i]@)
}

/// ASCII upper-case letters mapped to lower case, every other character kept.
pub open spec fn lower_char(c: char) -> char {
    if 'A' <= c && c <= 'Z' {
        ((c as u8) + 32) as char
    } else {
        c
    }
}

/// `s` with each character mapped by [`lower_char`].
pub open spec fn lower(s: Seq<char>) -> Seq<char> {
    Seq::new(s.len(), |i: int| lower_char(s[i]))
}

/// The characters with the Unicode property `White_Space`.
pub open spec fn is_space(c: char) -> bool {
    ||| c == ' '
    ||| ('\u{9}' <= c && c <= '\u{d}')
    ||| c == '\u{85}'
    ||| c == '\u{a0}'
    ||| c == '\u{1680}'
    ||| ('\u{2000}' <= c && c <= '\u{200a}')
    ||| c == '\u{2028}'
    ||| c == '\u{2029}'
    ||| c == '\u{202f}'
    ||| c == '\u{205f}'
    ||| c == '\u{3000}'
}

/// `s` without its leading white space.
pub open spec fn trim_start(s: Seq<char>) -> Seq<char>
    decreases s.len(),
{
    if s.len() > 0 && is_space(s[0]) {
        trim_start(s.drop_first())
    } else {
        s
    }
}

/// `s` without its trailing white space.
pub open spec fn trim_end(s: Seq<char>) -> Seq<char>
    decreases s.len(),
{
    if s.len() > 0 && is_space(s.last()) {
        trim_end(s.drop_last())
    } else {
        s
    }
}

/// `s` without leading and trailing white space.
pub open spec fn trim(s: Seq<char>) -> Seq<char> {
    trim_end(trim_start(s))
}

/// The offset of the first character of `s` that is one of `stops`, or the
/// length of `s` where none is.
pub open spec fn first_of(s: Seq<char>, stops: Seq<char>) -> int
    decreases s.len(),
{
    if s.len() == 0 || stops.contains(s[0]) {
        0
    } else {
        1 + first_of(s.drop_first(), stops)
    }
}

/// The offset of the last `c` in `s`, or -1 where `s` holds none.
pub open spec fn last_of(s: Seq<char>, c: char) -> int
    decreases s.len(),
{
    if s.len() == 0 {
        -1
    } else if s.last() == c {
        s.len() - 1
    } else {
        last_of(s.drop_last(), c)
    }
}

/// [`first_of`] is in range, stands on a stop unless it is the length, and
/// no stop comes before it.
pub proof fn lemma_first_of(s: Seq<char>, stops: Seq<char>)
    ensures
        0 <= first_of(s, stops) <= s.len(),
        forall|j: int| 0 <= j < first_of(s, stops) ==> !stops.contains(#[trigger] s[j]),
        first_of(s, stops) < s.len() ==> stops.contains(s[first_of(s, stops)]),
    decreases s.len(),
{
    if s.len() == 0 || stops.contains(s[0]) {
    } else {
        let rest = s.drop_first();
        lemma_first_of(rest, stops);
        assert forall|j: int| 0 <= j < first_of(s, stops) implies !stops.contains(
            #[trigger] s[j],
        ) by {
            if j > 0 {
                assert(s[j] == rest[j - 1]);
            }
        }
        if first_of(s, stops) < s.len() {
            assert(s[first_of(s, stops)] == rest[first_of(rest, stops)]);
        }
    }
}

/// Any offset with the properties that [`lemma_first_of`] states is [`first_of`].
pub proof fn lemma_first_of_is(s: Seq<char>, stops: Seq<char>, at: int)
    requires
        0 <= at <= s.len(),
        forall|j: int| 0 <= j < at ==> !stops.contains(#[trigger] s[j]),
        at < s.len() ==> stops.contains(s[at]),
    ensures
        first_of(s, stops) == at,
{
    lemma_first_of(s, stops);
    let found = first_of(s, stops);
    if found < at {
        assert(!stops.contains(s[found]));
    } else if at < found {
        assert(!stops.contains(s[at]));
    }
}

/// [`last_of`] is -1 or stands on a `c`, and no `c` comes after it.
pub proof fn lemma_last_of(s: Seq<char>, c: char)
    ensures
        -1 <= last_of(s, c) < s.len(),
        last_of(s, c) >= 0 ==> s[last_of(s, c)] == c,
        forall|j: int| last_of(s, c) < j < s.len() ==> #[trigger] s[j] != c,
    decreases s.len(),
{
    if s.len() == 0 || s.last() == c {
    } else {
        let rest = s.drop_last();
        lemma_last_of(rest, c);
        assert forall|j: int| last_of(s, c) < j < s.len() implies #[trigger] s[j] != c by {
            if j < rest.len() {
                assert(s[j] == rest[j]);
            }
        }
    }
}

/// Any offset with the properties that [`lemma_last_of`] states is [`last_of`].
pub proof fn lemma_last_of_is(s: Seq<char>, c: char, at: int)
    requires
        -1 <= at < s.len(),
        at >= 0 ==> s[at] == c,
        forall|j: int| at < j < s.len() ==> #[trigger] s[j] != c,
    ensures
        last_of(s, c) == at,
{
    lemma_last_of(s, c);
    let found = last_of(s, c);
    if found < at {
        assert(s[at] != c);
    } else if at < found {
        assert(s[found] != c);
    }
}

/// The length of the run of characters at the start of `s` that are not
/// white space.
pub open spec fn token_end(s: Seq<char>) -> int
    decreases s.len(),
{
    if s.len() == 0 || is_space(s[0]) {
        0
    } else {
        1 + token_end(s.drop_first())
    }
}

/// The first run of characters of `s` that are not white space; empty where
/// `s` holds nothing but white space.
pub open spec fn first_token(s: Seq<char>) -> Seq<char> {
    trim_start(s).take(token_end(trim_start(s)))
}

proof fn lemma_token_end(s: Seq<char>, at: int)
    requires
        0 <= at <= s.len(),
        forall|j: int| 0 <= j < at ==> !is_space(#[trigger] s[j]),
        at < s.len() ==> is_space(s[at]),
    ensures
        token_end(s) == at,
    decreases at,
{
    if at > 0 {
        assert(!is_space(s[0]));
        let rest = s.drop_first();
        assert forall|j: int| 0 <= j < at - 1 implies !is_space(#[trigger] rest[j]) by {
            assert(rest[j] == s[j + 1]);
        }
        lemma_token_end(rest, at - 1);
    }
}

/// A text without a token holds nothing but white space.
pub proof fn lemma_no_token(s: Seq<char>)
    requires
        first_token(s).len() == 0,
    ensures
        forall|i: int| 0 <= i < s.len() ==> is_space(#[trigger] s[i]),
    decreases s.len(),
{
    if s.len() > 0 {
        if is_space(s[0]) {
            let rest = s.drop_first();
            assert(trim_start(s) == trim_start(rest));
            lemma_no_token(rest);
            assert forall|i: int| 0 <= i < s.len() implies is_space(#[trigger] s[i]) by {
                if i > 0 {
                    assert(s[i] == rest[i - 1]);
                }
            }
        } else {
            assert(trim_start(s) == s);
            lemma_token_len(s.drop_first());
            assert(token_end(s) == 1 + token_end(s.drop_first()));
            assert(s.take(token_end(s)).len() == token_end(s));
        }
    }
}

/// A token is no longer than the text it begins.
proof fn lemma_token_len(s: Seq<char>)
    ensures
        0 <= token_end(s) <= s.len(),
    decreases s.len(),
{
    if s.len() > 0 && !is_space(s[0]) {
        lemma_token_len(s.drop_first());
    }
}

proof fn lemma_trim_start(s: Seq<char>, from: int)
    requires
        0 <= from <= s.len(),
        forall|j: int| 0 <= j < from ==> is_space(#[trigger] s[j]),
        from < s.len() ==> !is_space(s[from]),
    ensures
        trim_start(s) == s.skip(from),
    decreases from,
{
    if from == 0 {
        assert(s.skip(0) == s);
    } else {
        assert(is_space(s[0]));
        let rest = s.drop_first();
        assert forall|j: int| 0 <= j < from - 1 implies is_space(#[trigger] rest[j]) by {
            assert(rest[j] == s[j + 1]);
        }
        lemma_trim_start(rest, from - 1);
        assert(rest.skip(from - 1) == s.skip(from));
    }
}

proof fn lemma_trim_end(s: Seq<char>, to: int)
    requires
        0 <= to <= s.len(),
        forall|j: int| to <= j < s.len() ==> is_space(#[trigger] s[j]),
        0 < to ==> !is_space(s[to - 1]),
    ensures
        trim_end(s) == s.take(to),
    decreases s.len() - to,
{
    if to == s.len() {
        assert(s.take(to) == s);
    } else {
        assert(is_space(s[s.len() - 1]));
        let rest = s.drop_last();
        assert forall|j: int| to <= j < rest.len() implies is_space(#[trigger] rest[j]) by {
            assert(rest[j] == s[j]);
        }
        lemma_trim_end(rest, to);
        assert(rest.take(to) == s.take(to));
    }
}

/// The characters of `s`.
pub fn chars_of(s: &str) -> (v: Vec<char>)
    ensures
        v@ == s@,
{
    let mut v: Vec<char> = Vec::new();
    for c in it: s.chars()
        invariant
            it.seq() == s@,
            v@ == it.seq().take(it.index()),
    {
        v.push(c);
    }
    assert(v@ == s@);
    v
}

/// `String::push`: appends one character to the string.
#[verifier::external_body]
fn push_char(s: &mut String, c: char)
    ensures
        final(s)@ == old(s)@.push(c),
{
    s.push(c)
}

/// The string made of the characters of `v`.
pub fn string_of(v: &Vec<char>) -> (s: String)
    ensures
        s@ == v@,
{
    let mut s = String::new();
    let mut i: usize = 0;
    while i < v.len()
        invariant
            i <= v.len(),
            s@ == v@.take(i as int),
        decreases v.len() - i,
    {
        push_char(&mut s, v[i]);
        assert(v@.take(i + 1) == v@.take(i as int).push(v@[i as int]));
        i += 1;
    }
    assert(v@ == v@.take(v.len() as int));
    s
}

/// Whether two texts hold the same characters.
pub fn same_chars(a: &Vec<char>, b: &Vec<char>) -> (same: bool)
    ensures
        same == (a@ == b@),
{
    if a.len() != b.len() {
        return false;
    }
    let mut i: usize = 0;
    while i < a.len()
        invariant
            a.len() == b.len(),
            i <= a.len(),
            forall|j: int| 0 <= j < i ==> a@[j] == b@[j],
        decreases a.len() - i,
    {
        if a[i] != b[i] {
            return false;
        }
        i += 1;
    }
    assert(a@ =~= b@);
    true
}

/// Whether two strings hold the same characters.
pub fn same_text(a: &str, b: &str) -> (same: bool)
    ensures
        same == (a@ == b@),
{
    let a_chars = chars_of(a);
    let b_chars = chars_of(b);
    same_chars(&a_chars, &b_chars)
}

/// Whether `needle` stands in `hay` at offset `at`.
pub fn matches_at(hay: &Vec<char>, needle: &Vec<char>, at: usize) -> (found: bool)
    ensures
        found == occurs_at(hay@, needle@, at as int),
{
    if at > hay.len() || needle.len() > hay.len() - at {
        return false;
    }
    let mut i: usize = 0;
    while i < needle.len()
        invariant
            at + needle.len() <= hay.len(),
            i <= needle.len(),
            forall|j: int| 0 <= j < i ==> hay@[at + j] == needle@[j],
        decreases needle.len() - i,
    {
        if hay[at + i] != needle[i] {
            assert(hay@.subrange(at as int, at + needle.len())[i as int] == hay@[at + i]);
            return false;
        }
        i += 1;
    }
    assert(hay@.subrange(at as int, at + needle.len()) =~= needle@);
    true
}

/// Whether `hay` begins with `needle`.
pub fn starts_with(hay: &Vec<char>, needle: &Vec<char>) -> (found: bool)
    ensures
        found == needle@.is_prefix_of(hay@),
{
    matches_at(hay, needle, 0)
}

/// Whether `hay` ends with `needle`.
pub fn ends_with(hay: &Vec<char>, needle: &Vec<char>) -> (found: bool)
    ensures
        found == needle@.is_suffix_of(hay@),
{
    if needle.len() > hay.len() {
        return false;
    }
    matches_at(hay, needle, hay.len() - needle.len())
}

/// Whether `needle` stands somewhere in `hay`.
pub fn contains(hay: &Vec<char>, needle: &Vec<char>) -> (found: bool)
    ensures
        found == contains_text(hay@, needle@),
{
    if needle.len() > hay.len() {
        assert forall|at: int| !occurs_at(hay@, needle@, at) by {}
        return false;
    }
    let last: usize = hay.len() - needle.len();
    let mut at: usize = 0;
    while at < last
        invariant
            last == hay.len() - needle.len(),
            at <= last,
            forall|j: int| 0 <= j < at ==> !occurs_at(hay@, needle@, j),
        decreases last - at,
    {
        if matches_at(hay, needle, at) {
            return true;
        }
        at += 1;
    }
    if matches_at(hay, needle, last) {
        return true;
    }
    assert forall|j: int| !occurs_at(hay@, needle@, j) by {}
    false
}

/// The characters of `v` from offset `from` up to, not including, offset `to`.
pub fn slice_of(v: &Vec<char>, from: usize, to: usize) -> (part: Vec<char>)
    requires
        from <= to <= v.len(),
    ensures
        part@ == v@.subrange(from as int, to as int),
{
    let mut part: Vec<char> = Vec::new();
    let mut i: usize = from;
    while i < to
        invariant
            from <= i <= to <= v.len(),
            part@ == v@.subrange(from as int, i as int),
        decreases to - i,
    {
        part.push(v[i]);
        assert(v@.subrange(from as int, i + 1) == v@.subrange(from as int, i as int).push(
            v@[i as int],
        ));
        i += 1;
    }
    part
}

/// `c` in lower case, where it is an ASCII upper-case letter.
pub fn to_lower_char(c: char) -> (low: char)
    ensures
        low == lower_char(c),
{
    if 'A' <= c && c <= 'Z' {
        ((c as u8) + 32) as char
    } else {
        c
    }
}

/// Whether `c` is white space.
pub fn is_space_char(c: char) -> (space: bool)
    ensures
        space == is_space(c),
{
    c == ' ' || ('\u{9}' <= c && c <= '\u{d}') || c == '\u{85}' || c == '\u{a0}' || c == '\u{1680}'
        || ('\u{2000}' <= c && c <= '\u{200a}') || c == '\u{2028}' || c == '\u{2029}' || c
        == '\u{202f}' || c == '\u{205f}' || c == '\u{3000}'
}

/// `v` without leading and trailing white space.
pub fn trimmed(v: &Vec<char>) -> (part: Vec<char>)
    ensures
        part@ == trim(v@),
{
    let mut from: usize = 0;
    while from < v.len() && is_space_char(v[from])
        invariant
            from <= v.len(),
            forall|j: int| 0 <= j < from ==> is_space(#[trigger] v@[j]),
        decreases v.len() - from,
    {
        from += 1;
    }
    let mut to: usize = v.len();
    while to > from && is_space_char(v[to - 1])
        invariant
            from <= to <= v.len(),
            forall|j: int| to <= j < v.len() ==> is_space(#[trigger] v@[j]),
        decreases to,
    {
        to -= 1;
    }
    proof {
        lemma_trim_start(v@, from as int);
        let rest = v@.skip(from as int);
        assert forall|j: int| to - from <= j < rest.len() implies is_space(#[trigger] rest[j]) by {
            assert(rest[j] == v@[j + from]);
        }
        lemma_trim_end(rest, to - from);
        assert(rest.take(to - from) == v@.subrange(from as int, to as int));
    }
    slice_of(v, from, to)
}

/// Whether `c` is one of `stops`.
pub fn is_one_of(c: char, stops: &Vec<char>) -> (found: bool)
    ensures
        found == stops@.contains(c),
{
    let mut i: usize = 0;
    while i < stops.len()
        invariant
            i <= stops.len(),
            forall|j: int| 0 <= j < i ==> stops@[j] != c,
        decreases stops.len() - i,
    {
        if stops[i] == c {
            return true;
        }
        i += 1;
    }
    false
}

/// The offset of the first character of `v` that is one of `stops`, or the
/// length of `v` where none is.
pub fn find_first_of(v: &Vec<char>, stops: &Vec<char>) -> (at: usize)
    ensures
        at == first_of(v@, stops@),
        at <= v.len(),
{
    let mut at: usize = 0;
    while at < v.len() && !is_one_of(v[at], stops)
        invariant
            at <= v.len(),
            forall|j: int| 0 <= j < at ==> !stops@.contains(#[trigger] v@[j]),
        decreases v.len() - at,
    {
        at += 1;
    }
    proof {
        lemma_first_of_is(v@, stops@, at as int);
    }
    at
}

/// The offset of the last `c` in `v`, if `v` holds one.
pub fn find_last(v: &Vec<char>, c: char) -> (at: Option<usize>)
    ensures
        match at {
            Some(i) => i == last_of(v@, c) && i < v.len(),
            None => last_of(v@, c) == -1,
        },
{
    let mut i: usize = v.len();
    while i > 0
        invariant
            i <= v.len(),
            forall|j: int| i <= j < v.len() ==> #[trigger] v@[j] != c,
        decreases i,
    {
        if v[i - 1] == c {
            proof {
                lemma_last_of_is(v@, c, i - 1);
            }
            return Some(i - 1);
        }
        i -= 1;
    }
    proof {
        lemma_last_of_is(v@, c, -1);
    }
    None
}

/// `v` with its ASCII upper-case letters in lower case.
pub fn lowered(v: &Vec<char>) -> (low: Vec<char>)
    ensures
        low@ == lower(v@),
{
    let mut low: Vec<char> = Vec::new();
    let mut i: usize = 0;
    while i < v.len()
        invariant
            i <= v.len(),
            low@ == lower(v@.take(i as int)),
        decreases v.len() - i,
    {
        low.push(to_lower_char(v[i]));
        assert(lower(v@.take(i + 1)) =~= lower(v@.take(i as int)).push(lower_char(v@[i as int])));
        i += 1;
    }
    assert(v@.take(v.len() as int) == v@);
    low
}

/// Appends the characters of `tail` to `v`.
pub fn extend(v: &mut Vec<char>, tail: &Vec<char>)
    ensures
        final(v)@ == old(v)@ + tail@,
{
    let mut i: usize = 0;
    while i < tail.len()
        invariant
            i <= tail.len(),
            v@ == old(v)@ + tail@.take(i as int),
        decreases tail.len() - i,
    {
        v.push(tail[i]);
        assert(tail@.take(i + 1) == tail@.take(i as int).push(tail@[i as int]));
        assert(old(v)@ + tail@.take(i + 1) =~= (old(v)@ + tail@.take(i as int)).push(
            tail@[i as int],
        ));
        i += 1;
    }
    assert(tail@.take(tail.len() as int) == tail@);
}

/// The first run of characters of `v` that are not white space.
pub fn first_token_of(v: &Vec<char>) -> (token: Vec<char>)
    ensures
        token@ == first_token(v@),
{
    let mut from: usize = 0;
    while from < v.len() && is_space_char(v[from])
        invariant
            from <= v.len(),
            forall|j: int| 0 <= j < from ==> is_space(#[trigger] v@[j]),
        decreases v.len() - from,
    {
        from += 1;
    }
    let mut to: usize = from;
    while to < v.len() && !is_space_char(v[to])
        invariant
            from <= to <= v.len(),
            forall|j: int| from <= j < to ==> !is_space(#[trigger] v@[j]),
        decreases v.len() - to,
    {
        to += 1;
    }
    proof {
        lemma_trim_start(v@, from as int);
        let rest = v@.skip(from as int);
        assert forall|j: int| 0 <= j < to - from implies !is_space(#[trigger] rest[j]) by {
            assert(rest[j] == v@[j + from]);
        }
        lemma_token_end(rest, to - from);
        assert(rest.take(to - from) == v@.subrange(from as int, to as int));
    }
    slice_of(v, from, to)
}

} // verus!
