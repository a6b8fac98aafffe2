//! Text primitives over sequences of characters: conversion between strings
//! and character vectors, trimming, searching, line splitting and decimal
//! formatting, each with its meaning stated on `Seq<char>`.

use vstd::prelude::*;

verus! {

/// `String::push` appends one character.
pub assume_specification[ String::push ](s: &mut String, c: char)
    ensures
        final(s)@ == old(s)@.push(c),
;

/// The characters of `s`, in order.
pub fn chars_of(s: &str) -> (v: Vec<char>)
    ensures
        v@ == s@,
{
    broadcast use vstd::string::group_string_axioms;

    let mut v: Vec<char> = Vec::new();
    for c in it: s.chars()
        invariant
            it.seq() == s@,
            v@ == it.seq().take(it.index()),
    {
        v.push(c);
    }
    v
}

/// The string made of `v[from..to]`.
pub fn string_of_range(v: &[char], from: usize, to: usize) -> (s: String)
    requires
        from <= to <= v.len(),
    ensures
        s@ == v@.subrange(from as int, to as int),
{
    let mut s = String::new();
    let mut i: usize = from;
    while i < to
        invariant
            from <= i <= to <= v.len(),
            s@ == v@.subrange(from as int, i as int),
        decreases to - i,
    {
        s.push(v[i]);
        i += 1;
    }
    s
}

/// Whether two strings hold the same characters.
pub fn same_text(a: &str, b: &str) -> (same: bool)
    ensures
        same == (a@ == b@),
{
    let x = a.to_owned();
    let y = b.to_owned();
    x == y
}

/// The characters with the Unicode property White_Space.
pub open spec fn is_white_space(c: char) -> bool {
    let u = c as u32;
    (0x09 <= u <= 0x0D) || u == 0x20 || u == 0x85 || u == 0xA0 || u == 0x1680 || (0x2000 <= u
        <= 0x200A) || u == 0x2028 || u == 0x2029 || u == 0x202F || u == 0x205F || u == 0x3000
}

/// Whether `c` is a whitespace character.
pub fn is_space(c: char) -> (b: bool)
    ensures
        b == is_white_space(c),
{
    let u: u32 = c as u32;
    (0x09 <= u && u <= 0x0D) || u == 0x20 || u == 0x85 || u == 0xA0 || u == 0x1680 || (0x2000 <= u
        && u <= 0x200A) || u == 0x2028 || u == 0x2029 || u == 0x202F || u == 0x205F || u == 0x3000
}

/// Whether every character of `s` is whitespace (true of the empty text).
pub open spec fn is_blank(s: Seq<char>) -> bool {
    forall|i: int| 0 <= i < s.len() ==> is_white_space(#[trigger] s[i])
}

/// The index of the first character that is not whitespace, or the length
/// where there is none.
pub open spec fn first_non_space(s: Seq<char>) -> int
    decreases s.len(),
{
    if s.len() == 0 || !is_white_space(s[0]) {
        0
    } else {
        1 + first_non_space(s.drop_first())
    }
}

/// One past the index of the last character that is not whitespace, or 0
/// where there is none.
pub open spec fn last_non_space_end(s: Seq<char>) -> int
    decreases s.len(),
{
    if s.len() == 0 || !is_white_space(s.last()) {
        s.len() as int
    } else {
        last_non_space_end(s.drop_last())
    }
}

/// `s` without its leading and trailing whitespace.
pub open spec fn trim_spec(s: Seq<char>) -> Seq<char> {
    let e = last_non_space_end(s);
    let b = first_non_space(s.take(e));
    s.subrange(b, e)
}

/// `first_non_space` lies within the text, everything before it is
/// whitespace, and the character there, if any, is not.
pub proof fn lemma_first_non_space(s: Seq<char>)
    ensures
        0 <= first_non_space(s) <= s.len(),
        is_blank(s.take(first_non_space(s))),
        first_non_space(s) < s.len() ==> !is_white_space(s[first_non_space(s)]),
        first_non_space(s) == s.len() <==> is_blank(s),
    decreases s.len(),
{
    if s.len() == 0 || !is_white_space(s[0]) {
    } else {
        let t = s.drop_first();
        lemma_first_non_space(t);
        let k = first_non_space(t);
        assert forall|i: int| 0 <= i < k + 1 implies is_white_space(#[trigger] s.take(k + 1)[i]) by {
            if i > 0 {
                assert(s.take(k + 1)[i] == t.take(k)[i - 1]);
            }
        }
        if is_blank(s) {
            assert forall|i: int| 0 <= i < t.len() implies is_white_space(#[trigger] t[i]) by {
                assert(t[i] == s[i + 1]);
            }
        }
        if k == t.len() {
            assert forall|i: int| 0 <= i < s.len() implies is_white_space(#[trigger] s[i]) by {
                if i > 0 {
                    assert(s[i] == t[i - 1]);
                }
            }
        }
    }
}

/// `last_non_space_end` lies within the text, everything from it on is
/// whitespace, and the character before it, if any, is not.
pub proof fn lemma_last_non_space_end(s: Seq<char>)
    ensures
        0 <= last_non_space_end(s) <= s.len(),
        is_blank(s.skip(last_non_space_end(s))),
        last_non_space_end(s) > 0 ==> !is_white_space(s[last_non_space_end(s) - 1]),
        last_non_space_end(s) == 0 <==> is_blank(s),
    decreases s.len(),
{
    if s.len() == 0 || !is_white_space(s.last()) {
        if s.len() > 0 {
            assert(!is_white_space(s[s.len() - 1]));
        }
    } else {
        let t = s.drop_last();
        lemma_last_non_space_end(t);
        let k = last_non_space_end(t);
        assert forall|i: int| 0 <= i < s.len() - k implies is_white_space(#[trigger] s.skip(k)[i]) by {
            if i < t.len() - k {
                assert(s.skip(k)[i] == t.skip(k)[i]);
            }
        }
        if is_blank(s) {
            assert forall|i: int| 0 <= i < t.len() implies is_white_space(#[trigger] t[i]) by {
                assert(t[i] == s[i]);
            }
        }
        if k == 0 {
            assert forall|i: int| 0 <= i < s.len() implies is_white_space(#[trigger] s[i]) by {
                if i < t.len() {
                    assert(s[i] == t.skip(0)[i]);
                }
            }
        }
    }
}

/// A text made of whitespace alone trims to nothing, and any other text
/// trims to a text that starts and ends with a character that is not
/// whitespace.
pub proof fn lemma_trim_blank(s: Seq<char>)
    ensures
        is_blank(s) <==> trim_spec(s).len() == 0,
        !is_blank(s) ==> !is_white_space(trim_spec(s).first()) && !is_white_space(
            trim_spec(s).last(),
        ),
{
    lemma_last_non_space_end(s);
    let e = last_non_space_end(s);
    lemma_first_non_space(s.take(e));
    let b = first_non_space(s.take(e));
    if e > 0 {
        assert(s.take(e)[e - 1] == s[e - 1]);
        assert(!is_blank(s.take(e)));
        assert(s.take(e)[b] == s[b]);
    }
}

/// Trimming a text that neither starts nor ends with whitespace leaves it
/// as it is; so trimming twice is trimming once.
pub proof fn lemma_trim_idempotent(s: Seq<char>)
    ensures
        trim_spec(trim_spec(s)) == trim_spec(s),
{
    let t = trim_spec(s);
    lemma_trim_blank(s);
    if t.len() == 0 {
        assert(trim_spec(t) =~= t);
    } else {
        assert(last_non_space_end(t) == t.len());
        assert(t.take(t.len() as int) =~= t);
        assert(first_non_space(t) == 0);
        assert(trim_spec(t) =~= t);
    }
}

/// The bounds of `v` without leading and trailing whitespace.
pub fn trim_bounds(v: &[char]) -> (bounds: (usize, usize))
    ensures
        bounds.0 <= bounds.1 <= v.len(),
        bounds.1 == last_non_space_end(v@),
        bounds.0 == first_non_space(v@.take(bounds.1 as int)),
        v@.subrange(bounds.0 as int, bounds.1 as int) == trim_spec(v@),
{
    let mut e: usize = v.len();
    assert(v@.take(v.len() as int) == v@);
    while e > 0 && is_space(v[e - 1])
        invariant
            e <= v.len(),
            last_non_space_end(v@) == last_non_space_end(v@.take(e as int)),
        decreases e,
    {
        assert(v@.take(e as int).drop_last() == v@.take(e - 1));
        e -= 1;
    }
    let mut b: usize = 0;
    proof {
        assert(v@.take(e as int).skip(0) == v@.take(e as int));
    }
    while b < e && is_space(v[b])
        invariant
            b <= e <= v.len(),
            first_non_space(v@.take(e as int)) == b + first_non_space(v@.take(e as int).skip(b as int)),
        decreases e - b,
    {
        assert(v@.take(e as int).skip(b as int).drop_first() == v@.take(e as int).skip(b + 1));
        b += 1;
    }
    (b, e)
}

/// `s` without its leading and trailing whitespace.
pub fn trim(s: &str) -> (t: String)
    ensures
        t@ == trim_spec(s@),
{
    let v = chars_of(s);
    let (b, e) = trim_bounds(v.as_slice());
    string_of_range(v.as_slice(), b, e)
}

/// Whether `needle` occurs in `hay` at index `at`.
pub open spec fn occurs_at(hay: Seq<char>, needle: Seq<char>, at: int) -> bool {
    0 <= at && at + needle.len() <= hay.len() && hay.subrange(at, at + needle.len()) == needle
}

/// The least index at or after `from` at which `needle` occurs in `hay`.
pub open spec fn find_from(hay: Seq<char>, needle: Seq<char>, from: int) -> Option<int>
    decreases hay.len() + 1 - from,
{
    if from < 0 || from + needle.len() > hay.len() {
        None
    } else if occurs_at(hay, needle, from) {
        Some(from)
    } else {
        find_from(hay, needle, from + 1)
    }
}

/// What `find_from` returns is the first occurrence at or after `from`,
/// and it returns `None` only where there is no occurrence.
pub proof fn lemma_find_from(hay: Seq<char>, needle: Seq<char>, from: int)
    requires
        0 <= from,
    ensures
        match find_from(hay, needle, from) {
            Some(i) => from <= i && occurs_at(hay, needle, i) && forall|j: int|
                from <= j < i ==> !occurs_at(hay, needle, j),
            None => forall|j: int| from <= j ==> !occurs_at(hay, needle, j),
        },
    decreases hay.len() + 1 - from,
{
    if from + needle.len() > hay.len() {
    } else if occurs_at(hay, needle, from) {
    } else {
        lemma_find_from(hay, needle, from + 1);
    }
}

/// Whether `needle` occurs in `hay` at index `at`.
pub fn occurs_at_index(hay: &[char], needle: &[char], at: usize) -> (found: bool)
    ensures
        found == occurs_at(hay@, needle@, at as int),
{
    if at > hay.len() || needle.len() > hay.len() - at {
        return false;
    }
    let mut k: usize = 0;
    while k < needle.len()
        invariant
            k <= needle.len(),
            at + needle.len() <= hay.len(),
            hay@.subrange(at as int, at + k) == needle@.take(k as int),
        decreases needle.len() - k,
    {
        if hay[at + k] != needle[k] {
            assert(hay@.subrange(at as int, at + needle.len())[k as int] != needle@[k as int]);
            return false;
        }
        assert(hay@.subrange(at as int, at + k + 1) == hay@.subrange(at as int, at + k).push(
            hay@[at + k],
        ));
        assert(needle@.take(k + 1) == needle@.take(k as int).push(needle@[k as int]));
        k += 1;
    }
    assert(needle@.take(needle.len() as int) == needle@);
    true
}

/// The first index at or after `from` at which `needle` occurs in `hay`.
pub fn find_chars(hay: &[char], needle: &[char], from: usize) -> (found: Option<usize>)
    ensures
        match found {
            Some(i) => find_from(hay@, needle@, from as int) == Some(i as int),
            None => find_from(hay@, needle@, from as int) is None,
        },
{
    if needle.len() > hay.len() || from > hay.len() - needle.len() {
        return None;
    }
    let last: usize = hay.len() - needle.len();
    let mut i: usize = from;
    loop
        invariant
            from <= i <= last,
            last == hay.len() - needle.len(),
            find_from(hay@, needle@, from as int) == find_from(hay@, needle@, i as int),
        decreases last - i,
    {
        if occurs_at_index(hay, needle, i) {
            return Some(i);
        }
        if i == last {
            assert(find_from(hay@, needle@, i + 1) is None);
            return None;
        }
        i += 1;
    }
}

/// Whether `s` begins with `prefix`.
pub open spec fn has_prefix(s: Seq<char>, prefix: Seq<char>) -> bool {
    occurs_at(s, prefix, 0)
}

/// The index of the first occurrence of `c` in `s`, or the length of `s`
/// where it does not occur.
pub open spec fn index_of(s: Seq<char>, c: char) -> int
    decreases s.len(),
{
    if s.len() == 0 || s[0] == c {
        0
    } else {
        1 + index_of(s.drop_first(), c)
    }
}

/// `index_of` lies within the text, `c` does not occur before it, and it
/// occurs there unless the index is the length.
pub proof fn lemma_index_of(s: Seq<char>, c: char)
    ensures
        0 <= index_of(s, c) <= s.len(),
        forall|i: int| 0 <= i < index_of(s, c) ==> s[i] != c,
        index_of(s, c) < s.len() ==> s[index_of(s, c)] == c,
    decreases s.len(),
{
    if s.len() == 0 || s[0] == c {
    } else {
        let t = s.drop_first();
        lemma_index_of(t, c);
        assert forall|i: int| 0 <= i < index_of(s, c) implies s[i] != c by {
            if i > 0 {
                assert(s[i] == t[i - 1]);
            }
        }
    }
}

/// The index of the first `c` in `v[from..]`, counted from the start of
/// `v`; the length of `v` where there is none.
pub fn index_of_char(v: &[char], c: char, from: usize) -> (at: usize)
    requires
        from <= v.len(),
    ensures
        from <= at <= v.len(),
        at == from + index_of(v@.skip(from as int), c),
{
    let mut i: usize = from;
    proof {
        assert(v@.skip(from as int).skip(0) == v@.skip(from as int));
    }
    while i < v.len() && v[i] != c
        invariant
            from <= i <= v.len(),
            index_of(v@.skip(from as int), c) == (i - from) + index_of(v@.skip(i as int), c),
        decreases v.len() - i,
    {
        assert(v@.skip(i as int).drop_first() == v@.skip(i + 1));
        i += 1;
    }
    i
}

/// The number of bytes that `c` takes in UTF-8.
pub open spec fn utf8_width(c: char) -> nat {
    let u = c as u32;
    if u < 0x80 {
        1
    } else if u < 0x800 {
        2
    } else if u < 0x10000 {
        3
    } else {
        4
    }
}

/// The number of bytes that `s` takes in UTF-8.
pub open spec fn byte_len(s: Seq<char>) -> nat
    decreases s.len(),
{
    if s.len() == 0 {
        0
    } else {
        byte_len(s.drop_last()) + utf8_width(s.last())
    }
}

/// The number of bytes that `c` takes in UTF-8.
pub fn char_width(c: char) -> (w: usize)
    ensures
        w == utf8_width(c),
        1 <= w <= 4,
{
    let u: u32 = c as u32;
    if u < 0x80 {
        1
    } else if u < 0x800 {
        2
    } else if u < 0x10000 {
        3
    } else {
        4
    }
}

/// The byte length of a text is the sum over its parts, and at least its
/// number of characters.
pub proof fn lemma_byte_len_concat(a: Seq<char>, b: Seq<char>)
    ensures
        byte_len(a + b) == byte_len(a) + byte_len(b),
        byte_len(a) >= a.len(),
    decreases b.len(), a.len(),
{
    if a.len() > 0 {
        lemma_byte_len_concat(a.drop_last(), Seq::empty());
    }
    if b.len() == 0 {
        assert(a + b == a);
    } else {
        lemma_byte_len_concat(a, b.drop_last());
        assert((a + b).drop_last() == a + b.drop_last());
    }
}

/// The number of bytes that `v` takes in UTF-8.
pub fn byte_count(v: &[char]) -> (n: u128)
    ensures
        n == byte_len(v@),
{
    let mut total: u128 = 0;
    let mut i: usize = 0;
    while i < v.len()
        invariant
            i <= v.len(),
            total == byte_len(v@.take(i as int)),
            total <= 4 * i,
        decreases v.len() - i,
    {
        let w = char_width(v[i]);
        proof {
            assert(v@.take(i + 1).drop_last() == v@.take(i as int));
        }
        total += w as u128;
        i += 1;
    }
    assert(v@.take(v.len() as int) == v@);
    total
}

/// The texts of a sequence of strings.
pub open spec fn texts(v: Seq<String>) -> Seq<Seq<char>> {
    Seq::new(v.len(), |i: int| v[i]@)
}

/// `line` without one trailing carriage return.
pub open spec fn strip_cr(line: Seq<char>) -> Seq<char> {
    if line.len() > 0 && line.last() == '\r' {
        line.drop_last()
    } else {
        line
    }
}

/// The lines of `s`: it is cut after each line feed; the line feed, and a
/// carriage return right before it, are left out; what follows the last
/// line feed is a line only if it is not empty.
pub open spec fn split_lines(s: Seq<char>) -> Seq<Seq<char>>
    decreases s.len(),
{
    if s.len() == 0 {
        Seq::empty()
    } else {
        let i = index_of(s, '\n');
        if i < 0 || i >= s.len() {
            seq![s]
        } else {
            seq![strip_cr(s.take(i))] + split_lines(s.skip(i + 1))
        }
    }
}

/// The lines of `v`, as `split_lines` defines them.
pub fn lines_of(v: &[char]) -> (lines: Vec<String>)
    ensures
        texts(lines@) == split_lines(v@),
{
    let mut lines: Vec<String> = Vec::new();
    let mut pos: usize = 0;
    proof {
        assert(v@.skip(0) == v@);
        assert(texts(lines@) + split_lines(v@.skip(0)) == split_lines(v@));
    }
    while pos < v.len()
        invariant
            pos <= v.len(),
            texts(lines@) + split_lines(v@.skip(pos as int)) == split_lines(v@),
        decreases v.len() - pos,
    {
        let ghost rest = v@.skip(pos as int);
        let ghost before = texts(lines@);
        let nl = index_of_char(v, '\n', pos);
        proof {
            lemma_index_of(rest, '\n');
        }
        if nl == v.len() {
            let line = string_of_range(v, pos, nl);
            lines.push(line);
            proof {
                assert(v@.subrange(pos as int, nl as int) == rest);
                assert(split_lines(rest) == seq![rest]);
                assert(texts(lines@) == before + seq![rest]);
                assert(split_lines(v@.skip(nl as int)) == Seq::<Seq<char>>::empty());
                assert(texts(lines@) + split_lines(v@.skip(nl as int)) == split_lines(v@));
            }
            pos = nl;
        } else {
            let mut end = nl;
            if end > pos && v[end - 1] == '\r' {
                end -= 1;
            }
            let line = string_of_range(v, pos, end);
            lines.push(line);
            proof {
                let i = nl - pos;
                assert(rest.take(i) == v@.subrange(pos as int, nl as int));
                assert(strip_cr(rest.take(i)) == v@.subrange(pos as int, end as int));
                assert(rest.skip(i + 1) == v@.skip(nl + 1));
                assert(texts(lines@) == before + seq![strip_cr(rest.take(i))]);
                assert(split_lines(rest) == seq![strip_cr(rest.take(i))] + split_lines(
                    v@.skip(nl + 1),
                ));
                assert(texts(lines@) + split_lines(v@.skip(nl + 1)) == before + split_lines(rest));
            }
            pos = nl + 1;
        }
    }
    proof {
        assert(split_lines(v@.skip(pos as int)) == Seq::<Seq<char>>::empty());
        assert(texts(lines@) + Seq::<Seq<char>>::empty() == texts(lines@));
    }
    lines
}

/// The parts put one after the other, with `sep` between each two.
pub open spec fn join_spec(parts: Seq<Seq<char>>, sep: Seq<char>) -> Seq<char>
    decreases parts.len(),
{
    if parts.len() == 0 {
        Seq::empty()
    } else if parts.len() == 1 {
        parts[0]
    } else {
        join_spec(parts.drop_last(), sep) + sep + parts.last()
    }
}

/// The first `count` strings of `parts`, joined by `sep`.
pub fn join_first(parts: &Vec<String>, count: usize, sep: &str) -> (joined: String)
    requires
        count <= parts.len(),
    ensures
        joined@ == join_spec(texts(parts@).take(count as int), sep@),
{
    let mut joined = String::new();
    let mut i: usize = 0;
    proof {
        assert(texts(parts@).take(0) == Seq::<Seq<char>>::empty());
    }
    while i < count
        invariant
            i <= count <= parts.len(),
            joined@ == join_spec(texts(parts@).take(i as int), sep@),
        decreases count - i,
    {
        proof {
            let next = texts(parts@).take(i + 1);
            assert(next.drop_last() == texts(parts@).take(i as int));
            assert(next.last() == parts@[i as int]@);
            if i == 0 {
                assert(join_spec(next, sep@) == parts@[i as int]@);
                assert(Seq::<char>::empty() + parts@[i as int]@ == parts@[i as int]@);
            }
        }
        if i > 0 {
            joined.append(sep);
        }
        joined.append(parts[i].as_str());
        i += 1;
    }
    joined
}

/// The strings of `parts`, joined by `sep`.
pub fn join(parts: &Vec<String>, sep: &str) -> (joined: String)
    ensures
        joined@ == join_spec(texts(parts@), sep@),
{
    assert(texts(parts@).take(parts.len() as int) == texts(parts@));
    join_first(parts, parts.len(), sep)
}

/// The decimal digit for a value below ten.
pub open spec fn digit_char(d: int) -> char {
    if d == 0 {
        '0'
    } else if d == 1 {
        '1'
    } else if d == 2 {
        '2'
    } else if d == 3 {
        '3'
    } else if d == 4 {
        '4'
    } else if d == 5 {
        '5'
    } else if d == 6 {
        '6'
    } else if d == 7 {
        '7'
    } else if d == 8 {
        '8'
    } else {
        '9'
    }
}

/// The decimal digits of `n`, most significant first, without leading
/// zeros.
pub open spec fn decimal_digits(n: nat) -> Seq<char>
    decreases n,
{
    if n < 10 {
        seq![digit_char(n as int)]
    } else {
        decimal_digits(n / 10).push(digit_char((n % 10) as int))
    }
}

/// The decimal text of an integer, with a minus sign where it is negative.
pub open spec fn decimal_text(i: int) -> Seq<char> {
    if i < 0 {
        seq!['-'] + decimal_digits((-i) as nat)
    } else {
        decimal_digits(i as nat)
    }
}

fn digit_of(d: u128) -> (c: char)
    requires
        d < 10,
    ensures
        c == digit_char(d as int),
{
    if d == 0 {
        '0'
    } else if d == 1 {
        '1'
    } else if d == 2 {
        '2'
    } else if d == 3 {
        '3'
    } else if d == 4 {
        '4'
    } else if d == 5 {
        '5'
    } else if d == 6 {
        '6'
    } else if d == 7 {
        '7'
    } else if d == 8 {
        '8'
    } else {
        '9'
    }
}

/// Appends the decimal digits of `n` to `out`.
pub fn push_decimal(out: &mut String, n: u128)
    ensures
        final(out)@ == old(out)@ + decimal_digits(n as nat),
    decreases n,
{
    if n >= 10 {
        push_decimal(out, n / 10);
    }
    out.push(digit_of(n % 10));
    proof {
        if n >= 10 {
            assert(old(out)@ + decimal_digits((n / 10) as nat).push(digit_char((n % 10) as int))
                == (old(out)@ + decimal_digits((n / 10) as nat)).push(digit_char((n % 10) as int)));
        } else {
            assert(old(out)@ + seq![digit_char(n as int)] == old(out)@.push(digit_char(n as int)));
        }
    }
}

/// The decimal text of `n`.
pub fn decimal_of(n: u128) -> (text: String)
    ensures
        text@ == decimal_text(n as int),
{
    let mut text = String::new();
    push_decimal(&mut text, n);
    assert(Seq::<char>::empty() + decimal_digits(n as nat) == decimal_digits(n as nat));
    text
}

/// The decimal text of a signed number.
pub fn signed_decimal_of(n: i64) -> (text: String)
    ensures
        text@ == decimal_text(n as int),
{
    let mut text = String::new();
    if n < 0 {
        text.push('-');
        let magnitude: u128 = if n == i64::MIN {
            9223372036854775808u128
        } else {
            (-n) as u128
        };
        push_decimal(&mut text, magnitude);
        assert(Seq::<char>::empty().push('-') == seq!['-']);
    } else {
        push_decimal(&mut text, n as u128);
        assert(Seq::<char>::empty() + decimal_digits(n as nat) == decimal_digits(n as nat));
    }
    text
}

/// The index of the first whitespace character, or the length where there
/// is none.
pub open spec fn first_space(s: Seq<char>) -> int
    decreases s.len(),
{
    if s.len() == 0 || is_white_space(s[0]) {
        0
    } else {
        1 + first_space(s.drop_first())
    }
}

/// The first run of characters that are not whitespace; empty where the
/// text is blank.
pub open spec fn first_word(s: Seq<char>) -> Seq<char> {
    let rest = s.skip(first_non_space(s));
    rest.take(first_space(rest))
}

/// The first word of `v`, as `first_word` defines it.
pub fn first_word_of(v: &[char]) -> (word: String)
    ensures
        word@ == first_word(v@),
{
    let mut b: usize = 0;
    proof {
        assert(v@.skip(0) == v@);
    }
    while b < v.len() && is_space(v[b])
        invariant
            b <= v.len(),
            first_non_space(v@) == b + first_non_space(v@.skip(b as int)),
        decreases v.len() - b,
    {
        assert(v@.skip(b as int).drop_first() == v@.skip(b + 1));
        b += 1;
    }
    let ghost rest = v@.skip(b as int);
    let mut e: usize = b;
    proof {
        assert(rest.skip(0) == rest);
    }
    while e < v.len() && !is_space(v[e])
        invariant
            b <= e <= v.len(),
            rest == v@.skip(b as int),
            first_space(rest) == (e - b) + first_space(rest.skip(e - b)),
        decreases v.len() - e,
    {
        assert(rest.skip(e - b).drop_first() == rest.skip(e - b + 1));
        assert(rest.skip(e - b)[0] == v@[e as int]);
        e += 1;
    }
    proof {
        if e < v.len() {
            assert(rest.skip(e - b)[0] == v@[e as int]);
        }
        assert(rest.take(e - b) == v@.subrange(b as int, e as int));
    }
    string_of_range(v, b, e)
}

/// A name for the text that `str::to_lowercase` returns for a text.
pub uninterp spec fn lowercase_of(s: Seq<char>) -> Seq<char>;

/// `str::to_lowercase`: the lowercase equivalent of the text, as Unicode
/// defines it. The contract only names the result.
#[verifier::external_body]
pub(crate) fn to_lowercase(s: &str) -> (lower: String)
    ensures
        lower@ == lowercase_of(s@),
{
    s.to_lowercase()
}

/// Whether `c` does not occur in `s`.
pub open spec fn free_of(s: Seq<char>, c: char) -> bool {
    forall|i: int| 0 <= i < s.len() ==> #[trigger] s[i] != c
}

/// In a text that starts with a part free of `c`, followed by `c`, the
/// first `c` is right after that part.
pub proof fn lemma_index_of_after(a: Seq<char>, c: char, b: Seq<char>)
    requires
        free_of(a, c),
    ensures
        index_of(a + seq![c] + b, c) == a.len(),
        index_of(a, c) == a.len(),
    decreases a.len(),
{
    let s = a + seq![c] + b;
    if a.len() == 0 {
        assert(s[0] == c);
    } else {
        assert(s[0] == a[0]);
        let t = a.drop_first();
        assert forall|i: int| 0 <= i < t.len() implies #[trigger] t[i] != c by {
            assert(t[i] == a[i + 1]);
        }
        lemma_index_of_after(t, c, b);
        assert(s.drop_first() == t + seq![c] + b);
    }
}

/// No line of a text holds a line feed.
pub proof fn lemma_lines_free_of_newline(s: Seq<char>)
    ensures
        forall|k: int| 0 <= k < split_lines(s).len() ==> free_of(#[trigger] split_lines(s)[k], '\n'),
    decreases s.len(),
{
    if s.len() > 0 {
        lemma_index_of(s, '\n');
        let i = index_of(s, '\n');
        if i >= s.len() {
            assert(free_of(s, '\n'));
        } else {
            lemma_lines_free_of_newline(s.skip(i + 1));
            let head = strip_cr(s.take(i));
            assert forall|j: int| 0 <= j < head.len() implies #[trigger] head[j] != '\n' by {
                assert(head[j] == s[j]);
            }
            let rest = split_lines(s.skip(i + 1));
            assert forall|k: int| 0 <= k < split_lines(s).len() implies free_of(
                #[trigger] split_lines(s)[k],
                '\n',
            ) by {
                if k > 0 {
                    assert(split_lines(s)[k] == rest[k - 1]);
                }
            }
        }
    }
}

/// Joining a first part with one or more further parts puts the
/// separator after the first part.
pub proof fn lemma_join_front(first: Seq<char>, rest: Seq<Seq<char>>, sep: Seq<char>)
    requires
        rest.len() > 0,
    ensures
        join_spec(seq![first] + rest, sep) == first + sep + join_spec(rest, sep),
    decreases rest.len(),
{
    let all = seq![first] + rest;
    assert(all.drop_last() == seq![first] + rest.drop_last());
    assert(all.last() == rest.last());
    if rest.len() == 1 {
        assert(all.drop_last() == seq![first]);
        assert(join_spec(all.drop_last(), sep) == first);
        assert(join_spec(rest, sep) == rest[0]);
    } else {
        lemma_join_front(first, rest.drop_last(), sep);
        assert(first + sep + join_spec(rest.drop_last(), sep) + sep + rest.last() == first + sep + (
        join_spec(rest.drop_last(), sep) + sep + rest.last()));
    }
}

/// Parts without line feeds, joined by line feeds, have no more lines than
/// there are parts.
pub proof fn lemma_lines_of_join(parts: Seq<Seq<char>>)
    requires
        forall|k: int| 0 <= k < parts.len() ==> free_of(#[trigger] parts[k], '\n'),
    ensures
        split_lines(join_spec(parts, "\n"@)).len() <= parts.len(),
    decreases parts.len(),
{
    reveal_strlit("\n");
    let sep = "\n"@;
    assert(sep == seq!['\n']);
    if parts.len() == 0 {
    } else if parts.len() == 1 {
        let only = parts[0];
        assert(free_of(only, '\n'));
        lemma_index_of_after(only, '\n', Seq::empty());
    } else {
        let first = parts[0];
        let rest = parts.drop_first();
        assert(parts == seq![first] + rest);
        lemma_join_front(first, rest, sep);
        let tail = join_spec(rest, sep);
        let joined = first + sep + tail;
        assert(free_of(first, '\n'));
        lemma_index_of_after(first, '\n', tail);
        assert(joined.take(first.len() as int) == first);
        assert(joined.skip(first.len() as int + 1) == tail);
        assert forall|k: int| 0 <= k < rest.len() implies free_of(#[trigger] rest[k], '\n') by {
            assert(rest[k] == parts[k + 1]);
        }
        lemma_lines_of_join(rest);
    }
}

/// A text of one character takes as many bytes as the character.
pub proof fn lemma_byte_len_single(c: char)
    ensures
        byte_len(seq![c]) == utf8_width(c),
{
    assert(seq![c].drop_last() == Seq::<char>::empty());
    assert(byte_len(seq![c]) == byte_len(Seq::<char>::empty()) + utf8_width(c));
}

/// The first lines of a text, joined by line feeds, take no more bytes
/// than the text.
pub proof fn lemma_joined_lines_fit(s: Seq<char>, count: int)
    requires
        0 <= count <= split_lines(s).len(),
    ensures
        byte_len(join_spec(split_lines(s).take(count), "\n"@)) <= byte_len(s),
    decreases s.len(),
{
    reveal_strlit("\n");
    let sep = "\n"@;
    assert(sep == seq!['\n']);
    let lines = split_lines(s);
    if count == 0 {
        assert(lines.take(0) == Seq::<Seq<char>>::empty());
    } else {
        lemma_index_of(s, '\n');
        let i = index_of(s, '\n');
        if i >= s.len() {
            assert(lines.take(1) == seq![s]);
        } else {
            let raw = s.take(i);
            let head = strip_cr(raw);
            let after = s.skip(i + 1);
            let rest = split_lines(after);
            assert(s == raw + seq!['\n'] + after);
            lemma_byte_len_concat(raw + seq!['\n'], after);
            lemma_byte_len_concat(raw, seq!['\n']);
            lemma_byte_len_single('\n');
            if head != raw {
                assert(raw == head + seq!['\r']);
                lemma_byte_len_concat(head, seq!['\r']);
            }
            assert(byte_len(head) <= byte_len(raw));
            if count == 1 {
                assert(lines.take(1) == seq![head]);
                lemma_byte_len_concat(Seq::empty(), after);
            } else {
                assert(lines.take(count) == seq![head] + rest.take(count - 1));
                lemma_join_front(head, rest.take(count - 1), sep);
                lemma_joined_lines_fit(after, count - 1);
                let tail = join_spec(rest.take(count - 1), sep);
                lemma_byte_len_concat(head + sep, tail);
                lemma_byte_len_concat(head, sep);
            }
        }
    }
}

/// A text that neither starts nor ends with whitespace is its own trim.
pub proof fn lemma_trim_identity(s: Seq<char>)
    requires
        s.len() > 0 ==> !is_white_space(s.first()) && !is_white_space(s.last()),
    ensures
        trim_spec(s) == s,
{
    if s.len() > 0 {
        assert(last_non_space_end(s) == s.len());
        assert(s.take(s.len() as int) =~= s);
        assert(first_non_space(s) == 0);
    }
    assert(trim_spec(s) =~= s);
}

/// Whitespace after a text does not move the end of its last word.
pub proof fn lemma_end_with_blank_suffix(s: Seq<char>, blank: Seq<char>)
    requires
        is_blank(blank),
    ensures
        last_non_space_end(s + blank) == last_non_space_end(s),
    decreases blank.len(),
{
    if blank.len() == 0 {
        assert(s + blank =~= s);
    } else {
        assert((s + blank).last() == blank.last());
        assert((s + blank).drop_last() =~= s + blank.drop_last());
        assert forall|i: int| 0 <= i < blank.drop_last().len() implies is_white_space(
            #[trigger] blank.drop_last()[i],
        ) by {
            assert(blank.drop_last()[i] == blank[i]);
        }
        lemma_end_with_blank_suffix(s, blank.drop_last());
    }
}

/// Whitespace before a text moves the start of its first word by the
/// length of the whitespace.
pub proof fn lemma_start_with_blank_prefix(blank: Seq<char>, s: Seq<char>)
    requires
        is_blank(blank),
    ensures
        first_non_space(blank + s) == blank.len() + first_non_space(s),
    decreases blank.len(),
{
    if blank.len() == 0 {
        assert(blank + s =~= s);
    } else {
        assert((blank + s)[0] == blank[0]);
        assert((blank + s).drop_first() =~= blank.drop_first() + s);
        assert forall|i: int| 0 <= i < blank.drop_first().len() implies is_white_space(
            #[trigger] blank.drop_first()[i],
        ) by {
            assert(blank.drop_first()[i] == blank[i + 1]);
        }
        lemma_start_with_blank_prefix(blank.drop_first(), s);
    }
}

/// Whitespace before a text moves the end of its last word by the length
/// of the whitespace, unless the text has no word.
pub proof fn lemma_end_with_blank_prefix(blank: Seq<char>, s: Seq<char>)
    requires
        is_blank(blank),
    ensures
        last_non_space_end(blank + s) == (if is_blank(s) {
            0
        } else {
            blank.len() + last_non_space_end(s)
        }),
    decreases s.len(),
{
    lemma_last_non_space_end(s);
    if s.len() == 0 {
        assert(blank + s =~= blank);
        lemma_last_non_space_end(blank);
    } else if !is_white_space(s.last()) {
        assert((blank + s).last() == s.last());
    } else {
        assert((blank + s).last() == s.last());
        assert((blank + s).drop_last() =~= blank + s.drop_last());
        lemma_end_with_blank_prefix(blank, s.drop_last());
        lemma_last_non_space_end(s.drop_last());
    }
}

/// Whitespace around a text does not change its trim.
pub proof fn lemma_trim_padded(before: Seq<char>, s: Seq<char>, after: Seq<char>)
    requires
        is_blank(before),
        is_blank(after),
    ensures
        trim_spec(before + s + after) == trim_spec(s),
{
    let whole = before + s + after;
    lemma_end_with_blank_suffix(before + s, after);
    lemma_end_with_blank_prefix(before, s);
    lemma_last_non_space_end(s);
    lemma_trim_blank(s);
    let e = last_non_space_end(s);
    if is_blank(s) {
        assert(whole.take(0) =~= Seq::<char>::empty());
        assert(trim_spec(whole) =~= trim_spec(s));
    } else {
        assert(whole.take(before.len() + e) =~= before + s.take(e));
        lemma_start_with_blank_prefix(before, s.take(e));
        lemma_first_non_space(s.take(e));
        let b = first_non_space(s.take(e));
        assert(whole.subrange(before.len() + b, before.len() + e) =~= s.subrange(b, e));
    }
}

/// Trimming does not cut into a part that starts and ends with a
/// character that is not whitespace: the trim of a text around such a
/// part is the part with the end of what stood before it and the start of
/// what stood after it.
pub proof fn lemma_trim_keeps_core(before: Seq<char>, core: Seq<char>, after: Seq<char>) -> (cut: (
    int,
    int,
))
    requires
        core.len() > 0,
        !is_white_space(core.first()),
        !is_white_space(core.last()),
    ensures
        0 <= cut.0 <= before.len(),
        0 <= cut.1 <= after.len(),
        trim_spec(before + core + after) == before.skip(cut.0) + core + after.take(cut.1),
{
    let text = before + core + after;
    let e = last_non_space_end(text);
    lemma_last_non_space_end(text);
    let last = before.len() + core.len() - 1;
    assert(text[last] == core.last());
    if e <= last {
        assert(text.skip(e)[last - e] == text[last]);
    }
    let head = text.take(e);
    let b = first_non_space(head);
    lemma_first_non_space(head);
    let first = before.len() as int;
    assert(head[first] == core.first());
    if b > first {
        assert(head.take(b)[first] == head[first]);
    }
    let kept = e - before.len() - core.len();
    assert(text.subrange(b, e) =~= before.skip(b) + core + after.take(kept));
    (b, kept)
}

/// In a text without carriage returns, the first lines joined by line
/// feeds are a prefix of the text.
pub proof fn lemma_joined_lines_prefix(s: Seq<char>, count: int)
    requires
        free_of(s, '\r'),
        0 <= count <= split_lines(s).len(),
    ensures
        join_spec(split_lines(s).take(count), "\n"@).len() <= s.len(),
        join_spec(split_lines(s).take(count), "\n"@) == s.take(
            join_spec(split_lines(s).take(count), "\n"@).len() as int,
        ),
    decreases s.len(),
{
    reveal_strlit("\n");
    let sep = "\n"@;
    assert(sep == seq!['\n']);
    let lines = split_lines(s);
    if count == 0 {
        assert(lines.take(0) =~= Seq::<Seq<char>>::empty());
        assert(s.take(0) =~= Seq::<char>::empty());
    } else {
        lemma_index_of(s, '\n');
        let i = index_of(s, '\n');
        if i >= s.len() {
            assert(lines.take(1) =~= seq![s]);
            assert(s.take(s.len() as int) =~= s);
        } else {
            let first = s.take(i);
            let tail = s.skip(i + 1);
            let rest = split_lines(tail);
            if first.len() > 0 {
                assert(first.last() == s[i - 1]);
            }
            assert(strip_cr(first) == first);
            assert forall|k: int| 0 <= k < tail.len() implies #[trigger] tail[k] != '\r' by {
                assert(tail[k] == s[i + 1 + k]);
            }
            lemma_joined_lines_prefix(tail, count - 1);
            let joined = join_spec(rest.take(count - 1), sep);
            assert(lines.take(count) =~= seq![first] + rest.take(count - 1));
            if count == 1 {
                assert(lines.take(1) =~= seq![first]);
            } else {
                lemma_join_front(first, rest.take(count - 1), sep);
                assert(first + sep + tail.take(joined.len() as int) =~= s.take(
                    i + 1 + joined.len(),
                ));
            }
        }
    }
}

} // verus!
