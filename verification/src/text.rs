//! Strings as sequences of characters: conversion, comparison, trimming,
//! splitting and decimal rendering.

use vstd::prelude::*;

verus! {

/// `String::push` appends one character.
pub assume_specification[ String::push ](s: &mut String, c: char)
    ensures
        final(s)@ == old(s)@.push(c),
;

/// The characters of a string, in order.
pub fn chars_of(s: &str) -> (r: Vec<char>)
    ensures
        r@ == s@,
{
    let mut v: Vec<char> = Vec::new();
    for c in it: s.chars()
        invariant
            it.seq() == s@,
            v@ == s@.take(it.index() as int),
    {
        v.push(c);
    }
    v
}

/// The string made of the characters `from..to` of `v`.
pub fn string_of_range(v: &[char], from: usize, to: usize) -> (s: String)
    requires
        from <= to <= v@.len(),
    ensures
        s@ == v@.subrange(from as int, to as int),
{
    let mut s = String::new();
    let mut i: usize = from;
    while i < to
        invariant
            from <= i <= to <= v@.len(),
            s@ == v@.subrange(from as int, i as int),
        decreases to - i,
    {
        s.push(v[i]);
        assert(v@.subrange(from as int, i as int).push(v@[i as int]) =~= v@.subrange(
            from as int,
            i + 1,
        ));
        i += 1;
    }
    s
}

pub fn chars_eq(a: &[char], b: &[char]) -> (r: bool)
    ensures
        r == (a@ == b@),
{
    if a.len() != b.len() {
        return false;
    }
    for i in 0..a.len()
        invariant
            a@.len() == b@.len(),
            a@.take(i as int) == b@.take(i as int),
    {
        if a[i] != b[i] {
            return false;
        }
        assert(a@.take(i + 1) =~= a@.take(i as int).push(a@[i as int]));
        assert(b@.take(i + 1) =~= b@.take(i as int).push(b@[i as int]));
    }
    assert(a@.take(a@.len() as int) =~= a@);
    assert(b@.take(b@.len() as int) =~= b@);
    true
}

/// Equality of strings.
pub fn str_eq(a: &str, b: &str) -> (r: bool)
    ensures
        r == (a@ == b@),
{
    let x = chars_of(a);
    let y = chars_of(b);
    chars_eq(&x, &y)
}

pub open spec fn opt_str_view(o: Option<&str>) -> Option<Seq<char>> {
    match o {
        Some(s) => Some(s@),
        None => None,
    }
}

/// The elements of `v` as character sequences.
pub open spec fn strs(v: Seq<String>) -> Seq<Seq<char>> {
    Seq::new(v.len(), |i: int| v[i]@)
}

pub open spec fn str_refs(v: Seq<&str>) -> Seq<Seq<char>> {
    Seq::new(v.len(), |i: int| v[i]@)
}

/// Whether `v` holds the string `x`.
pub fn contains_str(v: &Vec<String>, x: &str) -> (r: bool)
    ensures
        r == strs(v@).contains(x@),
{
    for i in 0..v.len()
        invariant
            forall|k: int| 0 <= k < i ==> strs(v@)[k] != x@,
    {
        if str_eq(v[i].as_str(), x) {
            assert(strs(v@)[i as int] == x@);
            return true;
        }
    }
    false
}

pub fn clone_strings(v: &Vec<String>) -> (r: Vec<String>)
    ensures
        r@ == v@,
{
    let mut out: Vec<String> = Vec::new();
    for i in 0..v.len()
        invariant
            out@ == v@.take(i as int),
    {
        out.push(v[i].clone());
    }
    out
}

/// Whether both are absent or the same text.
pub fn same_opt(a: &Option<String>, b: &Option<String>) -> (r: bool)
    ensures
        r == (a.deep_view() == b.deep_view()),
{
    match (a, b) {
        (Some(x), Some(y)) => str_eq(x.as_str(), y.as_str()),
        (None, None) => true,
        _ => false,
    }
}

pub fn clone_opt_string(o: &Option<String>) -> (r: Option<String>)
    ensures
        r == *o,
{
    match o {
        Some(s) => Some(s.clone()),
        None => None,
    }
}

// ---------------------------------------------------------------------------
// Character classes
// ---------------------------------------------------------------------------

/// Unicode `White_Space`.
pub open spec fn is_space(c: char) -> bool {
    let n = c as u32;
    ||| 0x9 <= n <= 0xd
    ||| n == 0x20
    ||| n == 0x85
    ||| n == 0xa0
    ||| n == 0x1680
    ||| 0x2000 <= n <= 0x200a
    ||| n == 0x2028
    ||| n == 0x2029
    ||| n == 0x202f
    ||| n == 0x205f
    ||| n == 0x3000
}

pub fn char_is_space(c: char) -> (r: bool)
    ensures
        r == is_space(c),
{
    let n: u32 = c as u32;
    (0x9 <= n && n <= 0xd) || n == 0x20 || n == 0x85 || n == 0xa0 || n == 0x1680 || (0x2000 <= n
        && n <= 0x200a) || n == 0x2028 || n == 0x2029 || n == 0x202f || n == 0x205f || n == 0x3000
}

pub open spec fn is_digit(c: char) -> bool {
    '0' <= c <= '9'
}

pub open spec fn is_upper(c: char) -> bool {
    'A' <= c <= 'Z'
}

/// ASCII lower case of a character; every other character stays.
pub open spec fn lower_char(c: char) -> char {
    if is_upper(c) {
        (c as u32 + 32) as char
    } else {
        c
    }
}

pub fn char_lower(c: char) -> (r: char)
    ensures
        r == lower_char(c),
{
    if 'A' <= c && c <= 'Z' {
        let n: u8 = c as u8;
        (n + 32) as char
    } else {
        c
    }
}

pub open spec fn lower(s: Seq<char>) -> Seq<char> {
    Seq::new(s.len(), |i: int| lower_char(s[i]))
}

/// `str::to_ascii_lowercase`.
pub fn ascii_lower(s: &str) -> (r: String)
    ensures
        r@ == lower(s@),
{
    let v = chars_of(s);
    let mut out = String::new();
    for i in 0..v.len()
        invariant
            v@ == s@,
            out@ == lower(s@).take(i as int),
    {
        out.push(char_lower(v[i]));
    }
    out
}

/// `str::eq_ignore_ascii_case`.
pub fn eq_ignore_case(a: &str, b: &str) -> (r: bool)
    ensures
        r == (lower(a@) == lower(b@)),
{
    str_eq(ascii_lower(a).as_str(), ascii_lower(b).as_str())
}

// ---------------------------------------------------------------------------
// Trimming
// ---------------------------------------------------------------------------

pub open spec fn trim_start(s: Seq<char>) -> Seq<char>
    decreases s.len(),
{
    if s.len() > 0 && is_space(s[0]) {
        trim_start(s.skip(1))
    } else {
        s
    }
}

pub open spec fn trim_end(s: Seq<char>) -> Seq<char>
    decreases s.len(),
{
    if s.len() > 0 && is_space(s.last()) {
        trim_end(s.drop_last())
    } else {
        s
    }
}

pub open spec fn trim(s: Seq<char>) -> Seq<char> {
    trim_end(trim_start(s))
}

/// Number of leading white-space characters.
fn leading_spaces(v: &[char]) -> (n: usize)
    ensures
        n <= v@.len(),
        trim_start(v@) == v@.skip(n as int),
{
    let mut i: usize = 0;
    assert(v@.skip(0) =~= v@);
    while i < v.len() && char_is_space(v[i])
        invariant
            i <= v@.len(),
            trim_start(v@) == trim_start(v@.skip(i as int)),
        decreases v@.len() - i,
    {
        assert(v@.skip(i as int).skip(1) =~= v@.skip(i + 1));
        i += 1;
    }
    i
}

/// `str::trim_start`.
pub fn str_trim_start(s: &str) -> (r: String)
    ensures
        r@ == trim_start(s@),
{
    let v = chars_of(s);
    let n = leading_spaces(&v);
    string_of_range(&v, n, v.len())
}

fn trimmed_len(v: &[char], from: usize) -> (n: usize)
    requires
        from <= v@.len(),
    ensures
        from <= n <= v@.len(),
        trim_end(v@.skip(from as int)) == v@.subrange(from as int, n as int),
{
    let mut n: usize = v.len();
    assert(v@.skip(from as int) =~= v@.subrange(from as int, n as int));
    while n > from && char_is_space(v[n - 1])
        invariant
            from <= n <= v@.len(),
            trim_end(v@.skip(from as int)) == trim_end(v@.subrange(from as int, n as int)),
        decreases n,
    {
        assert(v@.subrange(from as int, n as int).drop_last() =~= v@.subrange(from as int, n - 1));
        n -= 1;
    }
    n
}

/// `str::trim`.
pub fn str_trim(s: &str) -> (r: String)
    ensures
        r@ == trim(s@),
{
    let v = chars_of(s);
    let a = leading_spaces(&v);
    let b = trimmed_len(&v, a);
    string_of_range(&v, a, b)
}

/// Whether nothing but white space is in `s`.
pub open spec fn blank(s: Seq<char>) -> bool {
    trim(s).len() == 0
}

pub fn is_blank(s: &str) -> (r: bool)
    ensures
        r == blank(s@),
{
    let t = str_trim(s);
    t.as_str().is_empty()
}

/// Trimming leaves white space at neither end, and trims nothing more a second time.
pub proof fn trim_is_idempotent(s: Seq<char>)
    ensures
        trim(trim(s)) == trim(s),
        trim(s).len() > 0 ==> !is_space(trim(s)[0]) && !is_space(trim(s).last()),
{
    lemma_trim_start(s);
    lemma_trim_end(trim_start(s));
    let t = trim(s);
    if t.len() > 0 {
        assert(t[0] == trim_start(s)[0]);
    }
}

proof fn lemma_trim_start(s: Seq<char>)
    ensures
        trim_start(s).len() <= s.len(),
        trim_start(s).len() > 0 ==> !is_space(trim_start(s)[0]),
    decreases s.len(),
{
    if s.len() > 0 && is_space(s[0]) {
        lemma_trim_start(s.skip(1));
    }
}

proof fn lemma_trim_end(s: Seq<char>)
    ensures
        trim_end(s).len() <= s.len(),
        trim_end(s).len() > 0 ==> !is_space(trim_end(s).last()) && trim_end(s)[0] == s[0],
        forall|i: int| 0 <= i < trim_end(s).len() ==> trim_end(s)[i] == s[i],
    decreases s.len(),
{
    if s.len() > 0 && is_space(s.last()) {
        let t = s.drop_last();
        lemma_trim_end(t);
        assert(forall|i: int| 0 <= i < t.len() ==> t[i] == s[i]);
    }
}

// ---------------------------------------------------------------------------
// Searching and splitting
// ---------------------------------------------------------------------------

/// Position of the first `c`, or the length where there is none.
pub open spec fn first_index(s: Seq<char>, c: char) -> nat
    decreases s.len(),
{
    if s.len() == 0 || s[0] == c {
        0
    } else {
        first_index(s.skip(1), c) + 1
    }
}

pub proof fn first_index_is_first(s: Seq<char>, c: char)
    ensures
        0 <= first_index(s, c) <= s.len(),
        forall|i: int| 0 <= i < first_index(s, c) ==> s[i] != c,
        first_index(s, c) < s.len() ==> s[first_index(s, c) as int] == c,
        first_index(s, c) < s.len() <==> s.contains(c),
    decreases s.len(),
{
    if s.len() == 0 || s[0] == c {
    } else {
        let t = s.skip(1);
        first_index_is_first(t, c);
        assert forall|i: int| 0 <= i < first_index(s, c) implies s[i] != c by {
            if i > 0 {
                assert(t[i - 1] == s[i]);
            }
        }
        if s.contains(c) {
            let k = choose|k: int| 0 <= k < s.len() && s[k] == c;
            assert(t[k - 1] == c);
        }
    }
}

proof fn lemma_first_index_unique(s: Seq<char>, c: char, n: int)
    requires
        0 <= n <= s.len(),
        forall|i: int| 0 <= i < n ==> s[i] != c,
        n < s.len() ==> s[n] == c,
    ensures
        first_index(s, c) == n,
{
    first_index_is_first(s, c);
    let m = first_index(s, c) as int;
    if m < n {
        assert(s[m] != c);
    }
    if n < m {
        assert(s[n] != c);
    }
}

/// Position of the first `c` at or after `from`.
pub fn find_from(v: &[char], from: usize, c: char) -> (n: usize)
    requires
        from <= v@.len(),
    ensures
        from <= n <= v@.len(),
        n - from == first_index(v@.skip(from as int), c),
        forall|i: int| from <= i < n ==> v@[i] != c,
        n < v@.len() ==> v@[n as int] == c,
{
    let mut i: usize = from;
    while i < v.len() && v[i] != c
        invariant
            from <= i <= v@.len(),
            forall|k: int| from <= k < i ==> v@[k] != c,
        decreases v@.len() - i,
    {
        i += 1;
    }
    proof {
        let s = v@.skip(from as int);
        assert forall|k: int| 0 <= k < i - from implies s[k] != c by {
            assert(s[k] == v@[k + from]);
        }
        lemma_first_index_unique(s, c, i - from);
    }
    i
}

/// The pieces of `s` between the separators `c`.
pub open spec fn split(s: Seq<char>, c: char) -> Seq<Seq<char>>
    decreases s.len(),
{
    let i = first_index(s, c) as int;
    if i >= s.len() {
        seq![s]
    } else {
        seq![s.take(i)] + split(s.skip(i + 1), c)
    }
}

/// `str::split` on a character.
pub fn split_char(s: &str, c: char) -> (r: Vec<String>)
    ensures
        strs(r@) == split(s@, c),
{
    let v = chars_of(s);
    let mut out: Vec<String> = Vec::new();
    let mut i: usize = 0;
    assert(v@.skip(0) =~= v@);
    proof {
        first_index_is_first(v@, c);
    }
    assert(strs(out@) + split(v@, c) =~= split(v@, c));
    loop
        invariant
            i <= v@.len(),
            v@ == s@,
            strs(out@) + split(v@.skip(i as int), c) == split(s@, c),
        decreases v@.len() - i,
    {
        let n = find_from(&v, i, c);
        let ghost rest = v@.skip(i as int);
        let piece = string_of_range(&v, i, n);
        let ghost before = strs(out@);
        assert(piece@ =~= rest.take(n - i));
        out.push(piece);
        assert(strs(out@) =~= before.push(rest.take(n - i)));
        if n >= v.len() {
            assert(rest.take(n - i) =~= rest);
            assert(split(rest, c) =~= seq![rest]);
            assert(before.push(rest) =~= before + seq![rest]);
            return out;
        }
        assert(rest.skip(n - i + 1) =~= v@.skip(n + 1));
        assert(before.push(rest.take(n - i)) + split(v@.skip(n + 1), c) =~= before + (seq![
            rest.take(n - i),
        ] + split(v@.skip(n + 1), c)));
        i = n + 1;
    }
}

/// A line without the carriage return that may end it.
pub open spec fn strip_cr(s: Seq<char>) -> Seq<char> {
    if s.len() > 0 && s.last() == '\r' {
        s.drop_last()
    } else {
        s
    }
}

/// The lines of `s`: ended by a line feed, or a carriage return and a line feed.
/// A last line without an ending counts, an empty one does not.
pub open spec fn lines(s: Seq<char>) -> Seq<Seq<char>>
    decreases s.len(),
{
    let i = first_index(s, '\n') as int;
    if s.len() == 0 {
        seq![]
    } else if i >= s.len() {
        seq![s]
    } else {
        seq![strip_cr(s.take(i))] + lines(s.skip(i + 1))
    }
}

/// `str::lines`.
pub fn str_lines(s: &str) -> (r: Vec<String>)
    ensures
        strs(r@) == lines(s@),
{
    let v = chars_of(s);
    let mut out: Vec<String> = Vec::new();
    let mut i: usize = 0;
    assert(v@.skip(0) =~= v@);
    assert(strs(out@) + lines(v@) =~= lines(v@));
    while i < v.len()
        invariant
            i <= v@.len(),
            v@ == s@,
            strs(out@) + lines(v@.skip(i as int)) == lines(s@),
        decreases v@.len() - i,
    {
        let n = find_from(&v, i, '\n');
        let ghost rest = v@.skip(i as int);
        let ghost before = strs(out@);
        proof {
            first_index_is_first(rest, '\n');
        }
        if n >= v.len() {
            let piece = string_of_range(&v, i, n);
            assert(piece@ =~= rest);
            out.push(piece);
            assert(strs(out@) =~= before.push(rest));
            assert(lines(rest) =~= seq![rest]);
            assert(before.push(rest) =~= before + seq![rest]);
            return out;
        }
        let end: usize = if n > i && v[n - 1] == '\r' {
            n - 1
        } else {
            n
        };
        let piece = string_of_range(&v, i, end);
        assert(piece@ =~= strip_cr(rest.take(n - i))) by {
            assert(rest.take(n - i) =~= v@.subrange(i as int, n as int));
        }
        out.push(piece);
        assert(strs(out@) =~= before.push(strip_cr(rest.take(n - i))));
        assert(rest.skip(n - i + 1) =~= v@.skip(n + 1));
        assert(before.push(strip_cr(rest.take(n - i))) + lines(v@.skip(n + 1)) =~= before + (seq![
            strip_cr(rest.take(n - i)),
        ] + lines(v@.skip(n + 1))));
        i = n + 1;
    }
    assert(v@.skip(i as int).len() == 0);
    assert(strs(out@) + lines(v@.skip(i as int)) =~= strs(out@));
    out
}

/// The parts with `sep` between any two.
pub open spec fn join(parts: Seq<Seq<char>>, sep: Seq<char>) -> Seq<char>
    decreases parts.len(),
{
    if parts.len() == 0 {
        seq![]
    } else if parts.len() == 1 {
        parts[0]
    } else {
        join(parts.drop_last(), sep) + sep + parts.last()
    }
}

/// `[String]::join`.
pub fn join_strings(parts: &Vec<String>, sep: &str) -> (r: String)
    ensures
        r@ == join(strs(parts@), sep@),
{
    let mut out = String::new();
    for i in 0..parts.len()
        invariant
            out@ == join(strs(parts@).take(i as int), sep@),
    {
        let ghost p = strs(parts@);
        if i > 0 {
            out.append(sep);
        }
        out.append(parts[i].as_str());
        assert(p.take(i + 1).drop_last() =~= p.take(i as int));
        assert(i == 0 ==> join(p.take(i as int), sep@) + p[0] =~= p[0]);
    }
    assert(strs(parts@).take(parts@.len() as int) =~= strs(parts@));
    out
}

pub fn starts_with(s: &str, prefix: &str) -> (r: bool)
    ensures
        r == prefix@.is_prefix_of(s@),
{
    let v = chars_of(s);
    let p = chars_of(prefix);
    if p.len() > v.len() {
        return false;
    }
    for i in 0..p.len()
        invariant
            v@ == s@,
            p@ == prefix@,
            p@.len() <= v@.len(),
            forall|k: int| 0 <= k < i ==> p@[k] == v@[k],
    {
        if p[i] != v[i] {
            assert(prefix@[i as int] != s@.subrange(0, prefix@.len() as int)[i as int]);
            return false;
        }
    }
    true
}

pub fn ends_with(s: &str, suffix: &str) -> (r: bool)
    ensures
        r == suffix@.is_suffix_of(s@),
{
    let v = chars_of(s);
    let p = chars_of(suffix);
    if p.len() > v.len() {
        return false;
    }
    let d: usize = v.len() - p.len();
    for i in 0..p.len()
        invariant
            v@ == s@,
            p@ == suffix@,
            d + p.len() == v.len(),
            p@.len() <= v@.len(),
            forall|k: int| 0 <= k < i ==> p@[k] == v@[d + k],
    {
        if p[i] != v[d + i] {
            assert(suffix@[i as int] != s@.subrange(d as int, s@.len() as int)[i as int]);
            return false;
        }
    }
    true
}

/// What follows `prefix` in `s`, if `s` begins with it.
pub open spec fn after_prefix(s: Seq<char>, prefix: Seq<char>) -> Option<Seq<char>> {
    if prefix.is_prefix_of(s) {
        Some(s.skip(prefix.len() as int))
    } else {
        None
    }
}

/// `str::strip_prefix`.
pub fn strip_prefix(s: &str, prefix: &str) -> (r: Option<String>)
    ensures
        match r {
            Some(x) => after_prefix(s@, prefix@) == Some(x@),
            None => after_prefix(s@, prefix@) is None,
        },
{
    if starts_with(s, prefix) {
        let v = chars_of(s);
        let p = chars_of(prefix);
        let t = string_of_range(&v, p.len(), v.len());
        assert(t@ =~= s@.skip(prefix@.len() as int));
        Some(t)
    } else {
        None
    }
}

/// Number of characters.
pub fn char_count(s: &str) -> (n: usize)
    ensures
        n == s@.len(),
{
    chars_of(s).len()
}

/// Whether `c` is in `s`.
pub fn has_char(s: &str, c: char) -> (r: bool)
    ensures
        r == s@.contains(c),
{
    let v = chars_of(s);
    for i in 0..v.len()
        invariant
            v@ == s@,
            forall|k: int| 0 <= k < i ==> v@[k] != c,
    {
        if v[i] == c {
            assert(s@[i as int] == c);
            return true;
        }
    }
    false
}

/// Position of the first occurrence of `pat`.
pub open spec fn find_sub(s: Seq<char>, pat: Seq<char>) -> Option<nat>
    decreases s.len(),
{
    if pat.is_prefix_of(s) {
        Some(0)
    } else if s.len() == 0 {
        None
    } else {
        match find_sub(s.skip(1), pat) {
            Some(n) => Some(n + 1),
            None => None,
        }
    }
}

/// An occurrence lies within the text, and nothing before it is one.
pub proof fn find_sub_is_within(s: Seq<char>, pat: Seq<char>)
    ensures
        match find_sub(s, pat) {
            Some(n) => n + pat.len() <= s.len() && s.subrange(n as int, (n + pat.len()) as int) == pat,
            None => true,
        },
    decreases s.len(),
{
    if pat.is_prefix_of(s) {
    } else if s.len() > 0 {
        find_sub_is_within(s.skip(1), pat);
        match find_sub(s.skip(1), pat) {
            Some(n) => {
                let n = n as int;
                assert(s.subrange(n + 1, n + 1 + pat.len()) =~= s.skip(1).subrange(
                    n,
                    n + pat.len(),
                ));
            },
            None => {},
        }
    }
}

fn prefix_at(v: &[char], from: usize, p: &[char]) -> (r: bool)
    requires
        from <= v@.len(),
    ensures
        r == p@.is_prefix_of(v@.skip(from as int)),
{
    if p.len() > v.len() - from {
        return false;
    }
    for i in 0..p.len()
        invariant
            from <= v@.len(),
            p.len() <= v.len() - from,
            forall|k: int| 0 <= k < i ==> p@[k] == v@.skip(from as int)[k],
    {
        if p[i] != v[from + i] {
            assert(p@[i as int] != v@.skip(from as int).subrange(0, p@.len() as int)[i as int]);
            return false;
        }
    }
    true
}

/// First occurrence of `p` in `v` at or after `from`.
pub fn find_sub_from(v: &[char], from: usize, p: &[char]) -> (r: Option<usize>)
    requires
        from <= v@.len(),
    ensures
        match r {
            Some(n) => from <= n && n + p@.len() <= v@.len() && find_sub(v@.skip(from as int), p@)
                == Some((n - from) as nat),
            None => find_sub(v@.skip(from as int), p@) is None,
        },
{
    let mut i: usize = from;
    let ghost s = v@.skip(from as int);
    proof {
        find_sub_is_within(s, p@);
    }
    loop
        invariant
            from <= i <= v@.len(),
            s == v@.skip(from as int),
            match find_sub(s, p@) {
                Some(n) => n + p@.len() <= s.len(),
                None => true,
            },
            match find_sub(v@.skip(i as int), p@) {
                Some(n) => find_sub(s, p@) == Some((n + (i - from)) as nat),
                None => find_sub(s, p@) is None,
            },
        decreases v@.len() - i,
    {
        if prefix_at(v, i, p) {
            return Some(i);
        }
        if i >= v.len() {
            return None;
        }
        assert(v@.skip(i as int).skip(1) =~= v@.skip(i + 1));
        i += 1;
    }
}

/// The string, or the empty one where there is none.
pub open spec fn or_empty(o: Option<Seq<char>>) -> Seq<char> {
    match o {
        Some(s) => s,
        None => seq![],
    }
}

pub fn str_or_empty(o: Option<&str>) -> (r: String)
    ensures
        r@ == or_empty(opt_str_view(o)),
{
    match o {
        Some(s) => s.to_owned(),
        None => String::new(),
    }
}

// ---------------------------------------------------------------------------
// Decimal
// ---------------------------------------------------------------------------

pub open spec fn digit(d: nat) -> char {
    (('0' as u32) + d) as char
}

/// The decimal digits of `n`.
pub open spec fn dec(n: nat) -> Seq<char>
    decreases n,
{
    if n < 10 {
        seq![digit(n)]
    } else {
        dec(n / 10).push(digit(n % 10))
    }
}

/// The decimal rendering of a signed number.
pub open spec fn dec_signed(n: int) -> Seq<char> {
    if n < 0 {
        seq!['-'] + dec((-n) as nat)
    } else {
        dec(n as nat)
    }
}

/// Appends the decimal rendering of `n` to `out`.
pub fn push_dec(out: &mut String, n: u64)
    ensures
        final(out)@ == old(out)@ + dec(n as nat),
    decreases n,
{
    if n < 10 {
        let d: u8 = 48 + (n as u8);
        out.push(d as char);
        assert(out@ =~= old(out)@ + dec(n as nat));
    } else {
        push_dec(out, n / 10);
        let d: u8 = 48 + ((n % 10) as u8);
        out.push(d as char);
        assert(out@ =~= old(out)@ + dec(n as nat));
    }
}

// ---------------------------------------------------------------------------
// What the operations are for
// ---------------------------------------------------------------------------

/// Trimming takes white space away at the two ends and nothing else.
pub proof fn trimming_takes_only_the_ends(s: Seq<char>)
    ensures
        exists|a: int, b: int|
            #![trigger s.subrange(a, b)]
            0 <= a <= b <= s.len() && trim(s) == s.subrange(a, b) && (forall|i: int|
                0 <= i < a ==> is_space(#[trigger] s[i])) && (forall|i: int|
                b <= i < s.len() ==> is_space(#[trigger] s[i])),
{
    lemma_trim_start_is_suffix(s);
    lemma_trim_end_is_prefix(trim_start(s));
    let t = trim_start(s);
    let a = s.len() - t.len();
    let b = a + trim(s).len();
    assert(trim(s) =~= s.subrange(a, b)) by {
        assert forall|i: int| 0 <= i < trim(s).len() implies trim(s)[i] == s[a + i] by {
            assert(trim(s)[i] == t[i]);
        }
    }
    assert forall|i: int| b <= i < s.len() implies is_space(#[trigger] s[i]) by {
        assert(s[i] == t[i - a]);
    }
}

proof fn lemma_trim_start_is_suffix(s: Seq<char>)
    ensures
        trim_start(s).len() <= s.len(),
        trim_start(s) == s.skip(s.len() - trim_start(s).len()),
        forall|i: int| 0 <= i < s.len() - trim_start(s).len() ==> is_space(#[trigger] s[i]),
    decreases s.len(),
{
    if s.len() > 0 && is_space(s[0]) {
        let rest = s.skip(1);
        lemma_trim_start_is_suffix(rest);
        assert(rest.skip(rest.len() - trim_start(s).len()) =~= s.skip(
            s.len() - trim_start(s).len(),
        ));
        assert forall|i: int| 0 <= i < s.len() - trim_start(s).len() implies is_space(
            #[trigger] s[i],
        ) by {
            if i > 0 {
                assert(rest[i - 1] == s[i]);
            }
        }
    } else {
        assert(s.skip(0) =~= s);
    }
}

proof fn lemma_trim_end_is_prefix(s: Seq<char>)
    ensures
        trim_end(s).len() <= s.len(),
        forall|i: int| 0 <= i < trim_end(s).len() ==> trim_end(s)[i] == s[i],
        forall|i: int| trim_end(s).len() <= i < s.len() ==> is_space(#[trigger] s[i]),
    decreases s.len(),
{
    if s.len() > 0 && is_space(s.last()) {
        let t = s.drop_last();
        lemma_trim_end_is_prefix(t);
        assert forall|i: int| trim_end(s).len() <= i < s.len() implies is_space(
            #[trigger] s[i],
        ) by {
            if i < t.len() {
                assert(t[i] == s[i]);
            }
        }
        assert(forall|i: int| 0 <= i < t.len() ==> t[i] == s[i]);
    }
}

/// A text is blank just where every character of it is white space.
pub proof fn blank_texts_are_white_space(s: Seq<char>)
    ensures
        blank(s) <==> forall|i: int| 0 <= i < s.len() ==> is_space(#[trigger] s[i]),
{
    trimming_takes_only_the_ends(s);
    trim_is_idempotent(s);
    let (a, b) = choose|a: int, b: int|
        #![trigger s.subrange(a, b)]
        0 <= a <= b <= s.len() && trim(s) == s.subrange(a, b) && (forall|i: int|
            0 <= i < a ==> is_space(#[trigger] s[i])) && (forall|i: int|
            b <= i < s.len() ==> is_space(#[trigger] s[i]));
    if trim(s).len() > 0 {
        assert(trim(s)[0] == s[a]);
    }
}

/// The blank, the tab and the line ends are white space; no visible ASCII character
/// is.
pub proof fn white_space_is_invisible(c: char)
    ensures
        is_space(' ') && is_space('\t') && is_space('\n') && is_space('\r'),
        0x21 <= c as u32 <= 0x7e ==> !is_space(c),
{
}

/// Lower case keeps the length, turns each capital letter of ASCII into the small one
/// and leaves every other character alone.
pub proof fn lower_case_keeps_the_rest(s: Seq<char>, i: int)
    requires
        0 <= i < s.len(),
    ensures
        lower(s).len() == s.len(),
        'A' <= s[i] <= 'Z' ==> lower(s)[i] as u32 - 'a' as u32 == s[i] as u32 - 'A' as u32,
        !('A' <= s[i] <= 'Z') ==> lower(s)[i] == s[i],
        lower(lower(s)) == lower(s),
{
    assert(lower(lower(s)) =~= lower(s));
}

/// Splitting is undone by joining: the pieces hold no separator, and with one between
/// any two they are the text.
pub proof fn joining_undoes_splitting(s: Seq<char>, c: char)
    ensures
        split(s, c).len() >= 1,
        join(split(s, c), seq![c]) == s,
        forall|i: int| 0 <= i < split(s, c).len() ==> !(#[trigger] split(s, c)[i]).contains(c),
    decreases s.len(),
{
    first_index_is_first(s, c);
    let i = first_index(s, c) as int;
    if i < s.len() {
        let rest = s.skip(i + 1);
        joining_undoes_splitting(rest, c);
        joining_goes_by_parts(seq![s.take(i)], split(rest, c), seq![c]);
        assert(s =~= s.take(i) + seq![c] + rest);
        let all = split(s, c);
        assert forall|k: int| 0 <= k < all.len() implies !(#[trigger] all[k]).contains(c) by {
            if k > 0 {
                assert(all[k] == split(rest, c)[k - 1]);
            }
        }
    } else {
        assert forall|k: int| 0 <= k < s.len() implies s[k] != c by {}
    }
}

/// Joining two lists one after the other is joining both with the separator between.
pub proof fn joining_goes_by_parts(a: Seq<Seq<char>>, b: Seq<Seq<char>>, sep: Seq<char>)
    requires
        a.len() > 0,
        b.len() > 0,
    ensures
        join(a + b, sep) == join(a, sep) + sep + join(b, sep),
        a.len() == 1 ==> join(a, sep) == a[0],
        join(Seq::<Seq<char>>::empty(), sep) == Seq::<char>::empty(),
    decreases b.len(),
{
    let all = a + b;
    assert(all.last() == b.last());
    if b.len() == 1 {
        assert(all.drop_last() =~= a);
    } else {
        assert(all.drop_last() =~= a + b.drop_last());
        joining_goes_by_parts(a, b.drop_last(), sep);
        assert(join(all, sep) =~= join(a, sep) + sep + join(b, sep));
    }
}

/// The first line of a text is what stands before the first line feed, without a
/// carriage return at its end; the other lines are those of what follows. A text
/// without a line feed is one line, an empty text none.
pub proof fn lines_end_at_line_feeds(line: Seq<char>, rest: Seq<char>)
    requires
        !line.contains('\n'),
    ensures
        line.len() > 0 ==> lines(line) == seq![line],
        lines(Seq::<char>::empty()).len() == 0,
        line.len() == 0 || line.last() != '\r' ==> lines(line + seq!['\n'] + rest) == seq![line]
            + lines(rest),
        lines(line + seq!['\r', '\n'] + rest) == seq![line] + lines(rest),
{
    assert(forall|i: int| 0 <= i < line.len() ==> line[i] != '\n');
    lemma_first_index_unique(line, '\n', line.len() as int);
    let plain = line + seq!['\n'] + rest;
    lemma_first_index_unique(plain, '\n', line.len() as int);
    assert(plain.take(line.len() as int) =~= line);
    assert(plain.skip(line.len() as int + 1) =~= rest);
    let crlf = line + seq!['\r', '\n'] + rest;
    lemma_first_index_unique(crlf, '\n', line.len() as int + 1);
    assert(crlf.take(line.len() as int + 1) =~= line.push('\r'));
    assert(line.push('\r').drop_last() =~= line);
    assert(crlf.skip(line.len() as int + 2) =~= rest);
}

/// The first occurrence of a pattern is one, and no place before it is; where none is
/// found there is none.
pub proof fn nothing_before_the_first_occurrence(s: Seq<char>, pat: Seq<char>, k: int)
    requires
        0 <= k <= s.len(),
    ensures
        match find_sub(s, pat) {
            Some(n) => n <= s.len() && pat.is_prefix_of(s.skip(n as int)) && (k < n
                ==> !pat.is_prefix_of(s.skip(k))),
            None => !pat.is_prefix_of(s.skip(k)),
        },
    decreases s.len(),
{
    assert(s.skip(0) =~= s);
    if pat.is_prefix_of(s) {
    } else if s.len() > 0 {
        let rest = s.skip(1);
        if k > 0 {
            nothing_before_the_first_occurrence(rest, pat, k - 1);
            assert(rest.skip(k - 1) =~= s.skip(k));
        } else {
            nothing_before_the_first_occurrence(rest, pat, 0);
        }
        match find_sub(rest, pat) {
            Some(n) => {
                assert(rest.skip(n as int) =~= s.skip(n as int + 1));
            },
            None => {},
        }
    }
}

/// A prefix comes off just where the text begins with it.
pub proof fn a_prefix_comes_off(s: Seq<char>, prefix: Seq<char>, rest: Seq<char>)
    ensures
        after_prefix(prefix + rest, prefix) == Some(rest),
        after_prefix(s, prefix) matches Some(r) ==> s == prefix + r,
{
    assert(prefix =~= (prefix + rest).subrange(0, prefix.len() as int));
    assert((prefix + rest).skip(prefix.len() as int) =~= rest);
    if prefix.is_prefix_of(s) {
        assert(s =~= prefix + s.skip(prefix.len() as int));
    }
}

/// What a row of decimal digits stands for.
pub open spec fn number_of(digits: Seq<char>) -> int
    decreases digits.len(),
{
    if digits.len() == 0 {
        0
    } else {
        number_of(digits.drop_last()) * 10 + (digits.last() as int - '0' as int)
    }
}

/// The digits of a number stand for it, and do not begin with a zero but for the
/// number zero itself.
pub proof fn digits_stand_for_their_number(n: nat)
    ensures
        number_of(dec(n)) == n,
        dec(n).len() > 0,
        forall|i: int| 0 <= i < dec(n).len() ==> '0' <= #[trigger] dec(n)[i] <= '9',
        n > 0 ==> dec(n)[0] != '0',
        dec_signed(n as int) == dec(n),
        n > 0 ==> dec_signed(-(n as int)) == seq!['-'] + dec(n),
    decreases n,
{
    if n < 10 {
        assert(dec(n).drop_last() =~= seq![]);
        assert(number_of(dec(n).drop_last()) == 0);
    } else {
        digits_stand_for_their_number(n / 10);
        assert(dec(n).drop_last() =~= dec(n / 10));
    }
}

/// Splitting two texts with the separator between them is splitting both.
pub proof fn splitting_goes_by_parts(a: Seq<char>, c: char, b: Seq<char>)
    ensures
        split(a + seq![c] + b, c) == split(a, c) + split(b, c),
        !b.contains(c) ==> split(b, c) == seq![b],
    decreases a.len(),
{
    first_index_is_first(a, c);
    first_index_is_first(b, c);
    let n = first_index(a, c) as int;
    let all = a + seq![c] + b;
    assert forall|i: int| 0 <= i < n implies all[i] != c by {
        assert(all[i] == a[i]);
    }
    lemma_first_index_unique(all, c, n);
    assert(all.take(n) =~= a.take(n));
    if n < a.len() {
        let rest = a.skip(n + 1);
        splitting_goes_by_parts(rest, c, b);
        assert(all.skip(n + 1) =~= rest + seq![c] + b);
        assert(split(all, c) =~= split(a, c) + split(b, c));
    } else {
        assert(a.take(n) =~= a);
        assert(all.skip(n + 1) =~= b);
    }
}

/// An absent text stands for the empty one.
pub proof fn an_absent_text_is_empty(s: Seq<char>)
    ensures
        or_empty(Some(s)) == s,
        or_empty(None).len() == 0,
{
}

/// The texts of a list are those of its strings, in order.
pub proof fn the_texts_of_a_list(v: Seq<String>, w: Seq<&str>, o: Option<&str>, i: int)
    ensures
        strs(v).len() == v.len(),
        0 <= i < v.len() ==> strs(v)[i] == v[i]@,
        str_refs(w).len() == w.len(),
        0 <= i < w.len() ==> str_refs(w)[i] == w[i]@,
        o matches Some(s) ==> opt_str_view(o) == Some(s@),
        o is None ==> opt_str_view(o) is None,
{
}

/// A digit is one of the ten.
pub proof fn digits_are_the_ten(c: char)
    ensures
        is_digit(c) <==> '0' <= c <= '9',
        is_upper(c) <==> 'A' <= c <= 'Z',
{
}

} // verus!
