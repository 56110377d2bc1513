//! Character sequences: the model of every string in this crate is its
//! sequence of `char`s, and all positions and lengths count characters.
//!
//! Searching, prefix tests, trimming and cutting are written here on
//! `Vec<char>` and proved against short definitions on `Seq<char>`. Three
//! things are taken from the standard library as they are: lowercasing,
//! the test for white space, and appending a character to a `String`.

use vstd::prelude::*;

verus! {

// ---------------------------------------------------------------------
// What the standard library decides
// ---------------------------------------------------------------------

/// The lowercase form of a text, as `str::to_lowercase` computes it.
pub uninterp spec fn lowercase(s: Seq<char>) -> Seq<char>;

/// Whether a character is white space, as `char::is_whitespace` decides it.
pub uninterp spec fn is_whitespace(c: char) -> bool;

/// Calls `str::to_lowercase`. The result depends on the text alone; it is
/// not described here beyond its name, `lowercase`.
#[verifier::external_body]
pub(crate) fn to_lowercase(s: &str) -> (out: String)
    ensures
        out@ == lowercase(s@),
{
    s.to_lowercase()
}

/// Calls `char::is_whitespace`. The answer depends on the character alone;
/// it is not described here beyond its name, `is_whitespace`.
#[verifier::external_body]
pub(crate) fn is_space(c: char) -> (r: bool)
    ensures
        r == is_whitespace(c),
{
    c.is_whitespace()
}

/// Calls `String::push`, which appends one character at the end.
#[verifier::external_body]
pub(crate) fn push_char(s: &mut String, c: char)
    ensures
        final(s)@ == old(s)@.push(c),
{
    s.push(c)
}

// ---------------------------------------------------------------------
// Between strings and character vectors
// ---------------------------------------------------------------------

/// The characters of `s`, in order.
pub fn chars_of(s: &str) -> (out: Vec<char>)
    ensures
        out@ == s@,
{
    broadcast use vstd::string::group_string_axioms;

    let mut out: Vec<char> = Vec::new();
    for c in it: s.chars()
        invariant
            it.seq() == s@,
            out@ == it.seq().take(it.index()),
    {
        out.push(c);
    }
    out
}

/// The string made of the characters of `v`, in order.
pub fn string_of(v: &Vec<char>) -> (out: String)
    ensures
        out@ == v@,
{
    let mut out = String::new();
    let mut i: usize = 0;
    while i < v.len()
        invariant
            i <= v.len(),
            out@ == v@.take(i as int),
        decreases v.len() - i,
    {
        push_char(&mut out, v[i]);
        i += 1;
    }
    out
}

/// Appends the characters of `s` to `out`.
pub fn push_str(out: &mut Vec<char>, s: &str)
    ensures
        final(out)@ == old(out)@ + s@,
{
    broadcast use vstd::string::group_string_axioms;

    for c in it: s.chars()
        invariant
            it.seq() == s@,
            out@ == old(out)@ + it.seq().take(it.index()),
    {
        out.push(c);
    }
}

/// Appends the characters of `v` to `out`.
pub fn push_all(out: &mut Vec<char>, v: &Vec<char>)
    ensures
        final(out)@ == old(out)@ + v@,
{
    let mut i: usize = 0;
    while i < v.len()
        invariant
            i <= v.len(),
            out@ == old(out)@ + v@.take(i as int),
        decreases v.len() - i,
    {
        out.push(v[i]);
        i += 1;
    }
}

/// The characters of `v` from position `from` up to, not including, `to`.
pub fn slice(v: &Vec<char>, from: usize, to: usize) -> (out: Vec<char>)
    requires
        from <= to <= v.len(),
    ensures
        out@ == v@.subrange(from as int, to as int),
{
    let mut out: Vec<char> = Vec::new();
    let mut i: usize = from;
    while i < to
        invariant
            from <= i <= to <= v.len(),
            out@ == v@.subrange(from as int, i as int),
        decreases to - i,
    {
        out.push(v[i]);
        i += 1;
    }
    out
}

// ---------------------------------------------------------------------
// Searching
// ---------------------------------------------------------------------

/// `p` stands in `s` at position `i`.
pub open spec fn occurs_at(s: Seq<char>, p: Seq<char>, i: int) -> bool {
    0 <= i && i + p.len() <= s.len() && s.subrange(i, i + p.len()) == p
}

/// `s` begins with `p`.
pub open spec fn starts_with(s: Seq<char>, p: Seq<char>) -> bool {
    occurs_at(s, p, 0)
}

/// `p` stands somewhere in `s`. The empty text stands in every text.
pub open spec fn contains(s: Seq<char>, p: Seq<char>) -> bool {
    exists|i: int| occurs_at(s, p, i)
}

/// `p` stands in `s` at position `i` and at no earlier position.
pub open spec fn first_at(s: Seq<char>, p: Seq<char>, i: int) -> bool {
    occurs_at(s, p, i) && forall|j: int| 0 <= j < i ==> !occurs_at(s, p, j)
}

/// The position of the first occurrence of `p` in `s`, if there is one.
pub open spec fn find(s: Seq<char>, p: Seq<char>) -> Option<int> {
    if contains(s, p) {
        Some(choose|i: int| first_at(s, p, i))
    } else {
        None
    }
}

/// A first occurrence is the one that `find` names.
pub proof fn lemma_find_first(s: Seq<char>, p: Seq<char>, i: int)
    requires
        first_at(s, p, i),
    ensures
        find(s, p) == Some(i),
        contains(s, p),
{
    let k = choose|k: int| first_at(s, p, k);
    assert(first_at(s, p, k));
    assert(!(k < i) && !(i < k));
}

/// `find` answers `Some` exactly when the pattern occurs, and then with the
/// first position at which it does.
pub proof fn law_find_first_occurrence(s: Seq<char>, p: Seq<char>)
    ensures
        find(s, p) is Some <==> contains(s, p),
        find(s, p) matches Some(i) ==> first_at(s, p, i),
{
    if contains(s, p) {
        let w = choose|i: int| occurs_at(s, p, i);
        lemma_least_occurrence(s, p, w);
    }
}

/// Below any occurrence there is a first one.
proof fn lemma_least_occurrence(s: Seq<char>, p: Seq<char>, w: int)
    requires
        occurs_at(s, p, w),
    ensures
        exists|i: int| first_at(s, p, i),
    decreases w,
{
    if exists|j: int| 0 <= j < w && occurs_at(s, p, j) {
        let j = choose|j: int| 0 <= j < w && occurs_at(s, p, j);
        lemma_least_occurrence(s, p, j);
    } else {
        assert(first_at(s, p, w));
    }
}

/// Whether `p` stands in `s` at position `i`.
pub fn matches_at(s: &Vec<char>, p: &Vec<char>, i: usize) -> (r: bool)
    ensures
        r == occurs_at(s@, p@, i as int),
{
    if p.len() > s.len() || i > s.len() - p.len() {
        return false;
    }
    let mut k: usize = 0;
    while k < p.len()
        invariant
            k <= p.len(),
            i + p.len() <= s.len(),
            forall|j: int| 0 <= j < k ==> s@[i + j] == p@[j],
        decreases p.len() - k,
    {
        if s[i + k] != p[k] {
            return false;
        }
        k += 1;
    }
    assert(s@.subrange(i as int, i + p.len()) =~= p@);
    true
}

/// The position of the first occurrence of `p` in `s`.
pub fn find_in(s: &Vec<char>, p: &Vec<char>) -> (r: Option<usize>)
    ensures
        r is Some <==> contains(s@, p@),
        r matches Some(i) ==> find(s@, p@) == Some(i as int) && i + p.len() <= s.len(),
        r is None ==> find(s@, p@) is None,
{
    let mut i: usize = 0;
    while i < s.len()
        invariant
            i <= s.len(),
            forall|j: int| 0 <= j < i ==> !occurs_at(s@, p@, j),
        decreases s.len() - i,
    {
        if matches_at(s, p, i) {
            proof {
                lemma_find_first(s@, p@, i as int);
            }
            return Some(i);
        }
        i += 1;
    }
    if matches_at(s, p, i) {
        proof {
            lemma_find_first(s@, p@, i as int);
        }
        return Some(i);
    }
    assert forall|j: int| !occurs_at(s@, p@, j) by {
        if occurs_at(s@, p@, j) {
            assert(0 <= j <= s.len());
        }
    }
    None
}

/// Whether `s` begins with the text `p`.
pub fn begins_with(s: &Vec<char>, p: &str) -> (r: bool)
    ensures
        r == starts_with(s@, p@),
{
    let pat = chars_of(p);
    matches_at(s, &pat, 0)
}

/// Whether the text `p` stands somewhere in `s`.
pub fn includes(s: &Vec<char>, p: &str) -> (r: bool)
    ensures
        r == contains(s@, p@),
{
    let pat = chars_of(p);
    find_in(s, &pat).is_some()
}

/// The position of the first occurrence of the text `p` in `s`.
pub fn position(s: &Vec<char>, p: &str) -> (r: Option<usize>)
    ensures
        r is Some <==> contains(s@, p@),
        r matches Some(i) ==> find(s@, p@) == Some(i as int) && i + p@.len() <= s.len(),
        r is None ==> find(s@, p@) is None,
{
    let pat = chars_of(p);
    find_in(s, &pat)
}

// ---------------------------------------------------------------------
// Searching without regard to case
// ---------------------------------------------------------------------

/// `p` stands in `s` at position `k` when case is ignored: what follows
/// position `k` in `s` begins, once it is put in lowercase, with `p`.
/// `p` is meant to be in lowercase itself.
pub open spec fn stands_ignoring_case(s: Seq<char>, p: Seq<char>, k: int) -> bool {
    0 <= k <= s.len() && starts_with(lowercase(s.skip(k)), p)
}

/// `p` stands in `s` at position `k` when case is ignored, and at no
/// earlier position.
pub open spec fn first_ignoring_case(s: Seq<char>, p: Seq<char>, k: int) -> bool {
    stands_ignoring_case(s, p, k) && forall|j: int| 0 <= j < k ==> !stands_ignoring_case(s, p, j)
}

/// The first position of `s` at which `p` stands when case is ignored, if
/// there is one. It is a position in `s` itself, whatever lowercasing
/// does to the length of a text.
pub open spec fn find_ignoring_case(s: Seq<char>, p: Seq<char>) -> Option<int> {
    if exists|k: int| stands_ignoring_case(s, p, k) {
        Some(choose|k: int| first_ignoring_case(s, p, k))
    } else {
        None
    }
}

/// A first position is the one that `find_ignoring_case` names.
pub proof fn lemma_find_ignoring_case_first(s: Seq<char>, p: Seq<char>, k: int)
    requires
        first_ignoring_case(s, p, k),
    ensures
        find_ignoring_case(s, p) == Some(k),
{
    assert(stands_ignoring_case(s, p, k));
    let c = choose|c: int| first_ignoring_case(s, p, c);
    assert(first_ignoring_case(s, p, c));
    assert(!(c < k) && !(k < c));
}

/// `find_ignoring_case` answers `Some` exactly when the pattern stands
/// somewhere, and then with the first position at which it does, which
/// lies within the text.
pub proof fn law_find_ignoring_case(s: Seq<char>, p: Seq<char>)
    ensures
        find_ignoring_case(s, p) is Some <==> exists|k: int| stands_ignoring_case(s, p, k),
        find_ignoring_case(s, p) matches Some(k) ==> first_ignoring_case(s, p, k) && 0 <= k
            <= s.len(),
{
    if exists|k: int| stands_ignoring_case(s, p, k) {
        let w = choose|k: int| stands_ignoring_case(s, p, k);
        lemma_least_ignoring_case(s, p, w);
    }
}

/// Below any position at which the pattern stands there is a first one.
proof fn lemma_least_ignoring_case(s: Seq<char>, p: Seq<char>, w: int)
    requires
        stands_ignoring_case(s, p, w),
    ensures
        exists|k: int| first_ignoring_case(s, p, k),
    decreases w,
{
    if exists|j: int| 0 <= j < w && stands_ignoring_case(s, p, j) {
        let j = choose|j: int| 0 <= j < w && stands_ignoring_case(s, p, j);
        lemma_least_ignoring_case(s, p, j);
    } else {
        assert(first_ignoring_case(s, p, w));
    }
}

/// Whether the text `p` stands in `s` at position `k` when case is
/// ignored.
pub fn stands_at_ignoring_case(s: &Vec<char>, p: &str, k: usize) -> (r: bool)
    ensures
        r == stands_ignoring_case(s@, p@, k as int),
{
    if k > s.len() {
        return false;
    }
    let rest = string_of(&slice(s, k, s.len()));
    assert(rest@ =~= s@.skip(k as int));
    let lower = to_lowercase(rest.as_str());
    begins_with(&chars_of(lower.as_str()), p)
}

/// The first position of `s` at which the text `p` stands when case is
/// ignored.
pub fn position_ignoring_case(s: &Vec<char>, p: &str) -> (r: Option<usize>)
    ensures
        r is Some <==> find_ignoring_case(s@, p@) is Some,
        r matches Some(k) ==> find_ignoring_case(s@, p@) == Some(k as int) && k <= s.len(),
{
    let mut k: usize = 0;
    while k < s.len()
        invariant
            k <= s.len(),
            forall|j: int| 0 <= j < k ==> !stands_ignoring_case(s@, p@, j),
        decreases s.len() - k,
    {
        if stands_at_ignoring_case(s, p, k) {
            proof {
                lemma_find_ignoring_case_first(s@, p@, k as int);
            }
            return Some(k);
        }
        k += 1;
    }
    if stands_at_ignoring_case(s, p, k) {
        proof {
            lemma_find_ignoring_case_first(s@, p@, k as int);
        }
        return Some(k);
    }
    assert forall|j: int| !stands_ignoring_case(s@, p@, j) by {
        if stands_ignoring_case(s@, p@, j) {
            assert(0 <= j <= s.len());
        }
    }
    None
}

// ---------------------------------------------------------------------
// Trimming and cutting
// ---------------------------------------------------------------------

/// `s` without the white space at its start.
pub open spec fn trim_start(s: Seq<char>) -> Seq<char>
    decreases s.len(),
{
    if s.len() > 0 && is_whitespace(s.first()) {
        trim_start(s.drop_first())
    } else {
        s
    }
}

/// `s` without the white space at its end.
pub open spec fn trim_end(s: Seq<char>) -> Seq<char>
    decreases s.len(),
{
    if s.len() > 0 && is_whitespace(s.last()) {
        trim_end(s.drop_last())
    } else {
        s
    }
}

/// `s` without the white space at either end.
pub open spec fn trim(s: Seq<char>) -> Seq<char> {
    trim_end(trim_start(s))
}

/// What follows the first occurrence of the character `c` in `s`; nothing
/// where `c` does not occur.
pub open spec fn after_first(s: Seq<char>, c: char) -> Seq<char>
    decreases s.len(),
{
    if s.len() == 0 {
        s
    } else if s.first() == c {
        s.drop_first()
    } else {
        after_first(s.drop_first(), c)
    }
}

/// `s` without the white space at either end.
pub fn trimmed(s: &Vec<char>) -> (out: Vec<char>)
    ensures
        out@ == trim(s@),
{
    let n = s.len();
    let mut lo: usize = 0;
    assert(s@.skip(0) =~= s@);
    while lo < n && is_space(s[lo])
        invariant
            lo <= n == s.len(),
            trim_start(s@) == trim_start(s@.skip(lo as int)),
        decreases n - lo,
    {
        assert(s@.skip(lo as int).drop_first() =~= s@.skip(lo + 1));
        lo += 1;
    }
    let mut hi: usize = n;
    while hi > lo && is_space(s[hi - 1])
        invariant
            lo <= hi <= n == s.len(),
            trim(s@) == trim_end(s@.subrange(lo as int, hi as int)),
        decreases hi,
    {
        assert(s@.subrange(lo as int, hi as int).drop_last() =~= s@.subrange(
            lo as int,
            hi - 1,
        ));
        hi -= 1;
    }
    slice(s, lo, hi)
}

/// What follows the first occurrence of `c` in `s`; nothing where `c` does
/// not occur.
pub fn rest_after(s: &Vec<char>, c: char) -> (out: Vec<char>)
    ensures
        out@ == after_first(s@, c),
{
    let n = s.len();
    let mut i: usize = 0;
    assert(s@.skip(0) =~= s@);
    while i < n && s[i] != c
        invariant
            i <= n == s.len(),
            after_first(s@, c) == after_first(s@.skip(i as int), c),
        decreases n - i,
    {
        assert(s@.skip(i as int).drop_first() =~= s@.skip(i + 1));
        i += 1;
    }
    if i < n {
        slice(s, i + 1, n)
    } else {
        slice(s, n, n)
    }
}

// ---------------------------------------------------------------------
// Lines
// ---------------------------------------------------------------------

/// The texts that a vector of character vectors holds.
pub open spec fn views(v: Seq<Vec<char>>) -> Seq<Seq<char>> {
    Seq::new(v.len(), |i: int| v[i]@)
}

/// The texts that a sequence of strings holds.
pub open spec fn texts(v: Seq<String>) -> Seq<Seq<char>> {
    Seq::new(v.len(), |i: int| v[i]@)
}

/// The lines written one after another with a line feed between each two.
pub open spec fn join_lines(lines: Seq<Seq<char>>) -> Seq<char>
    decreases lines.len(),
{
    if lines.len() == 0 {
        Seq::empty()
    } else if lines.len() == 1 {
        lines[0]
    } else {
        join_lines(lines.drop_last()) + seq!['\n'] + lines.last()
    }
}

/// The lines written one after another with a line feed between each two.
pub fn joined(lines: &Vec<Vec<char>>) -> (out: Vec<char>)
    ensures
        out@ == join_lines(views(lines@)),
{
    let mut out: Vec<char> = Vec::new();
    let mut i: usize = 0;
    while i < lines.len()
        invariant
            i <= lines.len(),
            out@ == join_lines(views(lines@).take(i as int)),
        decreases lines.len() - i,
    {
        let ghost before = views(lines@).take(i as int);
        let ghost after = views(lines@).take(i + 1);
        assert(after.drop_last() =~= before);
        if i > 0 {
            out.push('\n');
        }
        push_all(&mut out, &lines[i]);
        i += 1;
    }
    assert(views(lines@).take(lines.len() as int) =~= views(lines@));
    out
}

// ---------------------------------------------------------------------
// Numbers
// ---------------------------------------------------------------------

/// The character for a digit from 0 to 9.
pub open spec fn digit_char(d: int) -> char {
    if d == 0 {
        '0'
    } else if d == 1 {
        '1'
    } else if d == 2 {
        '2'
    } else if d == 3 {
        '3'
    } else if d == 4 {
        '4'
    } else if d == 5 {
        '5'
    } else if d == 6 {
        '6'
    } else if d == 7 {
        '7'
    } else if d == 8 {
        '8'
    } else {
        '9'
    }
}

/// The number `n` written in decimal digits, without leading zeros.
pub open spec fn decimal(n: nat) -> Seq<char>
    decreases n,
{
    if n < 10 {
        seq![digit_char(n as int)]
    } else {
        decimal(n / 10).push(digit_char((n % 10) as int))
    }
}

/// The character for the digit `d`.
pub fn digit(d: usize) -> (c: char)
    requires
        d < 10,
    ensures
        c == digit_char(d as int),
{
    if d == 0 {
        '0'
    } else if d == 1 {
        '1'
    } else if d == 2 {
        '2'
    } else if d == 3 {
        '3'
    } else if d == 4 {
        '4'
    } else if d == 5 {
        '5'
    } else if d == 6 {
        '6'
    } else if d == 7 {
        '7'
    } else if d == 8 {
        '8'
    } else {
        '9'
    }
}

/// The number `n` written in decimal digits, without leading zeros.
pub fn decimal_of(n: usize) -> (out: Vec<char>)
    ensures
        out@ == decimal(n as nat),
    decreases n,
{
    if n < 10 {
        let mut out: Vec<char> = Vec::new();
        out.push(digit(n));
        out
    } else {
        let mut out = decimal_of(n / 10);
        out.push(digit(n % 10));
        out
    }
}

/// The texts written one after another with `sep` between each two.
pub open spec fn join_with(items: Seq<Seq<char>>, sep: Seq<char>) -> Seq<char>
    decreases items.len(),
{
    if items.len() == 0 {
        Seq::empty()
    } else if items.len() == 1 {
        items[0]
    } else {
        join_with(items.drop_last(), sep) + sep + items.last()
    }
}

/// The first `n` of `items`, written one after another with `sep`
/// between each two.
pub fn join_first(items: &Vec<String>, n: usize, sep: &str) -> (out: Vec<char>)
    requires
        n <= items.len(),
    ensures
        out@ == join_with(texts(items@).take(n as int), sep@),
{
    let mut out: Vec<char> = Vec::new();
    let mut i: usize = 0;
    while i < n
        invariant
            i <= n <= items.len(),
            out@ == join_with(texts(items@).take(i as int), sep@),
        decreases n - i,
    {
        let ghost before = texts(items@).take(i as int);
        let ghost after = texts(items@).take(i + 1);
        assert(after.drop_last() =~= before);
        if i > 0 {
            push_str(&mut out, sep);
        }
        push_str(&mut out, items[i].as_str());
        i += 1;
    }
    out
}

} // verus!
