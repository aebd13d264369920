//! Text primitives over sequences of characters: scanning, trimming, searching,
//! splitting and decimal numbers. Every function states its result over the
//! view of its arguments.

use crate::platform::views;
use vstd::hash_set::StringHashSet;
use vstd::prelude::*;

verus! {

/// Whether `c` has the Unicode property `White_Space`.
pub open spec fn is_whitespace(c: char) -> bool {
    let n = c as u32;
    ||| 0x09 <= n <= 0x0D
    ||| n == 0x20
    ||| n == 0x85
    ||| n == 0xA0
    ||| n == 0x1680
    ||| 0x2000 <= n <= 0x200A
    ||| n == 0x2028
    ||| n == 0x2029
    ||| n == 0x202F
    ||| n == 0x205F
    ||| n == 0x3000
}

/// A class of characters that a scan accepts.
#[derive(Clone, Copy, Debug, PartialEq, Eq)]
pub enum CharSet {
    /// The characters with the property `White_Space`.
    Whitespace,
    /// The characters without it.
    Visible,
    /// One character.
    Only(char),
    /// Every character but one.
    Except(char),
}

impl CharSet {
    /// Whether `c` belongs to the class.
    pub open spec fn has(self, c: char) -> bool {
        match self {
            CharSet::Whitespace => is_whitespace(c),
            CharSet::Visible => !is_whitespace(c),
            CharSet::Only(x) => c == x,
            CharSet::Except(x) => c != x,
        }
    }

    /// Whether `c` belongs to the class.
    pub fn contains(&self, c: char) -> (r: bool)
        ensures
            r == self.has(c),
    {
        match self {
            CharSet::Whitespace => char_is_whitespace(c),
            CharSet::Visible => !char_is_whitespace(c),
            CharSet::Only(x) => c == *x,
            CharSet::Except(x) => c != *x,
        }
    }
}

/// Whether `c` has the Unicode property `White_Space`.
pub fn char_is_whitespace(c: char) -> (r: bool)
    ensures
        r == is_whitespace(c),
{
    let n: u32 = c as u32;
    (0x09 <= n && n <= 0x0D) || n == 0x20 || n == 0x85 || n == 0xA0 || n == 0x1680 || (0x2000 <= n
        && n <= 0x200A) || n == 0x2028 || n == 0x2029 || n == 0x202F || n == 0x205F || n == 0x3000
}

/// The number of characters at the start of `s` that belong to `set`.
pub open spec fn leading(s: Seq<char>, set: CharSet) -> nat
    decreases s.len(),
{
    if s.len() > 0 && set.has(s[0]) {
        1 + leading(s.skip(1), set)
    } else {
        0
    }
}

/// The number of characters at the end of `s` that belong to `set`.
pub open spec fn trailing(s: Seq<char>, set: CharSet) -> nat
    decreases s.len(),
{
    if s.len() > 0 && set.has(s.last()) {
        1 + trailing(s.drop_last(), set)
    } else {
        0
    }
}

/// `leading` is the one `n` whose first `n` characters all belong to `set`
/// and which is followed by the end or by a character outside `set`.
pub proof fn lemma_leading_is(s: Seq<char>, set: CharSet, n: nat)
    requires
        n <= s.len(),
        forall|i: int| 0 <= i < n ==> set.has(#[trigger] s[i]),
        n == s.len() || !set.has(s[n as int]),
    ensures
        leading(s, set) == n,
    decreases n,
{
    if n > 0 {
        let t = s.skip(1);
        assert forall|i: int| 0 <= i < n - 1 implies set.has(#[trigger] t[i]) by {
            assert(t[i] == s[i + 1]);
        }
        if n < s.len() {
            assert(t[n - 1] == s[n as int]);
        }
        lemma_leading_is(t, set, (n - 1) as nat);
    }
}

/// `trailing` is the one `n` whose last `n` characters all belong to `set`
/// and which is preceded by the start or by a character outside `set`.
pub proof fn lemma_trailing_is(s: Seq<char>, set: CharSet, n: nat)
    requires
        n <= s.len(),
        forall|i: int| s.len() - n <= i < s.len() ==> set.has(#[trigger] s[i]),
        n == s.len() || !set.has(s[s.len() - n - 1]),
    ensures
        trailing(s, set) == n,
    decreases n,
{
    if n > 0 {
        let t = s.drop_last();
        assert forall|i: int| t.len() - (n - 1) <= i < t.len() implies set.has(#[trigger] t[i]) by {
            assert(t[i] == s[i]);
        }
        if n < s.len() {
            assert(t[t.len() - (n - 1) - 1] == s[s.len() - n - 1]);
        }
        lemma_trailing_is(t, set, (n - 1) as nat);
    }
}

/// The characters of `s`, in order.
pub fn chars_of(s: &str) -> (v: Vec<char>)
    ensures
        v@ == s@,
{
    let mut v: Vec<char> = Vec::new();
    for c in it: s.chars()
        invariant
            it.seq() == s@,
            v@ == s@.subrange(0, it.index() as int),
    {
        v.push(c);
    }
    v
}

/// The number of characters at the start of `v` that belong to `set`.
pub fn count_leading(v: &Vec<char>, set: CharSet) -> (n: usize)
    ensures
        n == leading(v@, set),
        n <= v.len(),
{
    let mut i: usize = 0;
    while i < v.len() && set.contains(v[i])
        invariant
            i <= v.len(),
            forall|k: int| 0 <= k < i ==> set.has(#[trigger] v@[k]),
        decreases v.len() - i,
    {
        i += 1;
    }
    proof {
        lemma_leading_is(v@, set, i as nat);
    }
    i
}

/// The number of characters at the end of `v` that belong to `set`.
pub fn count_trailing(v: &Vec<char>, set: CharSet) -> (n: usize)
    ensures
        n == trailing(v@, set),
        n <= v.len(),
{
    let len: usize = v.len();
    let mut n: usize = 0;
    while n < len && set.contains(v[len - n - 1])
        invariant
            len == v.len(),
            n <= len,
            forall|k: int| len - n <= k < len ==> set.has(#[trigger] v@[k]),
        decreases len - n,
    {
        n += 1;
    }
    proof {
        lemma_trailing_is(v@, set, n as nat);
    }
    n
}

/// `s` without the characters of `set` at its end.
pub open spec fn without_trailing(s: Seq<char>, set: CharSet) -> Seq<char> {
    s.take(s.len() - trailing(s, set))
}

/// `s` without the characters of `set` at its start.
pub open spec fn without_leading(s: Seq<char>, set: CharSet) -> Seq<char> {
    s.skip(leading(s, set) as int)
}

/// `s` without the whitespace at its start and at its end.
pub open spec fn trimmed(s: Seq<char>) -> Seq<char> {
    without_trailing(without_leading(s, CharSet::Whitespace), CharSet::Whitespace)
}

/// The characters of `s` from position `from` up to `to`, as a new string.
pub fn slice_of(s: &str, from: usize, to: usize) -> (r: String)
    requires
        from <= to <= s@.len(),
    ensures
        r@ == s@.subrange(from as int, to as int),
{
    s.substring_char(from, to).to_owned()
}

/// `s` without the whitespace at its start and at its end.
pub fn trim(s: &str) -> (r: String)
    ensures
        r@ == trimmed(s@),
{
    let v = chars_of(s);
    let a = count_leading(&v, CharSet::Whitespace);
    let rest = s.substring_char(a, v.len());
    let w = chars_of(rest);
    let b = count_trailing(&w, CharSet::Whitespace);
    slice_of(rest, 0, w.len() - b)
}

/// `s` without the run of `c` at its end.
pub fn trim_end_matches(s: &str, c: char) -> (r: String)
    ensures
        r@ == without_trailing(s@, CharSet::Only(c)),
{
    let v = chars_of(s);
    let b = count_trailing(&v, CharSet::Only(c));
    slice_of(s, 0, v.len() - b)
}

/// Whether `p` stands in `s` at position `i`.
pub open spec fn matches_at(s: Seq<char>, p: Seq<char>, i: int) -> bool {
    0 <= i && i + p.len() <= s.len() && s.subrange(i, i + p.len()) == p
}

/// Whether `p` stands somewhere in `s`.
pub open spec fn has_substring(s: Seq<char>, p: Seq<char>) -> bool {
    exists|i: int| matches_at(s, p, i)
}

/// Whether `i` is the first position at which `p` stands in `s`.
pub open spec fn is_first_match(s: Seq<char>, p: Seq<char>, i: int) -> bool {
    matches_at(s, p, i) && forall|j: int| 0 <= j < i ==> !matches_at(s, p, j)
}

/// The first position at which `p` stands in `s`, if there is one.
pub open spec fn first_match(s: Seq<char>, p: Seq<char>) -> Option<int> {
    if has_substring(s, p) {
        Some(choose|i: int| is_first_match(s, p, i))
    } else {
        None
    }
}

/// A position that meets `is_first_match` is the one that `first_match` names.
pub proof fn lemma_first_match_is(s: Seq<char>, p: Seq<char>, i: int)
    requires
        is_first_match(s, p, i),
    ensures
        first_match(s, p) == Some(i),
{
    let k = choose|k: int| is_first_match(s, p, k);
    assert(is_first_match(s, p, k));
    if k < i {
        assert(!matches_at(s, p, k));
    }
    if i < k {
        assert(!matches_at(s, p, i));
    }
}

/// Whether `p` stands in `v` at position `i`.
fn matches_here(v: &Vec<char>, p: &Vec<char>, i: usize) -> (r: bool)
    requires
        i + p.len() <= v.len(),
    ensures
        r == matches_at(v@, p@, i as int),
{
    let mut k: usize = 0;
    while k < p.len()
        invariant
            k <= p.len(),
            i + p.len() <= v.len(),
            forall|j: int| 0 <= j < k ==> v@[i + j] == p@[j],
        decreases p.len() - k,
    {
        if v[i + k] != p[k] {
            proof {
                let w = v@.subrange(i as int, i + p.len());
                assert(w[k as int] == v@[i + k]);
            }
            return false;
        }
        k += 1;
    }
    assert(v@.subrange(i as int, i + p.len()) =~= p@);
    true
}

/// The first position at which `p` stands in `v`, if there is one.
pub fn find_chars(v: &Vec<char>, p: &Vec<char>) -> (r: Option<usize>)
    ensures
        r is Some <==> has_substring(v@, p@),
        r matches Some(i) ==> is_first_match(v@, p@, i as int),
        r matches Some(i) ==> first_match(v@, p@) == Some(i as int),
        r matches Some(i) ==> i + p.len() <= v.len(),
        r is None ==> first_match(v@, p@) is None,
{
    if p.len() > v.len() {
        return None;
    }
    let last: usize = v.len() - p.len();
    let mut i: usize = 0;
    loop
        invariant
            last == v.len() - p.len(),
            i <= last,
            forall|j: int| 0 <= j < i ==> !matches_at(v@, p@, j),
        decreases last - i,
    {
        if matches_here(v, p, i) {
            proof {
                lemma_first_match_is(v@, p@, i as int);
            }
            return Some(i);
        }
        if i == last {
            return None;
        }
        i += 1;
    }
}

/// The first position at which `p` stands in `s`, if there is one.
pub fn find(s: &str, p: &str) -> (r: Option<usize>)
    ensures
        r is Some <==> has_substring(s@, p@),
        r matches Some(i) ==> is_first_match(s@, p@, i as int),
        r matches Some(i) ==> first_match(s@, p@) == Some(i as int),
        r is None ==> first_match(s@, p@) is None,
{
    let v = chars_of(s);
    let w = chars_of(p);
    find_chars(&v, &w)
}

/// Whether `p` stands somewhere in `s`.
pub fn contains(s: &str, p: &str) -> (r: bool)
    ensures
        r == has_substring(s@, p@),
{
    find(s, p).is_some()
}

/// Whether `s` begins with `p`.
pub fn starts_with(s: &str, p: &str) -> (r: bool)
    ensures
        r == p@.is_prefix_of(s@),
{
    let v = chars_of(s);
    let w = chars_of(p);
    if w.len() > v.len() {
        return false;
    }
    matches_here(&v, &w, 0)
}

/// Whether the two hold the same characters.
pub fn chars_equal(a: &Vec<char>, b: &Vec<char>) -> (r: bool)
    ensures
        r == (a@ == b@),
{
    if a.len() != b.len() {
        return false;
    }
    let mut i: usize = 0;
    while i < a.len()
        invariant
            a.len() == b.len(),
            i <= a.len(),
            forall|k: int| 0 <= k < i ==> a@[k] == b@[k],
        decreases a.len() - i,
    {
        if a[i] != b[i] {
            return false;
        }
        i += 1;
    }
    assert(a@ =~= b@);
    true
}

/// Whether the two strings hold the same characters.
pub fn same_text(a: &str, b: &str) -> (r: bool)
    ensures
        r == (a@ == b@),
{
    let v = chars_of(a);
    let w = chars_of(b);
    chars_equal(&v, &w)
}

/// Whether `v` holds one of the texts of `texts`.
pub fn is_one_of<const N: usize>(v: &Vec<char>, texts: &[&str; N]) -> (r: bool)
    ensures
        r == views(texts@).contains(v@),
{
    let mut i: usize = 0;
    while i < N
        invariant
            i <= N,
            texts@.len() == N,
            forall|k: int| 0 <= k < i ==> views(texts@)[k] != v@,
        decreases N - i,
    {
        assert(views(texts@)[i as int] == texts@[i as int]@);
        let candidate = chars_of(texts[i]);
        if chars_equal(v, &candidate) {
            assert(views(texts@)[i as int] == v@);
            return true;
        }
        i += 1;
    }
    false
}

/// The texts that a list holds, as a set.
pub open spec fn text_set(texts: Seq<String>) -> Set<Seq<char>> {
    Set::new(|text: Seq<char>| exists|i: int| 0 <= i < texts.len() && (#[trigger] texts[i])@ == text)
}

/// A hash set of texts; its view is the set of their character sequences.
pub type TextSet = StringHashSet;

/// The set that holds the texts of a list.
pub fn text_hash_set(texts: &Vec<String>) -> (set: TextSet)
    ensures
        set@ == text_set(texts@),
{
    let mut set = StringHashSet::new();
    let mut i: usize = 0;
    assert(text_set(texts@.take(0)) =~= Set::<Seq<char>>::empty());
    while i < texts.len()
        invariant
            i <= texts.len(),
            set@ == text_set(texts@.take(i as int)),
        decreases texts.len() - i,
    {
        proof {
            lemma_text_set_push(texts@.take(i as int), texts@[i as int]);
            assert(texts@.take(i as int).push(texts@[i as int]) =~= texts@.take(i + 1));
        }
        set.insert(texts[i].clone());
        i += 1;
    }
    assert(texts@.take(texts@.len() as int) =~= texts@);
    set
}

/// A list with one more text holds what it held and that text.
pub proof fn lemma_text_set_push(texts: Seq<String>, text: String)
    ensures
        text_set(texts.push(text)) == text_set(texts).insert(text@),
{
    let more = texts.push(text);
    assert forall|p: Seq<char>| text_set(more).contains(p) <==> text_set(texts).insert(text@).contains(
        p,
    ) by {
        if text_set(more).contains(p) {
            let i = choose|i: int| 0 <= i < more.len() && (#[trigger] more[i])@ == p;
            if i < texts.len() {
                assert(texts[i]@ == p);
            }
        }
        if text_set(texts).contains(p) {
            let i = choose|i: int| 0 <= i < texts.len() && (#[trigger] texts[i])@ == p;
            assert(more[i]@ == p);
        }
        if p == text@ {
            assert(more[texts.len() as int]@ == p);
        }
    }
    assert(text_set(more) =~= text_set(texts).insert(text@));
}

/// `a` followed by `b`.
pub fn join(a: &str, b: &str) -> (r: String)
    ensures
        r@ == a@ + b@,
{
    let mut r = a.to_owned();
    r.append(b);
    r
}

/// `a`, `b` and `c` in a row.
pub fn join3(a: &str, b: &str, c: &str) -> (r: String)
    ensures
        r@ == a@ + b@ + c@,
{
    let mut r = a.to_owned();
    r.append(b);
    r.append(c);
    r
}

/// The text between the first occurrence of `p` in `s` and the next one, or
/// the end of `s` where `p` does not occur again; nothing where `p` does not
/// occur at all.
pub open spec fn after_marker(s: Seq<char>, p: Seq<char>) -> Option<Seq<char>> {
    match first_match(s, p) {
        None => None,
        Some(i) => {
            let rest = s.skip(i + p.len());
            match first_match(rest, p) {
                None => Some(rest),
                Some(j) => Some(rest.take(j)),
            }
        },
    }
}

/// The text between the first occurrence of `p` in `s` and the next one.
pub fn text_after_marker(s: &str, p: &str) -> (r: Option<String>)
    ensures
        r is Some <==> after_marker(s@, p@) is Some,
        r matches Some(t) ==> after_marker(s@, p@) == Some(t@),
{
    let v = chars_of(s);
    let w = chars_of(p);
    match find_chars(&v, &w) {
        None => None,
        Some(i) => {
            let rest = s.substring_char(i + w.len(), v.len());
            let rv = chars_of(rest);
            match find_chars(&rv, &w) {
                None => Some(rest.to_owned()),
                Some(j) => Some(slice_of(rest, 0, j)),
            }
        },
    }
}

/// `s` with every occurrence of `p`, found from left to right and without
/// overlap, replaced by `r`. An empty `p` occurs nowhere.
pub open spec fn replaced(s: Seq<char>, p: Seq<char>, r: Seq<char>) -> Seq<char>
    decreases s.len(),
{
    match first_match(s, p) {
        Some(i) if p.len() > 0 && matches_at(s, p, i) => s.take(i) + r + replaced(
            s.skip(i + p.len()),
            p,
            r,
        ),
        _ => s,
    }
}

/// `s` with every occurrence of `p` replaced by `r`.
pub fn replace(s: &str, p: &str, r: &str) -> (out: String)
    ensures
        out@ == replaced(s@, p@, r@),
{
    let w = chars_of(p);
    let mut out = String::new();
    if w.len() == 0 {
        return s.to_owned();
    }
    let mut rest: &str = s;
    loop
        invariant
            w@ == p@,
            w.len() > 0,
            out@ + replaced(rest@, p@, r@) == replaced(s@, p@, r@),
        decreases rest@.len(),
    {
        let v = chars_of(rest);
        match find_chars(&v, &w) {
            None => {
                out.append(rest);
                return out;
            },
            Some(i) => {
                let ghost before = out@;
                let ghost whole = rest@;
                out.append(rest.substring_char(0, i));
                out.append(r);
                rest = rest.substring_char(i + w.len(), v.len());
                proof {
                    assert(whole.subrange(0, i as int) == whole.take(i as int));
                    assert(rest@ == whole.skip(i + p@.len()));
                    assert(replaced(whole, p@, r@) == whole.take(i as int) + r@ + replaced(
                        rest@,
                        p@,
                        r@,
                    ));
                    assert(out@ + replaced(rest@, p@, r@) == before + replaced(whole, p@, r@));
                }
            },
        }
    }
}

/// The first run of visible characters in `s`; empty where there is none.
pub open spec fn first_word(s: Seq<char>) -> Seq<char> {
    let t = without_leading(s, CharSet::Whitespace);
    t.take(leading(t, CharSet::Visible) as int)
}

/// The last run of visible characters in `s`; empty where there is none.
pub open spec fn last_word(s: Seq<char>) -> Seq<char> {
    let t = without_trailing(s, CharSet::Whitespace);
    t.skip(t.len() - trailing(t, CharSet::Visible))
}

/// The first run of visible characters in `s`, if there is one.
pub fn first_word_of(s: &str) -> (r: Option<String>)
    ensures
        r is Some <==> first_word(s@).len() > 0,
        r matches Some(w) ==> w@ == first_word(s@),
{
    let v = chars_of(s);
    let a = count_leading(&v, CharSet::Whitespace);
    let rest = s.substring_char(a, v.len());
    let w = chars_of(rest);
    let n = count_leading(&w, CharSet::Visible);
    if n == 0 {
        None
    } else {
        Some(slice_of(rest, 0, n))
    }
}

/// The last run of visible characters in `s`, if there is one.
pub fn last_word_of(s: &str) -> (r: Option<String>)
    ensures
        r is Some <==> last_word(s@).len() > 0,
        r matches Some(w) ==> w@ == last_word(s@),
{
    let v = chars_of(s);
    let b = count_trailing(&v, CharSet::Whitespace);
    let rest = s.substring_char(0, v.len() - b);
    let w = chars_of(rest);
    let n = count_trailing(&w, CharSet::Visible);
    if n == 0 {
        None
    } else {
        Some(slice_of(rest, w.len() - n, w.len()))
    }
}

/// The first line of `s`: what stands before its first line feed.
pub open spec fn first_line(s: Seq<char>) -> Seq<char> {
    s.take(leading(s, CharSet::Except('\n')) as int)
}

/// What follows the first line of `s` and its line feed.
pub open spec fn after_first_line(s: Seq<char>) -> Seq<char> {
    let n = leading(s, CharSet::Except('\n'));
    if n < s.len() {
        s.skip(n as int + 1)
    } else {
        Seq::empty()
    }
}

/// Splits a text into its first line and what follows it.
pub fn split_first_line(s: &str) -> (r: (&str, &str))
    ensures
        r.0@ == first_line(s@),
        r.1@ == after_first_line(s@),
        s@.len() > 0 ==> r.1@.len() < s@.len(),
{
    let v = chars_of(s);
    let n = count_leading(&v, CharSet::Except('\n'));
    let line = s.substring_char(0, n);
    if n < v.len() {
        (line, s.substring_char(n + 1, v.len()))
    } else {
        (line, s.substring_char(n, n))
    }
}

/// Whether `c` is one of the ten decimal digits.
pub open spec fn is_digit(c: char) -> bool {
    '0' <= c <= '9'
}

/// The value of a decimal digit.
pub open spec fn digit_value(c: char) -> nat {
    (c as u32 - '0' as u32) as nat
}

/// Whether `s` holds decimal digits only.
pub open spec fn all_digits(s: Seq<char>) -> bool {
    forall|i: int| 0 <= i < s.len() ==> is_digit(#[trigger] s[i])
}

/// The number that a run of decimal digits writes.
pub open spec fn digits_value(s: Seq<char>) -> nat
    decreases s.len(),
{
    if s.len() == 0 {
        0
    } else {
        digits_value(s.drop_last()) * 10 + digit_value(s.last())
    }
}

/// The digits of `s`: `s` itself, or what follows one leading `+`.
pub open spec fn unsigned_digits(s: Seq<char>) -> Seq<char> {
    if s.len() > 0 && s[0] == '+' {
        s.skip(1)
    } else {
        s
    }
}

/// The number that `s` writes in decimal, where it writes one that a `u64`
/// holds: at least one digit, after at most one `+`, and nothing else.
pub open spec fn parsed_u64(s: Seq<char>) -> Option<u64> {
    let d = unsigned_digits(s);
    if d.len() > 0 && all_digits(d) && digits_value(d) <= u64::MAX {
        Some(digits_value(d) as u64)
    } else {
        None
    }
}

/// A run of digits writes at least what any of its beginnings writes.
pub proof fn lemma_digits_value_grows(s: Seq<char>, k: int)
    requires
        0 <= k <= s.len(),
    ensures
        digits_value(s.take(k)) <= digits_value(s),
    decreases s.len() - k,
{
    if k < s.len() {
        lemma_digits_value_grows(s, k + 1);
        let t = s.take(k + 1);
        assert(t.drop_last() == s.take(k));
    } else {
        assert(s.take(k) == s);
    }
}

/// The number that `s` writes in decimal, where it writes one that a `u64` holds.
pub fn parse_u64(s: &str) -> (r: Option<u64>)
    ensures
        r == parsed_u64(s@),
{
    let v = chars_of(s);
    let start: usize = if v.len() > 0 && v[0] == '+' {
        1
    } else {
        0
    };
    if start == v.len() {
        return None;
    }
    let ghost d = unsigned_digits(s@);
    assert(d == v@.skip(start as int));
    let mut acc: u64 = 0;
    let mut i: usize = start;
    while i < v.len()
        invariant
            start <= i <= v.len(),
            start < v.len(),
            d == unsigned_digits(s@),
            d == v@.skip(start as int),
            all_digits(d.take(i - start)),
            acc == digits_value(d.take(i - start)),
        decreases v.len() - i,
    {
        let c = v[i];
        let ghost t = d.take(i - start + 1);
        assert(t.drop_last() == d.take(i - start));
        assert(t.last() == c);
        assert(d[i - start] == c);
        if !('0' <= c && c <= '9') {
            assert(!is_digit(d[i - start]));
            assert(!all_digits(d));
            return None;
        }
        let digit: u64 = (c as u32 - '0' as u32) as u64;
        assert(digit == digit_value(c));
        assert(digits_value(t) == acc * 10 + digit);
        if acc > (u64::MAX - digit) / 10 {
            proof {
                lemma_digits_value_grows(d, i - start + 1);
                assert(acc * 10 + digit > u64::MAX);
                assert(digits_value(d) > u64::MAX);
            }
            return None;
        }
        acc = acc * 10 + digit;
        i += 1;
        assert forall|k: int| 0 <= k < t.len() implies is_digit(#[trigger] t[k]) by {
            if k < t.len() - 1 {
                assert(t[k] == d.take(i - start - 1)[k]);
            }
        }
    }
    assert(d.take(i - start) == d);
    Some(acc)
}

/// The character that writes the digit `d`.
pub open spec fn digit_char(d: nat) -> char {
    if d == 0 {
        '0'
    } else if d == 1 {
        '1'
    } else if d == 2 {
        '2'
    } else if d == 3 {
        '3'
    } else if d == 4 {
        '4'
    } else if d == 5 {
        '5'
    } else if d == 6 {
        '6'
    } else if d == 7 {
        '7'
    } else if d == 8 {
        '8'
    } else {
        '9'
    }
}

/// `n` in decimal, without leading zeros.
pub open spec fn decimal(n: nat) -> Seq<char>
    decreases n,
{
    if n < 10 {
        seq![digit_char(n)]
    } else {
        decimal(n / 10).push(digit_char(n % 10))
    }
}

/// The text of one decimal digit.
fn digit_text(d: u16) -> (r: &'static str)
    requires
        d < 10,
    ensures
        r@ == seq![digit_char(d as nat)],
{
    proof {
        reveal_strlit("0");
        reveal_strlit("1");
        reveal_strlit("2");
        reveal_strlit("3");
        reveal_strlit("4");
        reveal_strlit("5");
        reveal_strlit("6");
        reveal_strlit("7");
        reveal_strlit("8");
        reveal_strlit("9");
    }
    let r = match d {
        0 => "0",
        1 => "1",
        2 => "2",
        3 => "3",
        4 => "4",
        5 => "5",
        6 => "6",
        7 => "7",
        8 => "8",
        _ => "9",
    };
    assert(r@ =~= seq![digit_char(d as nat)]);
    r
}

/// `n` in decimal, without leading zeros.
pub fn decimal_text(n: u16) -> (r: String)
    ensures
        r@ == decimal(n as nat),
    decreases n,
{
    if n < 10 {
        digit_text(n).to_owned()
    } else {
        let mut r = decimal_text(n / 10);
        r.append(digit_text(n % 10));
        assert(r@ =~= decimal((n / 10) as nat).push(digit_char((n % 10) as nat)));
        r
    }
}

/// The lowercase form that `str::to_lowercase` gives a text.
pub uninterp spec fn lowercase(s: Seq<char>) -> Seq<char>;

/// The uppercase form that `str::to_uppercase` gives a text.
pub uninterp spec fn uppercase(s: Seq<char>) -> Seq<char>;

/// Calls `str::to_lowercase`, which maps each character by Unicode's rules
/// for lowercase. The result depends on the text alone; the contract gives
/// it the name `lowercase` and claims nothing else of it.
#[verifier::external_body]
pub(crate) fn to_lowercase(s: &str) -> (r: String)
    ensures
        r@ == lowercase(s@),
{
    s.to_lowercase()
}

/// Calls `str::to_uppercase`, which maps each character by Unicode's rules
/// for uppercase. The result depends on the text alone; the contract gives
/// it the name `uppercase` and claims nothing else of it.
#[verifier::external_body]
pub(crate) fn to_uppercase(s: &str) -> (r: String)
    ensures
        r@ == uppercase(s@),
{
    s.to_uppercase()
}

/// Whether `a` comes before `b` in the order of strings: at the first
/// position where they differ the character of `a` has the smaller code
/// point, or `a` ends there and `b` goes on.
pub open spec fn text_before(a: Seq<char>, b: Seq<char>) -> bool
    decreases a.len(),
{
    if b.len() == 0 {
        false
    } else if a.len() == 0 {
        true
    } else if a[0] != b[0] {
        a[0] < b[0]
    } else {
        text_before(a.skip(1), b.skip(1))
    }
}

/// Two different characters have different code points.
proof fn lemma_char_order(x: char, y: char)
    ensures
        x != y ==> x < y || y < x,
{
}

/// No text comes before itself.
pub proof fn lemma_text_before_irreflexive(a: Seq<char>)
    ensures
        !text_before(a, a),
    decreases a.len(),
{
    if a.len() > 0 {
        lemma_text_before_irreflexive(a.skip(1));
    }
}

/// The order of texts is transitive.
pub proof fn lemma_text_before_transitive(a: Seq<char>, b: Seq<char>, c: Seq<char>)
    requires
        text_before(a, b),
        text_before(b, c),
    ensures
        text_before(a, c),
    decreases a.len(),
{
    if a.len() > 0 && a[0] == b[0] && b[0] == c[0] {
        lemma_text_before_transitive(a.skip(1), b.skip(1), c.skip(1));
    }
}

/// Of two different texts one comes before the other.
pub proof fn lemma_text_before_total(a: Seq<char>, b: Seq<char>)
    ensures
        text_before(a, b) || text_before(b, a) || a == b,
    decreases a.len(),
{
    if a.len() > 0 && b.len() > 0 {
        if a[0] == b[0] {
            lemma_text_before_total(a.skip(1), b.skip(1));
            if a.skip(1) == b.skip(1) {
                assert(a =~= seq![a[0]] + a.skip(1));
                assert(b =~= seq![b[0]] + b.skip(1));
            }
        } else {
            lemma_char_order(a[0], b[0]);
        }
    } else if a.len() == 0 && b.len() == 0 {
        assert(a =~= b);
    }
}

/// Whether `a` comes before `b` in the order of strings.
pub fn chars_before(a: &Vec<char>, b: &Vec<char>) -> (r: bool)
    ensures
        r == text_before(a@, b@),
{
    let mut i: usize = 0;
    assert(a@.skip(0) == a@ && b@.skip(0) == b@);
    loop
        invariant
            i <= a.len(),
            i <= b.len(),
            text_before(a@, b@) == text_before(a@.skip(i as int), b@.skip(i as int)),
        decreases a.len() - i,
    {
        let ghost x = a@.skip(i as int);
        let ghost y = b@.skip(i as int);
        if i == b.len() {
            return false;
        }
        if i == a.len() {
            return true;
        }
        assert(x[0] == a@[i as int] && y[0] == b@[i as int]);
        if a[i] != b[i] {
            return a[i] < b[i];
        }
        assert(x.skip(1) == a@.skip(i + 1));
        assert(y.skip(1) == b@.skip(i + 1));
        i += 1;
    }
}

} // verus!
