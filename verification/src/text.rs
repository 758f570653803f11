//! Character sequences: searching, splitting and trimming.
//!
//! Strings are handled as sequences of characters. The contracts are
//! stated over `Seq<char>`; the executable functions work on a `Vec<char>`
//! obtained with [`chars_of`], so that every index is a character index.

use vstd::prelude::*;
use vstd::string::*;

verus! {

/// Whether `c` is white space in Unicode's terms (`White_Space`).
pub open spec fn is_whitespace(c: char) -> bool {
    let n = c as u32;
    ||| 0x09 <= n <= 0x0D
    ||| n == 0x20
    ||| n == 0x85
    ||| n == 0xA0
    ||| n == 0x1680
    ||| 0x2000 <= n <= 0x200A
    ||| n == 0x2028
    ||| n == 0x2029
    ||| n == 0x202F
    ||| n == 0x205F
    ||| n == 0x3000
}

/// Whether `pat` stands in `s` at index `i`.
pub open spec fn occurs_at(s: Seq<char>, pat: Seq<char>, i: int) -> bool {
    &&& 0 <= i
    &&& i + pat.len() <= s.len()
    &&& s.subrange(i, i + pat.len()) == pat
}

/// Whether `pat` stands somewhere in `s`.
pub open spec fn contains(s: Seq<char>, pat: Seq<char>) -> bool {
    exists|i: int| occurs_at(s, pat, i)
}

/// Index of the first `c` in `s` at or after `from`, if there is one.
pub open spec fn first_char_from(s: Seq<char>, c: char, from: int) -> Option<int>
    decreases s.len() - from,
{
    if from < 0 || from >= s.len() {
        None
    } else if s[from] == c {
        Some(from)
    } else {
        first_char_from(s, c, from + 1)
    }
}

/// Index of the first place at or after `from` where `pat` stands in `s`,
/// if there is one.
pub open spec fn first_occurrence_from(s: Seq<char>, pat: Seq<char>, from: int) -> Option<int>
    decreases s.len() + 1 - from,
{
    if from < 0 || from + pat.len() > s.len() {
        None
    } else if occurs_at(s, pat, from) {
        Some(from)
    } else {
        first_occurrence_from(s, pat, from + 1)
    }
}

/// `s` cut in two at its first `c`, which belongs to neither part.
pub open spec fn split_at_char(s: Seq<char>, c: char) -> Option<(Seq<char>, Seq<char>)> {
    match first_char_from(s, c, 0) {
        Some(i) => Some((s.take(i), s.skip(i + 1))),
        None => None,
    }
}

/// `s` cut in two at the first place where `pat` stands, which belongs to
/// neither part.
pub open spec fn split_at_seq(s: Seq<char>, pat: Seq<char>) -> Option<(Seq<char>, Seq<char>)> {
    match first_occurrence_from(s, pat, 0) {
        Some(i) => Some((s.take(i), s.skip(i + pat.len()))),
        None => None,
    }
}

/// `s` without its leading white space.
pub open spec fn trim_start(s: Seq<char>) -> Seq<char>
    decreases s.len(),
{
    if s.len() > 0 && is_whitespace(s.first()) {
        trim_start(s.drop_first())
    } else {
        s
    }
}

/// `s` without its trailing white space.
pub open spec fn trim_end(s: Seq<char>) -> Seq<char>
    decreases s.len(),
{
    if s.len() > 0 && is_whitespace(s.last()) {
        trim_end(s.drop_last())
    } else {
        s
    }
}

/// `s` without its leading and trailing white space.
pub open spec fn trim(s: Seq<char>) -> Seq<char> {
    trim_end(trim_start(s))
}

/// `s` with `to` in place of `from` wherever `from` stands, found from left
/// to right, each place starting where the one before it ended. With an
/// empty `from` nothing is replaced.
pub open spec fn replaced(s: Seq<char>, from: Seq<char>, to: Seq<char>) -> Seq<char>
    decreases s.len(),
{
    if from.len() == 0 || s.len() == 0 {
        s
    } else if occurs_at(s, from, 0) {
        to + replaced(s.skip(from.len() as int), from, to)
    } else {
        seq![s[0]] + replaced(s.skip(1), from, to)
    }
}

/// `found`, an index into a sequence, moved by `by`.
pub open spec fn shifted(found: Option<int>, by: int) -> Option<int> {
    match found {
        Some(i) => Some(i + by),
        None => None,
    }
}

/// What `first_char_from` returns: the index holds `c`, and no index from
/// `from` up to it does.
pub proof fn lemma_first_char_from(s: Seq<char>, c: char, from: int)
    requires
        0 <= from,
    ensures
        match first_char_from(s, c, from) {
            Some(i) => from <= i < s.len() && s[i] == c && forall|j: int|
                from <= j < i ==> s[j] != c,
            None => forall|j: int| from <= j < s.len() ==> s[j] != c,
        },
    decreases s.len() - from,
{
    if from < s.len() && s[from] != c {
        lemma_first_char_from(s, c, from + 1);
    }
}

/// An index that holds the first `c` at or after `from` (or the length of
/// `s`, where there is none) is what `first_char_from` returns.
pub proof fn lemma_first_char_is(s: Seq<char>, c: char, from: int, i: int)
    requires
        0 <= from <= i <= s.len(),
        forall|j: int| from <= j < i ==> s[j] != c,
        i < s.len() ==> s[i] == c,
    ensures
        first_char_from(s, c, from) == if i < s.len() {
            Some(i)
        } else {
            None
        },
    decreases i - from,
{
    if from < i {
        lemma_first_char_is(s, c, from + 1, i);
    }
}

/// Searching the rest of `s` after `k` characters finds what searching `s`
/// from index `k` finds.
pub proof fn lemma_first_char_skip(s: Seq<char>, c: char, k: int)
    requires
        0 <= k <= s.len(),
    ensures
        first_char_from(s.skip(k), c, 0) == shifted(first_char_from(s, c, k), -k),
{
    lemma_first_char_from(s, c, k);
    let rest = s.skip(k);
    match first_char_from(s, c, k) {
        Some(i) => {
            lemma_first_char_is(rest, c, 0, i - k);
        },
        None => {
            lemma_first_char_is(rest, c, 0, rest.len() as int);
        },
    }
}

/// What `first_occurrence_from` returns: `pat` stands at the index, and at
/// no index from `from` up to it.
pub proof fn lemma_first_occurrence_from(s: Seq<char>, pat: Seq<char>, from: int)
    requires
        0 <= from,
    ensures
        match first_occurrence_from(s, pat, from) {
            Some(i) => from <= i && occurs_at(s, pat, i) && forall|j: int|
                from <= j < i ==> !occurs_at(s, pat, j),
            None => forall|j: int| from <= j ==> !occurs_at(s, pat, j),
        },
    decreases s.len() + 1 - from,
{
    if from + pat.len() <= s.len() && !occurs_at(s, pat, from) {
        lemma_first_occurrence_from(s, pat, from + 1);
    }
}

/// An index at which `pat` stands first at or after `from` is what
/// `first_occurrence_from` returns.
pub proof fn lemma_first_occurrence_is(s: Seq<char>, pat: Seq<char>, from: int, i: int)
    requires
        0 <= from <= i,
        occurs_at(s, pat, i),
        forall|j: int| from <= j < i ==> !occurs_at(s, pat, j),
    ensures
        first_occurrence_from(s, pat, from) == Some(i),
    decreases i - from,
{
    if from < i {
        lemma_first_occurrence_is(s, pat, from + 1, i);
    }
}

/// Where `pat` stands nowhere at or after `from`, `first_occurrence_from`
/// finds nothing.
pub proof fn lemma_first_occurrence_none(s: Seq<char>, pat: Seq<char>, from: int)
    requires
        forall|j: int| from <= j ==> !occurs_at(s, pat, j),
    ensures
        first_occurrence_from(s, pat, from) is None,
    decreases s.len() + 1 - from,
{
    if 0 <= from && from + pat.len() <= s.len() {
        lemma_first_occurrence_none(s, pat, from + 1);
    }
}

/// `pat` stands in the rest of `s` after `k` characters exactly where it
/// stands in `s`, `k` places further on.
pub proof fn lemma_occurs_at_skip(s: Seq<char>, pat: Seq<char>, k: int, j: int)
    requires
        0 <= k <= s.len(),
        0 <= j,
    ensures
        occurs_at(s.skip(k), pat, j) == occurs_at(s, pat, k + j),
{
    if j + pat.len() <= s.len() - k {
        assert(s.skip(k).subrange(j, j + pat.len()) =~= s.subrange(k + j, k + j + pat.len()));
    }
}

/// Searching the rest of `s` after `k` characters finds what searching `s`
/// from index `k` finds.
pub proof fn lemma_first_occurrence_skip(s: Seq<char>, pat: Seq<char>, k: int)
    requires
        0 <= k <= s.len(),
    ensures
        first_occurrence_from(s.skip(k), pat, 0) == shifted(
            first_occurrence_from(s, pat, k),
            -k,
        ),
{
    lemma_first_occurrence_from(s, pat, k);
    let rest = s.skip(k);
    match first_occurrence_from(s, pat, k) {
        Some(i) => {
            lemma_occurs_at_skip(s, pat, k, i - k);
            assert forall|j: int| 0 <= j < i - k implies !occurs_at(rest, pat, j) by {
                lemma_occurs_at_skip(s, pat, k, j);
            }
            lemma_first_occurrence_is(rest, pat, 0, i - k);
        },
        None => {
            assert forall|j: int| 0 <= j implies !occurs_at(rest, pat, j) by {
                lemma_occurs_at_skip(s, pat, k, j);
            }
            lemma_first_occurrence_none(rest, pat, 0);
        },
    }
}

/// `s` contains `pat` exactly when a search from the start finds it.
pub proof fn lemma_contains_first_occurrence(s: Seq<char>, pat: Seq<char>)
    ensures
        contains(s, pat) == first_occurrence_from(s, pat, 0) is Some,
{
    lemma_first_occurrence_from(s, pat, 0);
}

/// Where `from` stands nowhere in `s`, nothing is replaced.
pub proof fn lemma_replaced_without_occurrence(s: Seq<char>, from: Seq<char>, to: Seq<char>)
    requires
        !contains(s, from),
    ensures
        replaced(s, from, to) == s,
    decreases s.len(),
{
    if from.len() > 0 && s.len() > 0 {
        assert(!occurs_at(s, from, 0));
        assert forall|j: int| !occurs_at(s.skip(1), from, j) by {
            if 0 <= j {
                lemma_occurs_at_skip(s, from, 1, j);
                assert(!occurs_at(s, from, 1 + j));
            }
        }
        lemma_replaced_without_occurrence(s.skip(1), from, to);
    }
}

/// Where the first `a` characters of `s` are white space and the next one,
/// if there is one, is not, `trim_start` removes exactly those `a`.
pub proof fn lemma_trim_start_is(s: Seq<char>, a: int)
    requires
        0 <= a <= s.len(),
        forall|j: int| 0 <= j < a ==> is_whitespace(s[j]),
        a < s.len() ==> !is_whitespace(s[a]),
    ensures
        trim_start(s) == s.skip(a),
    decreases a,
{
    if a > 0 {
        lemma_trim_start_is(s.drop_first(), a - 1);
    }
}

/// Where the characters of `s` from index `b` on are white space and the one
/// before them, if there is one, is not, `trim_end` keeps exactly the first
/// `b`.
pub proof fn lemma_trim_end_is(s: Seq<char>, b: int)
    requires
        0 <= b <= s.len(),
        forall|j: int| b <= j < s.len() ==> is_whitespace(s[j]),
        b > 0 ==> !is_whitespace(s[b - 1]),
    ensures
        trim_end(s) == s.take(b),
    decreases s.len() - b,
{
    if b < s.len() {
        lemma_trim_end_is(s.drop_last(), b);
    }
}

/// The characters of `s`, in order.
pub fn chars_of(s: &str) -> (chars: Vec<char>)
    ensures
        chars@ == s@,
{
    let mut chars: Vec<char> = Vec::new();
    for c in it: s.chars()
        invariant
            it.seq() == s@,
            chars@ == s@.take(it.index() as int),
    {
        chars.push(c);
    }
    chars
}

/// Whether `c` is Unicode white space.
pub fn is_whitespace_char(c: char) -> (b: bool)
    ensures
        b == is_whitespace(c),
{
    let n: u32 = c as u32;
    (0x09 <= n && n <= 0x0D) || n == 0x20 || n == 0x85 || n == 0xA0 || n == 0x1680 || (0x2000 <= n
        && n <= 0x200A) || n == 0x2028 || n == 0x2029 || n == 0x202F || n == 0x205F || n == 0x3000
}

/// Whether `pat` stands in `chars` at index `i`.
pub fn matches_at(chars: &Vec<char>, pat: &Vec<char>, i: usize) -> (b: bool)
    ensures
        b == occurs_at(chars@, pat@, i as int),
{
    if pat.len() > chars.len() || i > chars.len() - pat.len() {
        return false;
    }
    let mut k: usize = 0;
    while k < pat.len()
        invariant
            k <= pat.len(),
            i + pat.len() <= chars.len(),
            forall|j: int| 0 <= j < k ==> chars@[i + j] == pat@[j],
        decreases pat.len() - k,
    {
        if chars[i + k] != pat[k] {
            return false;
        }
        k += 1;
    }
    proof {
        assert(chars@.subrange(i as int, i + pat@.len()) =~= pat@);
    }
    true
}

/// Index of the first `c` in `chars` at or after `from`.
pub fn find_char(chars: &Vec<char>, c: char, from: usize) -> (found: Option<usize>)
    ensures
        match found {
            Some(i) => first_char_from(chars@, c, from as int) == Some(i as int),
            None => first_char_from(chars@, c, from as int) is None,
        },
{
    let mut i: usize = from;
    while i < chars.len()
        invariant
            from <= i,
            forall|j: int| from <= j < i && j < chars.len() ==> chars@[j] != c,
        decreases chars.len() - i,
    {
        if chars[i] == c {
            proof {
                lemma_first_char_is(chars@, c, from as int, i as int);
            }
            return Some(i);
        }
        i += 1;
    }
    proof {
        if from <= chars.len() {
            lemma_first_char_is(chars@, c, from as int, chars@.len() as int);
        }
    }
    None
}

/// Index of the first place at or after `from` where `pat` stands in
/// `chars`.
pub fn find_seq(chars: &Vec<char>, pat: &Vec<char>, from: usize) -> (found: Option<usize>)
    ensures
        match found {
            Some(i) => first_occurrence_from(chars@, pat@, from as int) == Some(i as int),
            None => first_occurrence_from(chars@, pat@, from as int) is None,
        },
{
    if pat.len() > chars.len() {
        proof {
            lemma_first_occurrence_none(chars@, pat@, from as int);
        }
        return None;
    }
    let last: usize = chars.len() - pat.len();
    let mut i: usize = from;
    while i <= last
        invariant_except_break
            from <= i,
        invariant
            last == chars.len() - pat.len(),
            forall|j: int| from <= j < i ==> !occurs_at(chars@, pat@, j),
        ensures
            forall|j: int| from <= j ==> !occurs_at(chars@, pat@, j),
        decreases last + 1 - i,
    {
        if matches_at(chars, pat, i) {
            proof {
                lemma_first_occurrence_is(chars@, pat@, from as int, i as int);
            }
            return Some(i);
        }
        if i == last {
            break;
        }
        i += 1;
    }
    proof {
        lemma_first_occurrence_none(chars@, pat@, from as int);
    }
    None
}

/// Bounds of `chars[lo..hi]` without its leading and trailing white space.
pub(crate) fn trim_range(chars: &Vec<char>, lo: usize, hi: usize) -> (bounds: (usize, usize))
    requires
        lo <= hi <= chars.len(),
    ensures
        lo <= bounds.0 <= bounds.1 <= hi,
        chars@.subrange(bounds.0 as int, bounds.1 as int) == trim(
            chars@.subrange(lo as int, hi as int),
        ),
{
    let mut a: usize = lo;
    while a < hi && is_whitespace_char(chars[a])
        invariant
            lo <= a <= hi <= chars.len(),
            forall|j: int| lo <= j < a ==> is_whitespace(chars@[j]),
        decreases hi - a,
    {
        a += 1;
    }
    let mut b: usize = hi;
    while b > a && is_whitespace_char(chars[b - 1])
        invariant
            a <= b <= hi <= chars.len(),
            forall|j: int| b <= j < hi ==> is_whitespace(chars@[j]),
        decreases b - a,
    {
        b -= 1;
    }
    proof {
        let s = chars@.subrange(lo as int, hi as int);
        lemma_trim_start_is(s, a - lo);
        let t = s.skip(a - lo);
        lemma_trim_end_is(t, b - a);
    }
    (a, b)
}

/// `text` with `to` in place of `from` wherever `from` stands.
pub fn replace_all(text: &str, from: &str, to: &str) -> (out: String)
    ensures
        out@ == replaced(text@, from@, to@),
{
    let chars = chars_of(text);
    let pat = chars_of(from);
    if pat.len() == 0 {
        return String::from_str(text);
    }
    let n = chars.len();
    let mut out = String::new();
    let mut kept: usize = 0;
    let mut i: usize = 0;
    proof {
        assert(text@.skip(0) =~= text@);
    }
    while i < n
        invariant
            kept <= i <= n,
            n == chars.len(),
            chars@ == text@,
            pat@ == from@,
            pat.len() > 0,
            out@ + text@.subrange(kept as int, i as int) + replaced(text@.skip(i as int), from@, to@)
                == replaced(text@, from@, to@),
        decreases n - i,
    {
        let ghost rest = text@.skip(i as int);
        proof {
            lemma_occurs_at_skip(text@, from@, i as int, 0);
        }
        if matches_at(&chars, &pat, i) {
            out.append(text.substring_char(kept, i));
            out.append(to);
            proof {
                assert(rest.skip(from@.len() as int) =~= text@.skip(i + from@.len()));
            }
            i += pat.len();
            kept = i;
        } else {
            proof {
                assert(rest.skip(1) =~= text@.skip(i + 1));
            }
            i += 1;
        }
    }
    out.append(text.substring_char(kept, n));
    out
}

} // verus!
