//! Text as sequences of characters: the small vocabulary of searches, cuts and
//! renderings that the rest of the crate is written in.

use vstd::prelude::*;

verus! {

/// The characters of a string, in order.
pub fn to_chars(s: &str) -> (chars: Vec<char>)
    ensures
        chars@ == s@,
{
    let mut chars: Vec<char> = Vec::new();
    for c in it: s.chars()
        invariant
            it.seq() == s@,
            chars@ == it.seq().take(it.index() as int),
    {
        chars.push(c);
        assert(chars@ =~= it.seq().take(it.index() + 1));
    }
    assert(s@.take(s@.len() as int) =~= s@);
    chars
}

/// Appends one character to a string. Trusted: `String::push` puts the
/// character at the end of the string and changes nothing else.
#[verifier::external_body]
fn push_char(s: &mut String, c: char)
    ensures
        final(s)@ == old(s)@.push(c),
{
    s.push(c)
}

/// The string made of the given characters.
pub fn from_chars(chars: &[char]) -> (s: String)
    ensures
        s@ == chars@,
{
    let mut s = String::new();
    let n: usize = chars.len();
    let mut i: usize = 0;
    while i < n
        invariant
            n == chars.len(),
            i <= n,
            s@ == chars@.take(i as int),
        decreases n - i,
    {
        push_char(&mut s, chars[i]);
        i += 1;
        assert(s@ =~= chars@.take(i as int));
    }
    assert(chars@.take(n as int) =~= chars@);
    s
}

/// Whether a character is white space in the sense of Unicode's `White_Space`
/// property.
pub open spec fn is_space(c: char) -> bool {
    let n = c as u32;
    ||| 0x09 <= n <= 0x0d
    ||| n == 0x20
    ||| n == 0x85
    ||| n == 0xa0
    ||| n == 0x1680
    ||| 0x2000 <= n <= 0x200a
    ||| n == 0x2028
    ||| n == 0x2029
    ||| n == 0x202f
    ||| n == 0x205f
    ||| n == 0x3000
}

/// Tests a character for white space.
pub fn char_is_space(c: char) -> (space: bool)
    ensures
        space == is_space(c),
{
    let n: u32 = c as u32;
    (0x09 <= n && n <= 0x0d) || n == 0x20 || n == 0x85 || n == 0xa0 || n == 0x1680 || (0x2000 <= n
        && n <= 0x200a) || n == 0x2028 || n == 0x2029 || n == 0x202f || n == 0x205f || n == 0x3000
}

/// The first index at or after `from` that holds no white space, or the
/// length of the text.
pub open spec fn skip_spaces(s: Seq<char>, from: int) -> int
    decreases s.len() - from,
{
    if 0 <= from < s.len() && is_space(s[from]) {
        skip_spaces(s, from + 1)
    } else {
        from
    }
}

/// The least end above `floor` such that no white space stands directly before
/// it, going down from `to`.
pub open spec fn drop_spaces(s: Seq<char>, floor: int, to: int) -> int
    decreases to,
{
    if floor < to <= s.len() && 0 < to && is_space(s[to - 1]) {
        drop_spaces(s, floor, to - 1)
    } else {
        to
    }
}

/// Where the text starts once leading white space is gone.
pub open spec fn trim_start_index(s: Seq<char>) -> int {
    skip_spaces(s, 0)
}

/// Where the text ends once trailing white space is gone.
pub open spec fn trim_end_index(s: Seq<char>) -> int {
    drop_spaces(s, trim_start_index(s), s.len() as int)
}

/// The text without its leading and trailing white space.
pub open spec fn trim(s: Seq<char>) -> Seq<char> {
    s.subrange(trim_start_index(s), trim_end_index(s))
}

/// The bounds of the text without its leading and trailing white space.
pub fn trim_bounds(s: &Vec<char>) -> (bounds: (usize, usize))
    ensures
        bounds.0 == trim_start_index(s@),
        bounds.1 == trim_end_index(s@),
        bounds.0 <= bounds.1 <= s.len(),
{
    let n: usize = s.len();
    let mut start: usize = 0;
    while start < n && char_is_space(s[start])
        invariant
            n == s.len(),
            start <= n,
            skip_spaces(s@, start as int) == skip_spaces(s@, 0),
        decreases n - start,
    {
        start += 1;
    }
    let mut end: usize = n;
    while start < end && char_is_space(s[end - 1])
        invariant
            n == s.len(),
            start <= end <= n,
            start == trim_start_index(s@),
            drop_spaces(s@, start as int, end as int) == drop_spaces(s@, start as int, n as int),
        decreases end,
    {
        end -= 1;
    }
    (start, end)
}

/// The characters of `s` from `from` up to `to`.
pub fn slice_chars(s: &Vec<char>, from: usize, to: usize) -> (part: Vec<char>)
    requires
        from <= to <= s.len(),
    ensures
        part@ == s@.subrange(from as int, to as int),
{
    let mut part: Vec<char> = Vec::new();
    let mut i: usize = from;
    while i < to
        invariant
            from <= i <= to <= s.len(),
            part@ == s@.subrange(from as int, i as int),
        decreases to - i,
    {
        part.push(s[i]);
        i += 1;
        assert(part@ =~= s@.subrange(from as int, i as int));
    }
    part
}

/// Whether `pattern` stands in `s` at index `at`.
pub open spec fn occurs_at(s: Seq<char>, pattern: Seq<char>, at: int) -> bool {
    &&& 0 <= at
    &&& at + pattern.len() <= s.len()
    &&& s.subrange(at, at + pattern.len()) == pattern
}

/// Whether `s` begins with `prefix`.
pub open spec fn has_prefix(s: Seq<char>, prefix: Seq<char>) -> bool {
    occurs_at(s, prefix, 0)
}

/// Tests whether `pattern` stands in `s` at index `at`.
pub fn matches_at(s: &Vec<char>, pattern: &Vec<char>, at: usize) -> (found: bool)
    ensures
        found == occurs_at(s@, pattern@, at as int),
{
    let m: usize = pattern.len();
    if at > s.len() || s.len() - at < m {
        return false;
    }
    let mut k: usize = 0;
    while k < m
        invariant
            m == pattern.len(),
            at + m <= s.len(),
            k <= m,
            forall|j: int| 0 <= j < k ==> s@[at + j] == pattern@[j],
        decreases m - k,
    {
        if s[at + k] != pattern[k] {
            proof {
                let window = s@.subrange(at as int, at + m);
                assert(window[k as int] == s@[at + k]);
            }
            return false;
        }
        k += 1;
    }
    assert(s@.subrange(at as int, at + m) =~= pattern@);
    true
}

/// Tests whether two texts hold the same characters.
pub fn same_chars(a: &Vec<char>, b: &Vec<char>) -> (same: bool)
    ensures
        same == (a@ == b@),
{
    if a.len() != b.len() {
        return false;
    }
    let found = matches_at(a, b, 0);
    proof {
        assert(a@.subrange(0, a@.len() as int) =~= a@);
    }
    found
}

/// The texts of a list of strings, in order.
pub open spec fn texts(items: Seq<String>) -> Seq<Seq<char>> {
    Seq::new(items.len(), |i: int| items[i]@)
}

/// Tests whether two strings hold the same text.
pub fn text_eq(a: &str, b: &str) -> (same: bool)
    ensures
        same == (a@ == b@),
{
    let left = to_chars(a);
    let right = to_chars(b);
    same_chars(&left, &right)
}

/// The text that `String::from_utf8_lossy` yields for the given bytes: their
/// UTF-8 reading, with each malformed run replaced by U+FFFD.
pub uninterp spec fn utf8_lossy(bytes: Seq<u8>) -> Seq<char>;

/// Reads bytes as text without failing on malformed input. Trusted: the
/// result of `String::from_utf8_lossy` depends on the bytes alone, and
/// [`utf8_lossy`] is the name of that result.
#[verifier::external_body]
pub(crate) fn decode_lossy(bytes: &[u8]) -> (text: String)
    ensures
        text@ == utf8_lossy(bytes@),
{
    String::from_utf8_lossy(bytes).into_owned()
}

/// The text that `str::to_lowercase` yields: every character replaced by its
/// lower-case form under Unicode's rules.
pub uninterp spec fn lowercased(s: Seq<char>) -> Seq<char>;

/// The lower-case form of a text. Trusted: the result of `str::to_lowercase`
/// depends on the text alone, and [`lowercased`] is the name of that result.
#[verifier::external_body]
pub(crate) fn to_lowercase(s: &str) -> (lower: String)
    ensures
        lower@ == lowercased(s@),
{
    s.to_lowercase()
}

/// Whether `pattern` stands somewhere in `s`.
pub open spec fn contains(s: Seq<char>, pattern: Seq<char>) -> bool {
    exists|at: int| occurs_at(s, pattern, at)
}

/// Tests whether `pattern` stands somewhere in `s`.
pub fn contains_chars(s: &Vec<char>, pattern: &Vec<char>) -> (found: bool)
    ensures
        found == contains(s@, pattern@),
{
    let n: usize = s.len();
    let m: usize = pattern.len();
    if m > n {
        assert forall|at: int| !occurs_at(s@, pattern@, at) by {}
        return false;
    }
    let last: usize = n - m;
    let mut i: usize = 0;
    while i < last
        invariant
            n == s.len(),
            m == pattern.len(),
            last == n - m,
            i <= last,
            forall|at: int| 0 <= at < i ==> !occurs_at(s@, pattern@, at),
        decreases last - i,
    {
        if matches_at(s, pattern, i) {
            return true;
        }
        i += 1;
    }
    if matches_at(s, pattern, last) {
        return true;
    }
    assert forall|at: int| !occurs_at(s@, pattern@, at) by {}
    false
}

/// The text with every occurrence of `pattern` replaced by `with`, found from
/// left to right and without overlap. An empty pattern replaces nothing.
pub open spec fn replace_all(s: Seq<char>, pattern: Seq<char>, with: Seq<char>) -> Seq<char>
    decreases s.len(),
{
    if pattern.len() == 0 || s.len() < pattern.len() {
        s
    } else if occurs_at(s, pattern, 0) {
        with + replace_all(s.skip(pattern.len() as int), pattern, with)
    } else {
        seq![s[0]] + replace_all(s.skip(1), pattern, with)
    }
}

/// Appends the characters of `more` to `target`.
pub fn push_chars(target: &mut Vec<char>, more: &Vec<char>)
    ensures
        final(target)@ == old(target)@ + more@,
{
    let n: usize = more.len();
    let mut i: usize = 0;
    while i < n
        invariant
            n == more.len(),
            i <= n,
            target@ == old(target)@ + more@.take(i as int),
        decreases n - i,
    {
        target.push(more[i]);
        i += 1;
        assert(target@ =~= old(target)@ + more@.take(i as int));
    }
    assert(more@.take(n as int) =~= more@);
}

/// Replaces every occurrence of a pattern.
pub fn replace_chars(s: &Vec<char>, pattern: &Vec<char>, with: &Vec<char>) -> (replaced: Vec<char>)
    ensures
        replaced@ == replace_all(s@, pattern@, with@),
{
    let n: usize = s.len();
    let m: usize = pattern.len();
    if m == 0 {
        return slice_chars(s, 0, n);
    }
    let mut out: Vec<char> = Vec::new();
    let mut i: usize = 0;
    assert(s@.skip(0) =~= s@);
    while i < n && n - i >= m
        invariant
            n == s.len(),
            m == pattern.len(),
            m > 0,
            i <= n,
            out@ + replace_all(s@.skip(i as int), pattern@, with@) == replace_all(
                s@,
                pattern@,
                with@,
            ),
        decreases n - i,
    {
        let ghost rest = s@.skip(i as int);
        let ghost before = out@;
        let hit = matches_at(s, pattern, i);
        proof {
            assert(rest.subrange(0, m as int) =~= s@.subrange(i as int, i + m));
        }
        if hit {
            push_chars(&mut out, with);
            proof {
                assert(rest.skip(m as int) =~= s@.skip(i + m));
                let tail = replace_all(s@.skip(i + m), pattern@, with@);
                assert((before + with@) + tail =~= before + (with@ + tail));
            }
            i += m;
        } else {
            out.push(s[i]);
            proof {
                assert(rest.skip(1) =~= s@.skip(i + 1));
                let tail = replace_all(s@.skip(i + 1), pattern@, with@);
                assert((before + seq![s@[i as int]]) + tail =~= before + (seq![s@[i as int]] + tail));
                assert(out@ =~= before + seq![s@[i as int]]);
            }
            i += 1;
        }
    }
    let tail = slice_chars(s, i, n);
    proof {
        assert(tail@ =~= s@.skip(i as int));
    }
    push_chars(&mut out, &tail);
    out
}

/// The character of a decimal digit.
pub open spec fn digit(d: nat) -> char {
    if d == 0 {
        '0'
    } else if d == 1 {
        '1'
    } else if d == 2 {
        '2'
    } else if d == 3 {
        '3'
    } else if d == 4 {
        '4'
    } else if d == 5 {
        '5'
    } else if d == 6 {
        '6'
    } else if d == 7 {
        '7'
    } else if d == 8 {
        '8'
    } else {
        '9'
    }
}

/// A number in decimal notation, without leading zeros.
pub open spec fn decimal(n: nat) -> Seq<char>
    decreases n,
{
    if n < 10 {
        seq![digit(n)]
    } else {
        decimal(n / 10).push(digit(n % 10))
    }
}

/// The character of a decimal digit.
fn digit_char(d: usize) -> (c: char)
    requires
        d < 10,
    ensures
        c == digit(d as nat),
{
    if d == 0 {
        '0'
    } else if d == 1 {
        '1'
    } else if d == 2 {
        '2'
    } else if d == 3 {
        '3'
    } else if d == 4 {
        '4'
    } else if d == 5 {
        '5'
    } else if d == 6 {
        '6'
    } else if d == 7 {
        '7'
    } else if d == 8 {
        '8'
    } else {
        '9'
    }
}

/// Writes a number in decimal notation.
pub fn decimal_chars(n: usize) -> (digits: Vec<char>)
    ensures
        digits@ == decimal(n as nat),
    decreases n,
{
    if n < 10 {
        let mut digits: Vec<char> = Vec::new();
        digits.push(digit_char(n));
        assert(digits@ =~= seq![digit(n as nat)]);
        digits
    } else {
        let mut digits = decimal_chars(n / 10);
        digits.push(digit_char(n % 10));
        digits
    }
}

/// The number of words of a text: its maximal runs of characters that are
/// not white space.
pub open spec fn word_count(s: Seq<char>) -> nat
    decreases s.len(),
{
    if s.len() == 0 {
        0
    } else {
        let starts_word = !is_space(s.last()) && (s.len() == 1 || is_space(s[s.len() - 2]));
        word_count(s.drop_last()) + if starts_word {
            1nat
        } else {
            0nat
        }
    }
}

/// Counts the words of a text.
pub fn count_words(s: &Vec<char>) -> (count: usize)
    ensures
        count == word_count(s@),
{
    let n: usize = s.len();
    let mut count: usize = 0;
    let mut i: usize = 0;
    let mut after_space: bool = true;
    assert(s@.take(0) =~= Seq::<char>::empty());
    while i < n
        invariant
            n == s.len(),
            i <= n,
            count == word_count(s@.take(i as int)),
            count <= i,
            after_space == (i == 0 || is_space(s@[i - 1])),
        decreases n - i,
    {
        let space = char_is_space(s[i]);
        proof {
            let next = s@.take(i + 1);
            assert(next.drop_last() =~= s@.take(i as int));
            assert(next.last() == s@[i as int]);
            if i > 0 {
                assert(next[next.len() - 2] == s@[i - 1]);
            }
        }
        if !space && after_space {
            count += 1;
        }
        after_space = space;
        i += 1;
    }
    assert(s@.take(n as int) =~= s@);
    count
}

/// Every text stands in itself.
pub proof fn lemma_contains_self(s: Seq<char>)
    ensures
        contains(s, s),
{
    assert(s.subrange(0, s.len() as int) =~= s);
    assert(occurs_at(s, s, 0));
}

/// What stands in a text stands in every text that the text is part of.
pub proof fn lemma_contains_within(
    before: Seq<char>,
    s: Seq<char>,
    after: Seq<char>,
    pattern: Seq<char>,
)
    requires
        contains(s, pattern),
    ensures
        contains(before + s + after, pattern),
{
    let at = choose|at: int| occurs_at(s, pattern, at);
    let whole = before + s + after;
    assert(whole.subrange(before.len() + at, before.len() + at + pattern.len()) =~= s.subrange(
        at,
        at + pattern.len(),
    ));
    assert(occurs_at(whole, pattern, before.len() + at));
}

} // verus!
