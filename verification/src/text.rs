//! Character-level helpers shared by the parsers: whitespace, trimming,
//! line splitting and conversions between strings and character vectors.

use vstd::prelude::*;

verus! {

/// What the verifier is told of `String::push` of the standard library: the
/// character is appended to the text of the string.
pub assume_specification[ String::push ](s: &mut String, c: char)
    ensures
        final(s)@ == old(s)@.push(c),
;

/// Whether `c` carries the Unicode `White_Space` property.
pub open spec fn is_whitespace(c: char) -> bool {
    let n = c as u32;
    ||| 0x09 <= n <= 0x0d
    ||| n == 0x20
    ||| n == 0x85
    ||| n == 0xa0
    ||| n == 0x1680
    ||| 0x2000 <= n <= 0x200a
    ||| n == 0x2028
    ||| n == 0x2029
    ||| n == 0x202f
    ||| n == 0x205f
    ||| n == 0x3000
}

/// Whether `c` is white space.
pub fn is_space(c: char) -> (b: bool)
    ensures
        b == is_whitespace(c),
{
    let n: u32 = c as u32;
    (0x09 <= n && n <= 0x0d) || n == 0x20 || n == 0x85 || n == 0xa0 || n == 0x1680 || (0x2000 <= n
        && n <= 0x200a) || n == 0x2028 || n == 0x2029 || n == 0x202f || n == 0x205f || n == 0x3000
}

/// The characters of `s`, in order.
pub fn to_chars(s: &str) -> (chars: Vec<char>)
    ensures
        chars@ == s@,
{
    let mut chars: Vec<char> = Vec::new();
    for c in it: s.chars()
        invariant
            chars@ == it.seq().take(it.index() as int),
            it.seq() == s@,
    {
        chars.push(c);
    }
    chars
}

/// The string spelled by `chars`.
pub fn to_string(chars: &Vec<char>) -> (s: String)
    ensures
        s@ == chars@,
{
    let mut s = String::new();
    let mut i: usize = 0;
    while i < chars.len()
        invariant
            i <= chars.len(),
            s@ == chars@.take(i as int),
        decreases chars.len() - i,
    {
        s.push(chars[i]);
        i += 1;
    }
    s
}

/// A copy of the characters of `chars` from `lo` up to `hi`.
pub fn slice(chars: &Vec<char>, lo: usize, hi: usize) -> (out: Vec<char>)
    requires
        lo <= hi <= chars.len(),
    ensures
        out@ == chars@.subrange(lo as int, hi as int),
{
    let mut out: Vec<char> = Vec::new();
    let mut i: usize = lo;
    while i < hi
        invariant
            lo <= i <= hi <= chars.len(),
            out@ == chars@.subrange(lo as int, i as int),
        decreases hi - i,
    {
        out.push(chars[i]);
        i += 1;
    }
    out
}

/// Appends the characters of `tail` to `out`.
pub fn extend(out: &mut Vec<char>, tail: &Vec<char>)
    ensures
        final(out)@ == old(out)@ + tail@,
{
    let mut i: usize = 0;
    while i < tail.len()
        invariant
            i <= tail.len(),
            out@ == old(out)@ + tail@.take(i as int),
        decreases tail.len() - i,
    {
        out.push(tail[i]);
        i += 1;
    }
}

/// Whether two character vectors spell the same text.
pub fn same(a: &Vec<char>, b: &Vec<char>) -> (eq: bool)
    ensures
        eq == (a@ == b@),
{
    if a.len() != b.len() {
        return false;
    }
    let mut i: usize = 0;
    while i < a.len()
        invariant
            i <= a.len(),
            a.len() == b.len(),
            a@.take(i as int) == b@.take(i as int),
        decreases a.len() - i,
    {
        if a[i] != b[i] {
            return false;
        }
        i += 1;
    }
    assert(a@ == a@.take(a.len() as int));
    assert(b@ == b@.take(b.len() as int));
    true
}

/// `s` without its leading white space.
pub open spec fn trim_start(s: Seq<char>) -> Seq<char>
    decreases s.len(),
{
    if s.len() > 0 && is_whitespace(s[0]) {
        trim_start(s.drop_first())
    } else {
        s
    }
}

/// `s` without its trailing white space.
pub open spec fn trim_end(s: Seq<char>) -> Seq<char>
    decreases s.len(),
{
    if s.len() > 0 && is_whitespace(s.last()) {
        trim_end(s.drop_last())
    } else {
        s
    }
}

/// `s` without leading and trailing white space.
pub open spec fn trim(s: Seq<char>) -> Seq<char> {
    trim_end(trim_start(s))
}

/// A trimmed text neither starts nor ends with white space, and trimming it
/// again changes nothing.
pub proof fn lemma_trim_is_trimmed(s: Seq<char>)
    ensures
        trim(s).len() > 0 ==> !is_whitespace(trim(s)[0]) && !is_whitespace(trim(s).last()),
        trim(trim(s)) == trim(s),
        trim(s).len() <= s.len(),
{
    lemma_trim_start_bounds(s);
    lemma_trim_end_bounds(trim_start(s));
    let t = trim(s);
    if t.len() > 0 {
        let ts = trim_start(s);
        lemma_trim_end_prefix(ts);
    }
}

/// What `trim_start` leaves is a suffix of `s` that does not start with white
/// space.
pub proof fn lemma_trim_start_bounds(s: Seq<char>)
    ensures
        trim_start(s).len() <= s.len(),
        trim_start(s) == s.skip(s.len() - trim_start(s).len()),
        trim_start(s).len() > 0 ==> !is_whitespace(trim_start(s)[0]),
    decreases s.len(),
{
    if s.len() > 0 && is_whitespace(s[0]) {
        let rest = s.drop_first();
        lemma_trim_start_bounds(rest);
    }
}

/// What `trim_end` leaves is a prefix of `s` that does not end with white
/// space.
pub proof fn lemma_trim_end_bounds(s: Seq<char>)
    ensures
        trim_end(s).len() <= s.len(),
        trim_end(s).len() > 0 ==> !is_whitespace(trim_end(s).last()),
        trim_end(trim_end(s)) == trim_end(s),
    decreases s.len(),
{
    if s.len() > 0 && is_whitespace(s.last()) {
        lemma_trim_end_bounds(s.drop_last());
    }
}

/// `trim_end` keeps a prefix of its argument.
pub proof fn lemma_trim_end_prefix(s: Seq<char>)
    ensures
        trim_end(s) == s.take(trim_end(s).len() as int),
    decreases s.len(),
{
    if s.len() > 0 && is_whitespace(s.last()) {
        let rest = s.drop_last();
        lemma_trim_end_prefix(rest);
        lemma_trim_end_bounds(rest);
    }
}

/// `chars` without leading and trailing white space.
pub fn trimmed(chars: &Vec<char>) -> (out: Vec<char>)
    ensures
        out@ == trim(chars@),
{
    let n = chars.len();
    let mut lo: usize = 0;
    assert(chars@.skip(0) == chars@);
    while lo < n && is_space(chars[lo])
        invariant
            lo <= n == chars.len(),
            trim_start(chars@) == trim_start(chars@.skip(lo as int)),
        decreases n - lo,
    {
        assert(chars@.skip(lo as int).drop_first() == chars@.skip(lo + 1));
        lo += 1;
    }
    let mut hi: usize = n;
    while hi > lo && is_space(chars[hi - 1])
        invariant
            lo <= hi <= n == chars.len(),
            trim(chars@) == trim_end(chars@.subrange(lo as int, hi as int)),
        decreases hi - lo,
    {
        assert(chars@.subrange(lo as int, hi as int).drop_last() == chars@.subrange(
            lo as int,
            hi - 1,
        ));
        hi -= 1;
    }
    slice(chars, lo, hi)
}

/// The index of the first `c` in `s`, or `s.len()` where `s` holds none.
pub open spec fn position(s: Seq<char>, c: char) -> int
    decreases s.len(),
{
    if s.len() == 0 || s[0] == c {
        0
    } else {
        1 + position(s.drop_first(), c)
    }
}

/// `position` is in range, no earlier index holds `c`, and the index it
/// gives holds `c` unless it is the length.
pub proof fn lemma_position(s: Seq<char>, c: char)
    ensures
        0 <= position(s, c) <= s.len(),
        forall|j: int| 0 <= j < position(s, c) ==> s[j] != c,
        position(s, c) < s.len() ==> s[position(s, c)] == c,
    decreases s.len(),
{
    if s.len() > 0 && s[0] != c {
        let rest = s.drop_first();
        lemma_position(rest, c);
        assert forall|j: int| 0 <= j < position(s, c) implies s[j] != c by {
            if j > 0 {
                assert(s[j] == rest[j - 1]);
            }
        }
    }
}

/// An index with the properties of `lemma_position` is the position.
pub proof fn lemma_position_is(s: Seq<char>, c: char, p: int)
    requires
        0 <= p <= s.len(),
        forall|j: int| 0 <= j < p ==> s[j] != c,
        p < s.len() ==> s[p] == c,
    ensures
        position(s, c) == p,
    decreases s.len(),
{
    if s.len() > 0 && s[0] != c {
        let rest = s.drop_first();
        lemma_position_is(rest, c, p - 1);
    }
}

/// The index of the first `c` at or after `from`, or the length.
pub fn find_from(chars: &Vec<char>, from: usize, c: char) -> (p: usize)
    requires
        from <= chars.len(),
    ensures
        p == from + position(chars@.skip(from as int), c),
        from <= p <= chars.len(),
{
    let mut i: usize = from;
    while i < chars.len() && chars[i] != c
        invariant
            from <= i <= chars.len(),
            forall|j: int| from <= j < i ==> chars@[j] != c,
        decreases chars.len() - i,
    {
        i += 1;
    }
    proof {
        lemma_position_is(chars@.skip(from as int), c, i - from);
    }
    i
}

/// `s` split at its first `c`: what stands before it and what stands after
/// it, or `None` where `s` holds no `c`.
pub open spec fn split_once(s: Seq<char>, c: char) -> Option<(Seq<char>, Seq<char>)> {
    let p = position(s, c);
    if 0 <= p < s.len() {
        Some((s.take(p), s.skip(p + 1)))
    } else {
        None
    }
}

/// The index at which the first carriage return directly followed by a line
/// feed starts in `s`, or `s.len()` where there is none.
pub open spec fn crlf_position(s: Seq<char>) -> int
    decreases s.len(),
{
    if s.len() < 2 {
        s.len() as int
    } else if s[0] == '\r' && s[1] == '\n' {
        0
    } else {
        1 + crlf_position(s.drop_first())
    }
}

/// Whether a carriage return directly followed by a line feed starts at
/// index `i` of `s`.
pub open spec fn crlf_at(s: Seq<char>, i: int) -> bool {
    0 <= i && i + 1 < s.len() && s[i] == '\r' && s[i + 1] == '\n'
}

/// An index in range is the position where no pair starts before it and a
/// pair starts at it unless it is the length.
pub proof fn lemma_crlf_position_is(s: Seq<char>, p: int)
    requires
        0 <= p <= s.len(),
        forall|j: int| 0 <= j < p ==> !crlf_at(s, j),
        p < s.len() ==> crlf_at(s, p),
    ensures
        crlf_position(s) == p,
    decreases s.len(),
{
    if s.len() >= 2 && s[0] == '\r' && s[1] == '\n' {
        assert(crlf_at(s, 0));
    } else if s.len() >= 2 {
        let rest = s.drop_first();
        assert forall|j: int| 0 <= j < p - 1 implies !crlf_at(rest, j) by {
            assert(!crlf_at(s, j + 1));
        }
        lemma_crlf_position_is(rest, p - 1);
    }
}

/// `s` split at its first carriage return directly followed by a line feed:
/// what stands before the pair and what stands after it, or `None` where
/// `s` holds no such pair.
pub open spec fn split_at_crlf(s: Seq<char>) -> Option<(Seq<char>, Seq<char>)> {
    let p = crlf_position(s);
    if 0 <= p < s.len() {
        Some((s.take(p), s.skip(p + 2)))
    } else {
        None
    }
}

/// The index at which the first carriage return directly followed by a line
/// feed starts, or the length.
pub fn find_crlf(chars: &Vec<char>) -> (p: usize)
    ensures
        p == crlf_position(chars@),
        p <= chars.len(),
        p < chars.len() ==> p + 2 <= chars.len(),
{
    let n = chars.len();
    let mut i: usize = 0;
    while i < n
        invariant
            i <= n == chars.len(),
            forall|j: int| 0 <= j < i ==> !crlf_at(chars@, j),
        decreases n - i,
    {
        if i + 1 < n && chars[i] == '\r' && chars[i + 1] == '\n' {
            proof {
                lemma_crlf_position_is(chars@, i as int);
            }
            return i;
        }
        i += 1;
    }
    proof {
        lemma_crlf_position_is(chars@, n as int);
    }
    n
}

/// `s` with every tab replaced by a space.
pub open spec fn untabbed(s: Seq<char>) -> Seq<char> {
    Seq::new(s.len(), |i: int| if s[i] == '\t' { ' ' } else { s[i] })
}

/// `chars` with every tab replaced by a space.
pub fn untab(chars: &Vec<char>) -> (out: Vec<char>)
    ensures
        out@ == untabbed(chars@),
{
    let mut out: Vec<char> = Vec::new();
    let mut i: usize = 0;
    while i < chars.len()
        invariant
            i <= chars.len(),
            out@ == untabbed(chars@).take(i as int),
        decreases chars.len() - i,
    {
        let c = chars[i];
        out.push(if c == '\t' { ' ' } else { c });
        i += 1;
    }
    out
}

/// `s` without one trailing carriage return.
pub open spec fn strip_cr(s: Seq<char>) -> Seq<char> {
    if s.len() > 0 && s.last() == '\r' {
        s.drop_last()
    } else {
        s
    }
}

/// The lines of `s`. A line ends at a line feed, or at a carriage return
/// directly followed by one; the terminator is not part of the line. A final
/// line without a terminator is a line too, whereas a terminator at the very
/// end starts no further line.
pub open spec fn lines(s: Seq<char>) -> Seq<Seq<char>>
    decreases s.len(),
{
    let p = position(s, '\n');
    if s.len() == 0 {
        Seq::empty()
    } else if 0 <= p < s.len() {
        seq![strip_cr(s.take(p))] + lines(s.skip(p + 1))
    } else {
        seq![s]
    }
}

/// The texts held by a vector of character vectors.
pub open spec fn views(v: Seq<Vec<char>>) -> Seq<Seq<char>> {
    Seq::new(v.len(), |i: int| v[i]@)
}

/// Splits `chars` into its lines.
pub fn split_lines(chars: &Vec<char>) -> (out: Vec<Vec<char>>)
    ensures
        views(out@) == lines(chars@),
{
    let n = chars.len();
    let mut out: Vec<Vec<char>> = Vec::new();
    let mut start: usize = 0;
    assert(chars@.skip(0) == chars@);
    while start < n
        invariant
            start <= n == chars.len(),
            views(out@) + lines(chars@.skip(start as int)) == lines(chars@),
        decreases n - start,
    {
        let ghost rest = chars@.skip(start as int);
        let end = find_from(chars, start, '\n');
        if end == n {
            out.push(slice(chars, start, n));
            start = n;
        } else {
            let stop = if end > start && chars[end - 1] == '\r' {
                end - 1
            } else {
                end
            };
            out.push(slice(chars, start, stop));
            assert(rest.take(end - start) == chars@.subrange(start as int, end as int));
            assert(rest.skip(end - start + 1) == chars@.skip(end + 1));
            if end > start {
                assert(chars@.subrange(start as int, end as int).drop_last() == chars@.subrange(
                    start as int,
                    end - 1,
                ));
            }
            start = end + 1;
        }
    }
    out
}

} // verus!
