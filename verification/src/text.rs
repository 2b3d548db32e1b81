//! Character classes and the string operations the routing rules are stated over.
//!
//! Every operation is specified on `Seq<char>`, the view of a string, and
//! implemented on a `Vec<char>` copy of it, so that positions are character
//! positions throughout.

use vstd::prelude::*;

verus! {

/// Control codes: the code points of the general category `Cc`.
pub open spec fn is_control(c: char) -> bool {
    c as u32 <= 0x1f || (0x7f <= c as u32 && c as u32 <= 0x9f)
}

/// White space: the code points that carry the `White_Space` property.
pub open spec fn is_whitespace(c: char) -> bool {
    let n = c as u32;
    ||| (0x09 <= n && n <= 0x0d)
    ||| n == 0x20
    ||| n == 0x85
    ||| n == 0xa0
    ||| n == 0x1680
    ||| (0x2000 <= n && n <= 0x200a)
    ||| n == 0x2028
    ||| n == 0x2029
    ||| n == 0x202f
    ||| n == 0x205f
    ||| n == 0x3000
}

/// The ASCII digits `0` to `9`.
pub open spec fn is_ascii_digit(c: char) -> bool {
    0x30 <= c as u32 && c as u32 <= 0x39
}

/// The ASCII letters of either case.
pub open spec fn is_ascii_alphabetic(c: char) -> bool {
    let n = c as u32;
    (0x41 <= n && n <= 0x5a) || (0x61 <= n && n <= 0x7a)
}

/// The visible ASCII characters, `!` to `~`.
pub open spec fn is_ascii_graphic(c: char) -> bool {
    0x21 <= c as u32 && c as u32 <= 0x7e
}

/// Whether `c` is a control code.
pub fn char_is_control(c: char) -> (b: bool)
    ensures
        b == is_control(c),
{
    let n: u32 = c as u32;
    n <= 0x1f || (0x7f <= n && n <= 0x9f)
}

/// Whether `c` is white space.
pub fn char_is_whitespace(c: char) -> (b: bool)
    ensures
        b == is_whitespace(c),
{
    let n: u32 = c as u32;
    (0x09 <= n && n <= 0x0d) || n == 0x20 || n == 0x85 || n == 0xa0 || n == 0x1680 || (0x2000 <= n
        && n <= 0x200a) || n == 0x2028 || n == 0x2029 || n == 0x202f || n == 0x205f || n == 0x3000
}

/// Whether `c` is an ASCII digit.
pub fn char_is_ascii_digit(c: char) -> (b: bool)
    ensures
        b == is_ascii_digit(c),
{
    let n: u32 = c as u32;
    0x30 <= n && n <= 0x39
}

/// Whether `c` is an ASCII letter.
pub fn char_is_ascii_alphabetic(c: char) -> (b: bool)
    ensures
        b == is_ascii_alphabetic(c),
{
    let n: u32 = c as u32;
    (0x41 <= n && n <= 0x5a) || (0x61 <= n && n <= 0x7a)
}

/// Whether `c` is a visible ASCII character.
pub fn char_is_ascii_graphic(c: char) -> (b: bool)
    ensures
        b == is_ascii_graphic(c),
{
    let n: u32 = c as u32;
    0x21 <= n && n <= 0x7e
}

/// `String::push` appends one character to the end of the string.
pub assume_specification[ String::push ](s: &mut String, c: char)
    ensures
        final(s)@ == old(s)@.push(c),
;

/// The characters of `s`, in order.
pub fn chars_of(s: &str) -> (v: Vec<char>)
    ensures
        v@ == s@,
{
    let mut v: Vec<char> = Vec::new();
    for c in it: s.chars()
        invariant
            it.seq() == s@,
            v@ == s@.take(it.index() as int),
    {
        v.push(c);
    }
    v
}

/// The string made of the characters `v[from..to]`.
pub fn string_of_range(v: &Vec<char>, from: usize, to: usize) -> (s: String)
    requires
        from <= to <= v.len(),
    ensures
        s@ == v@.subrange(from as int, to as int),
{
    let mut s = String::new();
    let mut i: usize = from;
    while i < to
        invariant
            from <= i <= to <= v.len(),
            s@ == v@.subrange(from as int, i as int),
        decreases to - i,
    {
        s.push(v[i]);
        i += 1;
    }
    s
}

/// The string made of the characters of `v`.
pub fn string_of(v: &Vec<char>) -> (s: String)
    ensures
        s@ == v@,
{
    string_of_range(v, 0, v.len())
}

/// `s` without its leading white space.
pub open spec fn trim_start(s: Seq<char>) -> Seq<char>
    decreases s.len(),
{
    if s.len() > 0 && is_whitespace(s[0]) {
        trim_start(s.drop_first())
    } else {
        s
    }
}

/// `s` without its trailing white space.
pub open spec fn trim_end(s: Seq<char>) -> Seq<char>
    decreases s.len(),
{
    if s.len() > 0 && is_whitespace(s.last()) {
        trim_end(s.drop_last())
    } else {
        s
    }
}

/// `s` without leading and trailing white space.
pub open spec fn trim(s: Seq<char>) -> Seq<char> {
    trim_end(trim_start(s))
}

/// Where `v[from..to]` begins once its leading white space is skipped.
pub fn trim_start_at(v: &Vec<char>, from: usize, to: usize) -> (a: usize)
    requires
        from <= to <= v.len(),
    ensures
        from <= a <= to,
        v@.subrange(a as int, to as int) == trim_start(v@.subrange(from as int, to as int)),
{
    let mut a: usize = from;
    while a < to && char_is_whitespace(v[a])
        invariant
            from <= a <= to <= v.len(),
            trim_start(v@.subrange(a as int, to as int)) == trim_start(
                v@.subrange(from as int, to as int),
            ),
        decreases to - a,
    {
        assert(v@.subrange(a as int, to as int).drop_first() =~= v@.subrange(a + 1, to as int));
        a += 1;
    }
    a
}

/// Where `v[from..to]` ends once its trailing white space is dropped.
pub fn trim_end_at(v: &Vec<char>, from: usize, to: usize) -> (b: usize)
    requires
        from <= to <= v.len(),
    ensures
        from <= b <= to,
        v@.subrange(from as int, b as int) == trim_end(v@.subrange(from as int, to as int)),
{
    let mut b: usize = to;
    while from < b && char_is_whitespace(v[b - 1])
        invariant
            from <= b <= to <= v.len(),
            trim_end(v@.subrange(from as int, b as int)) == trim_end(
                v@.subrange(from as int, to as int),
            ),
        decreases b - from,
    {
        assert(v@.subrange(from as int, b as int).drop_last() =~= v@.subrange(
            from as int,
            b - 1,
        ));
        b -= 1;
    }
    b
}

/// The bounds of `v[from..to]` trimmed on both sides.
pub fn trim_at(v: &Vec<char>, from: usize, to: usize) -> (r: (usize, usize))
    requires
        from <= to <= v.len(),
    ensures
        from <= r.0 <= r.1 <= to,
        v@.subrange(r.0 as int, r.1 as int) == trim(v@.subrange(from as int, to as int)),
{
    let a = trim_start_at(v, from, to);
    let b = trim_end_at(v, a, to);
    (a, b)
}

/// `s` trimmed on both sides, as a string of its own.
pub fn trimmed(s: &str) -> (r: String)
    ensures
        r@ == trim(s@),
{
    let v = chars_of(s);
    let (a, b) = trim_at(&v, 0, v.len());
    assert(v@.subrange(0, v.len() as int) =~= v@);
    string_of_range(&v, a, b)
}

/// The position of the first `c` in `s` at or after `from`.
pub open spec fn index_from(s: Seq<char>, c: char, from: int) -> Option<int>
    decreases s.len() - from,
{
    if from < 0 || from >= s.len() {
        None
    } else if s[from] == c {
        Some(from)
    } else {
        index_from(s, c, from + 1)
    }
}

/// The position of the last `c` in `s` before `to`.
pub open spec fn rindex_before(s: Seq<char>, c: char, to: int) -> Option<int>
    decreases to,
{
    if to <= 0 || to > s.len() {
        None
    } else if s[to - 1] == c {
        Some(to - 1)
    } else {
        rindex_before(s, c, to - 1)
    }
}

/// What `index_from` finds is the first `c` at or after `from`, and it finds
/// nothing only where there is none.
pub proof fn lemma_index_from(s: Seq<char>, c: char, from: int)
    requires
        0 <= from,
    ensures
        match index_from(s, c, from) {
            Some(i) => from <= i < s.len() && s[i] == c && forall|j: int|
                from <= j < i ==> s[j] != c,
            None => forall|j: int| from <= j < s.len() ==> s[j] != c,
        },
    decreases s.len() - from,
{
    if from < s.len() && s[from] != c {
        lemma_index_from(s, c, from + 1);
    }
}

/// The first `c` in `v[from..to]`.
pub fn find_char(v: &Vec<char>, c: char, from: usize, to: usize) -> (r: Option<usize>)
    requires
        from <= to <= v.len(),
    ensures
        match r {
            Some(i) => index_from(v@.take(to as int), c, from as int) == Some(i as int) && from
                <= i < to,
            None => index_from(v@.take(to as int), c, from as int) is None,
        },
{
    let mut i: usize = from;
    while i < to
        invariant
            from <= i <= to <= v.len(),
            index_from(v@.take(to as int), c, i as int) == index_from(
                v@.take(to as int),
                c,
                from as int,
            ),
        decreases to - i,
    {
        if v[i] == c {
            return Some(i);
        }
        i += 1;
    }
    None
}

/// The last `c` in `v[..to]`.
pub fn rfind_char(v: &Vec<char>, c: char, to: usize) -> (r: Option<usize>)
    requires
        to <= v.len(),
    ensures
        match r {
            Some(i) => rindex_before(v@, c, to as int) == Some(i as int) && i < to,
            None => rindex_before(v@, c, to as int) is None,
        },
{
    let mut i: usize = to;
    while i > 0
        invariant
            i <= to <= v.len(),
            rindex_before(v@, c, i as int) == rindex_before(v@, c, to as int),
        decreases i,
    {
        if v[i - 1] == c {
            return Some(i - 1);
        }
        i -= 1;
    }
    None
}

/// Whether `needle` stands in `hay` at position `i`.
pub open spec fn occurs_at(hay: Seq<char>, needle: Seq<char>, i: int) -> bool {
    0 <= i && i + needle.len() <= hay.len() && hay.subrange(i, i + needle.len()) == needle
}

/// Whether `needle` is a substring of `hay`.
pub open spec fn contains(hay: Seq<char>, needle: Seq<char>) -> bool {
    exists|i: int| occurs_at(hay, needle, i)
}

/// Whether `hay` begins with `needle`.
pub open spec fn starts_with(hay: Seq<char>, needle: Seq<char>) -> bool {
    occurs_at(hay, needle, 0)
}

/// The first position at or after `from` where `needle` stands in `hay`.
pub open spec fn find_from(hay: Seq<char>, needle: Seq<char>, from: int) -> Option<int>
    decreases hay.len() + 1 - from,
{
    if from < 0 || from + needle.len() > hay.len() {
        None
    } else if occurs_at(hay, needle, from) {
        Some(from)
    } else {
        find_from(hay, needle, from + 1)
    }
}

/// The first position where `needle` stands in `hay`.
pub open spec fn find(hay: Seq<char>, needle: Seq<char>) -> Option<int> {
    find_from(hay, needle, 0)
}

/// What `find_from` finds is the first occurrence at or after `from`, and it
/// finds nothing only where there is none.
pub proof fn lemma_find_from(hay: Seq<char>, needle: Seq<char>, from: int)
    requires
        0 <= from,
    ensures
        match find_from(hay, needle, from) {
            Some(i) => from <= i && occurs_at(hay, needle, i) && forall|j: int|
                from <= j < i ==> !occurs_at(hay, needle, j),
            None => forall|j: int| from <= j ==> !occurs_at(hay, needle, j),
        },
    decreases hay.len() + 1 - from,
{
    if from + needle.len() <= hay.len() && !occurs_at(hay, needle, from) {
        lemma_find_from(hay, needle, from + 1);
    }
}

/// A substring is one that `find` finds.
pub proof fn lemma_contains_is_found(hay: Seq<char>, needle: Seq<char>)
    ensures
        contains(hay, needle) <==> find(hay, needle) is Some,
{
    lemma_find_from(hay, needle, 0);
}

/// Whether `needle` stands in `hay` at position `i`.
pub fn matches_at(hay: &Vec<char>, needle: &Vec<char>, i: usize) -> (b: bool)
    ensures
        b == occurs_at(hay@, needle@, i as int),
{
    let n = needle.len();
    if n > hay.len() || i > hay.len() - n {
        return false;
    }
    let mut k: usize = 0;
    while k < n
        invariant
            n == needle.len(),
            i + n <= hay.len(),
            k <= n,
            forall|j: int| 0 <= j < k ==> hay@[i + j] == needle@[j],
        decreases n - k,
    {
        if hay[i + k] != needle[k] {
            assert(hay@.subrange(i as int, i + n)[k as int] != needle@[k as int]);
            return false;
        }
        k += 1;
    }
    assert(hay@.subrange(i as int, i + n) =~= needle@);
    true
}

/// The first position at or after `from` where `needle` stands in `hay`.
pub fn find_in(hay: &Vec<char>, needle: &Vec<char>, from: usize) -> (r: Option<usize>)
    ensures
        match r {
            Some(i) => find_from(hay@, needle@, from as int) == Some(i as int) && from <= i
                && i + needle.len() <= hay.len(),
            None => find_from(hay@, needle@, from as int) is None,
        },
{
    let n = needle.len();
    if n > hay.len() {
        return None;
    }
    let last = hay.len() - n;
    let mut i: usize = from;
    while i <= last
        invariant
            n == needle.len(),
            last + n == hay.len(),
            from <= i,
            find_from(hay@, needle@, i as int) == find_from(hay@, needle@, from as int),
        decreases last + 1 - i,
    {
        if matches_at(hay, needle, i) {
            return Some(i);
        }
        if i == last {
            assert(find_from(hay@, needle@, i + 1) is None);
            return None;
        }
        i += 1;
    }
    None
}

/// Whether `needle` is a substring of `hay`.
pub fn contains_in(hay: &Vec<char>, needle: &Vec<char>) -> (b: bool)
    ensures
        b == contains(hay@, needle@),
{
    proof {
        lemma_contains_is_found(hay@, needle@);
    }
    find_in(hay, needle, 0).is_some()
}

/// The lower-case form of a string, as `str::to_lowercase` computes it.
pub uninterp spec fn lowercase(s: Seq<char>) -> Seq<char>;

/// `str::to_lowercase` returns the lower-case equivalent of the string, which
/// depends on its characters alone.
pub assume_specification[ str::to_lowercase ](s: &str) -> (r: String)
    ensures
        r@ == lowercase(s@),
;

/// A copy of the characters `v[from..to]`.
pub fn copy_range(v: &Vec<char>, from: usize, to: usize) -> (r: Vec<char>)
    requires
        from <= to <= v.len(),
    ensures
        r@ == v@.subrange(from as int, to as int),
{
    let mut r: Vec<char> = Vec::new();
    let mut i: usize = from;
    while i < to
        invariant
            from <= i <= to <= v.len(),
            r@ == v@.subrange(from as int, i as int),
        decreases to - i,
    {
        r.push(v[i]);
        i += 1;
    }
    r
}

/// Appends the characters of `tail` to `v`.
pub fn extend_chars(v: &mut Vec<char>, tail: &Vec<char>)
    ensures
        final(v)@ == old(v)@ + tail@,
{
    let mut i: usize = 0;
    while i < tail.len()
        invariant
            i <= tail.len(),
            v@ == old(v)@ + tail@.take(i as int),
        decreases tail.len() - i,
    {
        v.push(tail[i]);
        i += 1;
    }
    assert(tail@.take(tail.len() as int) =~= tail@);
}

/// A line as it stood before its terminator: a carriage return that ended it
/// belongs to the terminator.
pub open spec fn strip_cr(s: Seq<char>) -> Seq<char> {
    if s.len() > 0 && s.last() == '\r' {
        s.drop_last()
    } else {
        s
    }
}

/// The lines of `s` from position `from` on. A line ends with a newline, or
/// with a carriage return and a newline; the last line may lack a terminator.
pub open spec fn lines_from(s: Seq<char>, from: int) -> Seq<Seq<char>>
    decreases s.len() - from,
    via lines_from_decreases
{
    if from < 0 || from >= s.len() {
        Seq::empty()
    } else {
        match index_from(s, '\n', from) {
            None => seq![s.skip(from)],
            Some(i) => seq![strip_cr(s.subrange(from, i))] + lines_from(s, i + 1),
        }
    }
}

#[via_fn]
proof fn lines_from_decreases(s: Seq<char>, from: int) {
    if 0 <= from {
        lemma_index_from(s, '\n', from);
    }
}

/// The lines of `s`.
pub open spec fn lines(s: Seq<char>) -> Seq<Seq<char>> {
    lines_from(s, 0)
}

/// The strings that a list of ranges cuts out of `s`.
pub open spec fn cut(s: Seq<char>, ranges: Seq<(usize, usize)>) -> Seq<Seq<char>> {
    Seq::new(ranges.len(), |i: int| s.subrange(ranges[i].0 as int, ranges[i].1 as int))
}

/// Whether each range of a list lies within a string of length `len`.
pub open spec fn ranges_within(ranges: Seq<(usize, usize)>, len: int) -> bool {
    forall|i: int| 0 <= i < ranges.len() ==> (#[trigger] ranges[i]).0 <= ranges[i].1 <= len
}

/// The lines of `v`, each as the range that it fills in `v`.
pub fn line_ranges(v: &Vec<char>) -> (r: Vec<(usize, usize)>)
    ensures
        ranges_within(r@, v.len() as int),
        cut(v@, r@) == lines(v@),
{
    let n = v.len();
    let mut r: Vec<(usize, usize)> = Vec::new();
    let mut k: usize = 0;
    assert(cut(v@, r@) + lines_from(v@, 0) =~= lines(v@));
    while k < n
        invariant
            n == v.len(),
            k <= n,
            ranges_within(r@, n as int),
            cut(v@, r@) + lines_from(v@, k as int) == lines(v@),
        decreases n - k,
    {
        assert(v@.take(n as int) =~= v@);
        let ghost before = r@;
        match find_char(v, '\n', k, n) {
            None => {
                r.push((k, n));
                assert(cut(v@, r@) =~= cut(v@, before) + seq![v@.skip(k as int)]);
                assert(lines_from(v@, n as int) =~= Seq::<Seq<char>>::empty());
                assert(cut(v@, r@) + lines_from(v@, n as int) =~= cut(v@, r@));
                k = n;
            },
            Some(i) => {
                let end = if i > k && v[i - 1] == '\r' {
                    i - 1
                } else {
                    i
                };
                assert(v@.subrange(k as int, end as int) =~= strip_cr(
                    v@.subrange(k as int, i as int),
                ));
                r.push((k, end));
                assert(cut(v@, r@) =~= cut(v@, before) + seq![
                    strip_cr(v@.subrange(k as int, i as int)),
                ]);
                assert(cut(v@, r@) + lines_from(v@, i + 1) =~= cut(v@, before) + (seq![
                    strip_cr(v@.subrange(k as int, i as int)),
                ] + lines_from(v@, i + 1)));
                k = i + 1;
            },
        }
    }
    assert(cut(v@, r@) + lines_from(v@, k as int) =~= cut(v@, r@));
    r
}

/// `parts` written one after the other with `sep` between them.
pub open spec fn join(parts: Seq<Seq<char>>, sep: Seq<char>) -> Seq<char>
    decreases parts.len(),
{
    if parts.len() == 0 {
        Seq::empty()
    } else if parts.len() == 1 {
        parts[0]
    } else {
        join(parts.drop_last(), sep) + sep + parts.last()
    }
}

/// The first position at or after `from` that holds no white space.
pub open spec fn word_start(s: Seq<char>, from: int) -> int
    decreases s.len() - from,
{
    if from < 0 || from >= s.len() || !is_whitespace(s[from]) {
        from
    } else {
        word_start(s, from + 1)
    }
}

/// The first position at or after `from` that holds white space.
pub open spec fn word_end(s: Seq<char>, from: int) -> int
    decreases s.len() - from,
{
    if from < 0 || from >= s.len() || is_whitespace(s[from]) {
        from
    } else {
        word_end(s, from + 1)
    }
}

/// A word starts no earlier than where it is looked for and within the string.
pub proof fn lemma_word_start(s: Seq<char>, from: int)
    requires
        0 <= from <= s.len(),
    ensures
        from <= word_start(s, from) <= s.len(),
        word_start(s, from) < s.len() ==> !is_whitespace(s[word_start(s, from)]),
    decreases s.len() - from,
{
    if from < s.len() && is_whitespace(s[from]) {
        lemma_word_start(s, from + 1);
    }
}

/// A word that starts at a character that is no white space is not empty.
pub proof fn lemma_word_end(s: Seq<char>, from: int)
    requires
        0 <= from <= s.len(),
    ensures
        from <= word_end(s, from) <= s.len(),
        from < s.len() && !is_whitespace(s[from]) ==> from < word_end(s, from),
    decreases s.len() - from,
{
    if from < s.len() && !is_whitespace(s[from]) {
        lemma_word_end(s, from + 1);
    }
}

/// The words of `s` from position `from` on: its maximal runs of characters
/// that are no white space.
pub open spec fn words_from(s: Seq<char>, from: int) -> Seq<Seq<char>>
    decreases s.len() - from,
    via words_from_decreases
{
    if from < 0 || word_start(s, from) >= s.len() {
        Seq::empty()
    } else {
        let a = word_start(s, from);
        let b = word_end(s, a);
        seq![s.subrange(a, b)] + words_from(s, b)
    }
}

#[via_fn]
proof fn words_from_decreases(s: Seq<char>, from: int) {
    if 0 <= from <= s.len() {
        lemma_word_start(s, from);
        lemma_word_end(s, word_start(s, from));
    }
}

/// The words of `s`.
pub open spec fn words(s: Seq<char>) -> Seq<Seq<char>> {
    words_from(s, 0)
}

/// The words of `s` with one space between them.
pub open spec fn squeeze(s: Seq<char>) -> Seq<char> {
    join(words(s), seq![' '])
}

/// The words of `v` with one space between them.
pub fn squeezed(v: &Vec<char>) -> (out: Vec<char>)
    ensures
        out@ == squeeze(v@),
{
    let n = v.len();
    let mut out: Vec<char> = Vec::new();
    let mut k: usize = 0;
    let ghost mut done: Seq<Seq<char>> = Seq::empty();
    assert(done + words_from(v@, 0) =~= words(v@));
    loop
        invariant
            n == v.len(),
            k <= n,
            done + words_from(v@, k as int) == words(v@),
            out@ == join(done, seq![' ']),
            (done.len() == 0) == (out@.len() == 0),
        decreases n - k,
    {
        let mut a: usize = k;
        while a < n && char_is_whitespace(v[a])
            invariant
                k <= a <= n,
                n == v.len(),
                word_start(v@, a as int) == word_start(v@, k as int),
            decreases n - a,
        {
            a += 1;
        }
        if a >= n {
            assert(done + words_from(v@, k as int) =~= done);
            return out;
        }
        let mut b: usize = a;
        while b < n && !char_is_whitespace(v[b])
            invariant
                a <= b <= n,
                n == v.len(),
                word_end(v@, b as int) == word_end(v@, a as int),
            decreases n - b,
        {
            b += 1;
        }
        proof {
            lemma_word_end(v@, a as int);
        }
        let ghost word = v@.subrange(a as int, b as int);
        let ghost before = out@;
        if out.len() > 0 {
            out.push(' ');
        }
        let mut i: usize = a;
        assert(out@ =~= (if done.len() == 0 {
            before
        } else {
            before + seq![' ']
        }) + v@.subrange(a as int, a as int));
        while i < b
            invariant
                a <= i <= b <= n,
                n == v.len(),
                out@ == (if done.len() == 0 {
                    before
                } else {
                    before + seq![' ']
                }) + v@.subrange(a as int, i as int),
            decreases b - i,
        {
            out.push(v[i]);
            i += 1;
        }
        proof {
            let next = done.push(word);
            assert(next.drop_last() =~= done);
            assert(next + words_from(v@, b as int) =~= done + (seq![word] + words_from(
                v@,
                b as int,
            )));
            if done.len() == 0 {
                assert(out@ =~= word);
            } else {
                assert(out@ =~= join(done, seq![' ']) + seq![' '] + word);
            }
            done = next;
        }
        k = b;
    }
}

/// `v` trimmed on both sides, as a list of its own.
pub fn trim_vec(v: &Vec<char>) -> (r: Vec<char>)
    ensures
        r@ == trim(v@),
{
    let (a, b) = trim_at(v, 0, v.len());
    assert(v@.subrange(0, v.len() as int) =~= v@);
    copy_range(v, a, b)
}

/// The lower-case form of `v`.
pub fn lowercase_vec(v: &Vec<char>) -> (r: Vec<char>)
    ensures
        r@ == lowercase(v@),
{
    let s = string_of(v);
    let lower = s.as_str().to_lowercase();
    chars_of(lower.as_str())
}

/// `s` without the copies of `pat` that it begins with.
pub open spec fn trim_start_matches(s: Seq<char>, pat: Seq<char>) -> Seq<char>
    decreases s.len(),
{
    if pat.len() > 0 && starts_with(s, pat) {
        trim_start_matches(s.skip(pat.len() as int), pat)
    } else {
        s
    }
}

/// `v` without the copies of `pat` that it begins with.
pub fn trim_start_matches_vec(v: &Vec<char>, pat: &Vec<char>) -> (r: Vec<char>)
    ensures
        r@ == trim_start_matches(v@, pat@),
{
    let n = v.len();
    let m = pat.len();
    let mut k: usize = 0;
    assert(v@.skip(0) =~= v@);
    while m > 0 && matches_at(v, pat, k)
        invariant
            m == pat.len(),
            n == v.len(),
            k <= n,
            trim_start_matches(v@.skip(k as int), pat@) == trim_start_matches(v@, pat@),
        decreases n - k,
    {
        assert(v@.skip(k as int).subrange(0, m as int) =~= v@.subrange(k as int, k + m));
        assert(v@.skip(k as int).skip(m as int) =~= v@.skip(k + m));
        k += m;
    }
    proof {
        if m > 0 {
            assert(v@.skip(k as int).len() == n - k);
            if k + m <= n {
                assert(v@.skip(k as int).subrange(0, m as int) =~= v@.subrange(
                    k as int,
                    k + m,
                ));
            }
        }
        assert(v@.skip(k as int) =~= v@.subrange(k as int, n as int));
    }
    copy_range(v, k, n)
}

/// `s` without the copies of `c` that it begins with.
pub open spec fn trim_char_start(s: Seq<char>, c: char) -> Seq<char>
    decreases s.len(),
{
    if s.len() > 0 && s[0] == c {
        trim_char_start(s.drop_first(), c)
    } else {
        s
    }
}

/// `s` without the copies of `c` that it ends with.
pub open spec fn trim_char_end(s: Seq<char>, c: char) -> Seq<char>
    decreases s.len(),
{
    if s.len() > 0 && s.last() == c {
        trim_char_end(s.drop_last(), c)
    } else {
        s
    }
}

/// `s` without the copies of `c` at either end.
pub open spec fn trim_char(s: Seq<char>, c: char) -> Seq<char> {
    trim_char_end(trim_char_start(s, c), c)
}

/// `v` without the copies of `c` at either end.
pub fn trim_char_vec(v: &Vec<char>, c: char) -> (r: Vec<char>)
    ensures
        r@ == trim_char(v@, c),
{
    let n = v.len();
    let mut a: usize = 0;
    assert(v@.subrange(0, n as int) =~= v@);
    while a < n && v[a] == c
        invariant
            a <= n,
            n == v.len(),
            trim_char_start(v@.subrange(a as int, n as int), c) == trim_char_start(v@, c),
        decreases n - a,
    {
        assert(v@.subrange(a as int, n as int).drop_first() =~= v@.subrange(a + 1, n as int));
        a += 1;
    }
    let mut b: usize = n;
    while a < b && v[b - 1] == c
        invariant
            a <= b <= n,
            n == v.len(),
            trim_char_end(v@.subrange(a as int, b as int), c) == trim_char_end(
                v@.subrange(a as int, n as int),
                c,
            ),
        decreases b - a,
    {
        assert(v@.subrange(a as int, b as int).drop_last() =~= v@.subrange(a as int, b - 1));
        b -= 1;
    }
    copy_range(v, a, b)
}

/// `s` from position `from` on, without the copies of `pat` that are found
/// one after the other from the left.
pub open spec fn remove_from(s: Seq<char>, pat: Seq<char>, from: int) -> Seq<char>
    decreases s.len() - from,
    via remove_from_decreases
{
    if from < 0 || from > s.len() {
        Seq::empty()
    } else if pat.len() == 0 {
        s.skip(from)
    } else {
        match find_from(s, pat, from) {
            None => s.skip(from),
            Some(i) => s.subrange(from, i) + remove_from(s, pat, i + pat.len()),
        }
    }
}

#[via_fn]
proof fn remove_from_decreases(s: Seq<char>, pat: Seq<char>, from: int) {
    if 0 <= from {
        lemma_find_from(s, pat, from);
    }
}

/// `s` without the copies of `pat` that are found one after the other from
/// the left.
pub open spec fn remove_all(s: Seq<char>, pat: Seq<char>) -> Seq<char> {
    remove_from(s, pat, 0)
}

/// `v` without the copies of `pat` that are found one after the other from
/// the left.
pub fn remove_all_vec(v: &Vec<char>, pat: &Vec<char>) -> (r: Vec<char>)
    ensures
        r@ == remove_all(v@, pat@),
{
    let n = v.len();
    let m = pat.len();
    if m == 0 {
        assert(v@.skip(0) =~= v@.subrange(0, n as int));
        return copy_range(v, 0, n);
    }
    let mut out: Vec<char> = Vec::new();
    let mut k: usize = 0;
    assert(out@ + remove_from(v@, pat@, 0) =~= remove_all(v@, pat@));
    loop
        invariant
            n == v.len(),
            m == pat.len(),
            m > 0,
            k <= n,
            out@ + remove_from(v@, pat@, k as int) == remove_all(v@, pat@),
        decreases n - k,
    {
        proof {
            lemma_find_from(v@, pat@, k as int);
        }
        match find_in(v, pat, k) {
            None => {
                let tail = copy_range(v, k, n);
                assert(v@.skip(k as int) =~= v@.subrange(k as int, n as int));
                extend_chars(&mut out, &tail);
                return out;
            },
            Some(i) => {
                let piece = copy_range(v, k, i);
                let ghost before = out@;
                extend_chars(&mut out, &piece);
                assert(out@ + remove_from(v@, pat@, i + m) =~= before + (v@.subrange(
                    k as int,
                    i as int,
                ) + remove_from(v@, pat@, i + m)));
                k = i + m;
            },
        }
    }
}

/// Whether two lists hold the same characters.
pub fn chars_eq(x: &Vec<char>, y: &Vec<char>) -> (r: bool)
    ensures
        r == (x@ == y@),
{
    if x.len() != y.len() {
        return false;
    }
    let mut i: usize = 0;
    while i < x.len()
        invariant
            x.len() == y.len(),
            i <= x.len(),
            forall|j: int| 0 <= j < i ==> x@[j] == y@[j],
        decreases x.len() - i,
    {
        if x[i] != y[i] {
            return false;
        }
        i += 1;
    }
    assert(x@ =~= y@);
    true
}

/// A string that is not empty has a first line.
pub proof fn lemma_lines_nonempty(s: Seq<char>)
    requires
        s.len() > 0,
    ensures
        lines(s).len() >= 1,
{
    lemma_index_from(s, '\n', 0);
}

/// The character that stands for a decimal digit.
pub open spec fn digit_char(d: int) -> char {
    (0x30 + d) as char
}

/// A natural number in decimal, without leading zeros.
pub open spec fn decimal_nat(n: nat) -> Seq<char>
    decreases n,
{
    if n < 10 {
        seq![digit_char(n as int)]
    } else {
        decimal_nat(n / 10).push(digit_char((n % 10) as int))
    }
}

/// An integer in decimal, with a minus sign where it is negative.
pub open spec fn decimal(n: int) -> Seq<char> {
    if n < 0 {
        seq!['-'] + decimal_nat((-n) as nat)
    } else {
        decimal_nat(n as nat)
    }
}

/// The character that stands for the digit `d`.
fn digit_of(d: u64) -> (c: char)
    requires
        d < 10,
    ensures
        c == digit_char(d as int),
{
    let b: u8 = 0x30 + d as u8;
    b as char
}

/// Appends `n` in decimal to `out`.
pub fn push_decimal(out: &mut Vec<char>, n: i64)
    ensures
        final(out)@ == old(out)@ + decimal(n as int),
{
    let mag: u64 = if n < 0 {
        out.push('-');
        ((-(n + 1)) as u64) + 1
    } else {
        n as u64
    };
    let ghost head = out@;
    assert(head + decimal_nat(mag as nat) =~= old(out)@ + decimal(n as int));
    let mut low: Vec<char> = Vec::new();
    let mut m: u64 = mag;
    while m >= 10
        invariant
            decimal_nat(mag as nat) == decimal_nat(m as nat) + low@.reverse(),
        decreases m,
    {
        let ghost before = low@;
        low.push(digit_of(m % 10));
        assert(low@.reverse() =~= seq![digit_char((m % 10) as int)] + before.reverse());
        assert(decimal_nat(m as nat) + before.reverse() =~= decimal_nat((m / 10) as nat)
            + low@.reverse());
        m = m / 10;
    }
    out.push(digit_of(m));
    let mut i: usize = low.len();
    while i > 0
        invariant
            i <= low.len(),
            out@ == head + seq![digit_char(m as int)] + low@.reverse().take(low.len() - i),
        decreases i,
    {
        i -= 1;
        out.push(low[i]);
        assert(low@.reverse().take(low.len() - i) =~= low@.reverse().take(low.len() - i - 1).push(
            low@[i as int],
        ));
    }
    assert(low@.reverse().take(low.len() as int) =~= low@.reverse());
    assert(out@ =~= head + (decimal_nat(m as nat) + low@.reverse()));
}

/// The number that a run of decimal digits stands for.
pub open spec fn digits_value(s: Seq<char>) -> nat
    decreases s.len(),
{
    if s.len() == 0 {
        0
    } else {
        digits_value(s.drop_last()) * 10 + ((s.last() as u32 - 0x30) as nat)
    }
}

/// Whether `s` holds ASCII digits only.
pub open spec fn all_digits(s: Seq<char>) -> bool {
    forall|i: int| 0 <= i < s.len() ==> is_ascii_digit(#[trigger] s[i])
}

/// The 64-bit integer that `s` is the decimal form of: an optional sign, then
/// one digit or more, and a value within range.
pub open spec fn parse_i64_spec(s: Seq<char>) -> Option<i64> {
    let signed = s.len() > 0 && (s[0] == '-' || s[0] == '+');
    let digits = if signed {
        s.skip(1)
    } else {
        s
    };
    let value = if signed && s[0] == '-' {
        -(digits_value(digits) as int)
    } else {
        digits_value(digits) as int
    };
    if digits.len() == 0 || !all_digits(digits) || value < i64::MIN || value > i64::MAX {
        None
    } else {
        Some(value as i64)
    }
}

/// A longer run of digits stands for no smaller a number than its beginning.
pub proof fn lemma_digits_value_grows(s: Seq<char>, k: int)
    requires
        0 <= k <= s.len(),
        all_digits(s),
    ensures
        digits_value(s.take(k)) <= digits_value(s),
    decreases s.len() - k,
{
    if k < s.len() {
        assert(s.take(k + 1).drop_last() =~= s.take(k));
        assert(is_ascii_digit(s[k]));
        lemma_digits_value_grows(s, k + 1);
    } else {
        assert(s.take(k) =~= s);
    }
}

/// Reads the decimal form of a 64-bit integer.
pub fn parse_i64(text: &Vec<char>) -> (r: Option<i64>)
    ensures
        r == parse_i64_spec(text@),
{
    let n = text.len();
    let signed = n > 0 && (text[0] == '-' || text[0] == '+');
    let negative = signed && text[0] == '-';
    let start: usize = if signed {
        1
    } else {
        0
    };
    let ghost digits = text@.skip(start as int);
    if start == n {
        return None;
    }
    let limit: u64 = if negative {
        0x8000_0000_0000_0000
    } else {
        0x7fff_ffff_ffff_ffff
    };
    let mut acc: u64 = 0;
    let mut i: usize = start;
    assert(digits.take(0) =~= Seq::<char>::empty());
    while i < n
        invariant
            start <= i <= n,
            n == text.len(),
            digits == text@.skip(start as int),
            signed == (n > 0 && (text@[0] == '-' || text@[0] == '+')),
            negative == (signed && text@[0] == '-'),
            start == (if signed {
                1usize
            } else {
                0usize
            }),
            limit == (if negative {
                0x8000_0000_0000_0000u64
            } else {
                0x7fff_ffff_ffff_ffffu64
            }),
            all_digits(digits.take(i - start)),
            acc == digits_value(digits.take(i - start)),
            acc <= limit,
        decreases n - i,
    {
        let c = text[i];
        let ghost seen = digits.take(i - start);
        let ghost next = digits.take(i - start + 1);
        assert(next.drop_last() =~= seen);
        assert(next.last() == c);
        if !char_is_ascii_digit(c) {
            assert(text@.skip(0) =~= text@);
            assert(!is_ascii_digit(digits[i - start]));
            return None;
        }
        let d: u64 = (c as u32 - 0x30) as u64;
        if acc > (limit - d) / 10 {
            proof {
                assert(text@.skip(0) =~= text@);
                assert(digits_value(next) == acc * 10 + d);
                assert(digits_value(next) > limit);
                if all_digits(digits) {
                    lemma_digits_value_grows(digits, i - start + 1);
                }
            }
            return None;
        }
        acc = acc * 10 + d;
        assert forall|j: int| 0 <= j < next.len() implies is_ascii_digit(#[trigger] next[j]) by {
            if j < seen.len() {
                assert(next[j] == seen[j]);
            }
        }
        i += 1;
    }
    assert(digits.take(n - start) =~= digits);
    assert(text@.skip(0) =~= text@);
    if negative {
        if acc == 0x8000_0000_0000_0000 {
            Some(i64::MIN)
        } else {
            Some(-(acc as i64))
        }
    } else {
        Some(acc as i64)
    }
}

/// The first position of `v` at or after `from` that holds no white space.
pub fn skip_whitespace(v: &Vec<char>, from: usize) -> (a: usize)
    requires
        from <= v.len(),
    ensures
        a == word_start(v@, from as int),
        from <= a <= v.len(),
{
    let mut a: usize = from;
    while a < v.len() && char_is_whitespace(v[a])
        invariant
            from <= a <= v.len(),
            word_start(v@, a as int) == word_start(v@, from as int),
        decreases v.len() - a,
    {
        a += 1;
    }
    a
}

/// The first `n` characters of `v`, or all of them where there are fewer.
pub fn take_chars(v: &Vec<char>, n: usize) -> (r: Vec<char>)
    ensures
        r@ == v@.take(
            if v.len() < n {
                v.len() as int
            } else {
                n as int
            },
        ),
{
    let end = if v.len() < n {
        v.len()
    } else {
        n
    };
    assert(v@.take(end as int) =~= v@.subrange(0, end as int));
    copy_range(v, 0, end)
}

} // verus!
