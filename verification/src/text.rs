//! Characters and character sequences: white space, trimming, searching,
//! splitting, and the passage between strings and character slices.

use vstd::prelude::*;
use vstd::slice::slice_subrange;

verus! {

/// Whether `c` is a white-space character (the Unicode property `White_Space`).
pub open spec fn is_space(c: char) -> bool {
    let n = c as u32;
    ||| 0x09 <= n <= 0x0D
    ||| n == 0x20
    ||| n == 0x85
    ||| n == 0xA0
    ||| n == 0x1680
    ||| 0x2000 <= n <= 0x200A
    ||| n == 0x2028
    ||| n == 0x2029
    ||| n == 0x202F
    ||| n == 0x205F
    ||| n == 0x3000
}

/// The first position at or after `i` that holds no white space, or the
/// length of `s` where only white space follows.
pub open spec fn skip_spaces(s: Seq<char>, i: int) -> int
    decreases s.len() - i,
{
    if 0 <= i < s.len() && is_space(s[i]) {
        skip_spaces(s, i + 1)
    } else {
        i
    }
}

/// The end of the text that is left of `s.take(j)` once its trailing white
/// space is taken away.
pub open spec fn back_spaces(s: Seq<char>, j: int) -> int
    decreases j,
{
    if 0 < j <= s.len() && is_space(s[j - 1]) {
        back_spaces(s, j - 1)
    } else {
        j
    }
}

/// `s` without its leading white space.
pub open spec fn trimmed_start(s: Seq<char>) -> Seq<char> {
    s.skip(skip_spaces(s, 0))
}

/// `s` without its trailing white space.
pub open spec fn trimmed_end(s: Seq<char>) -> Seq<char> {
    s.take(back_spaces(s, s.len() as int))
}

/// `s` without its leading and trailing white space.
pub open spec fn trimmed(s: Seq<char>) -> Seq<char> {
    trimmed_end(trimmed_start(s))
}

/// The first position at or after `i` that holds `c`, or the length of `s`
/// where `c` does not occur from `i` on.
pub open spec fn find_char(s: Seq<char>, c: char, i: int) -> int
    decreases s.len() - i,
{
    if 0 <= i < s.len() && s[i] != c {
        find_char(s, c, i + 1)
    } else {
        i
    }
}

/// The pieces of `s` from `start` on that lie between occurrences of `sep`.
pub open spec fn split_from(s: Seq<char>, sep: char, start: int) -> Seq<Seq<char>>
    decreases s.len() - start,
{
    let k = find_char(s, sep, start);
    if 0 <= start <= k < s.len() {
        seq![s.subrange(start, k)] + split_from(s, sep, k + 1)
    } else {
        seq![s.subrange(start, s.len() as int)]
    }
}

/// The pieces of `s` that lie between occurrences of `sep`: one more piece
/// than there are separators, empty pieces included.
pub open spec fn split_on(s: Seq<char>, sep: char) -> Seq<Seq<char>> {
    split_from(s, sep, 0)
}

/// `l` without one trailing carriage return.
pub open spec fn without_cr(l: Seq<char>) -> Seq<char> {
    if l.len() > 0 && l.last() == '\r' {
        l.drop_last()
    } else {
        l
    }
}

/// The lines of `s` from `start` on.
pub open spec fn lines_from(s: Seq<char>, start: int) -> Seq<Seq<char>>
    decreases s.len() - start,
{
    if start < 0 || start >= s.len() {
        Seq::empty()
    } else {
        let k = find_char(s, '\n', start);
        if start <= k < s.len() {
            seq![without_cr(s.subrange(start, k))] + lines_from(s, k + 1)
        } else {
            seq![s.subrange(start, s.len() as int)]
        }
    }
}

/// The lines of `s`. A line ends with a line feed, or with a carriage return
/// and a line feed, neither of which belongs to it; the last line may end
/// with the text.
pub open spec fn lines_of(s: Seq<char>) -> Seq<Seq<char>> {
    lines_from(s, 0)
}

/// The texts that a sequence of strings or slices holds.
pub open spec fn texts<T: View<V = Seq<char>>>(v: Seq<T>) -> Seq<Seq<char>> {
    Seq::new(v.len(), |i: int| v[i]@)
}

/// Where `skip_spaces` ends, and what lies before it.
pub proof fn lemma_skip_spaces(s: Seq<char>, i: int)
    requires
        0 <= i <= s.len(),
    ensures
        i <= skip_spaces(s, i) <= s.len(),
        forall|k: int| i <= k < skip_spaces(s, i) ==> is_space(#[trigger] s[k]),
        skip_spaces(s, i) < s.len() ==> !is_space(s[skip_spaces(s, i)]),
    decreases s.len() - i,
{
    if i < s.len() && is_space(s[i]) {
        lemma_skip_spaces(s, i + 1);
    }
}

/// Where `back_spaces` ends, and what lies behind it.
pub proof fn lemma_back_spaces(s: Seq<char>, j: int)
    requires
        0 <= j <= s.len(),
    ensures
        0 <= back_spaces(s, j) <= j,
        forall|k: int| back_spaces(s, j) <= k < j ==> is_space(#[trigger] s[k]),
        back_spaces(s, j) > 0 ==> !is_space(s[back_spaces(s, j) - 1]),
    decreases j,
{
    if 0 < j && is_space(s[j - 1]) {
        lemma_back_spaces(s, j - 1);
    }
}

/// Where `find_char` ends, and what lies before it.
pub proof fn lemma_find_char(s: Seq<char>, c: char, i: int)
    requires
        0 <= i <= s.len(),
    ensures
        i <= find_char(s, c, i) <= s.len(),
        forall|k: int| i <= k < find_char(s, c, i) ==> #[trigger] s[k] != c,
        find_char(s, c, i) < s.len() ==> s[find_char(s, c, i)] == c,
    decreases s.len() - i,
{
    if i < s.len() && s[i] != c {
        lemma_find_char(s, c, i + 1);
    }
}

/// Searching a text that continues `x` finds what searching `x` finds,
/// and goes on behind `x` where that finds nothing.
pub proof fn lemma_find_char_left(x: Seq<char>, y: Seq<char>, c: char, i: int)
    requires
        0 <= i <= x.len(),
    ensures
        find_char(x, c, i) < x.len() ==> find_char(x + y, c, i) == find_char(x, c, i),
        find_char(x, c, i) >= x.len() ==> find_char(x + y, c, i) == x.len() + find_char(y, c, 0),
    decreases x.len() - i,
{
    if i < x.len() {
        assert((x + y)[i] == x[i]);
        if x[i] != c {
            lemma_find_char_left(x, y, c, i + 1);
        }
    } else {
        lemma_find_char_right(x, y, c, 0);
    }
}

/// Searching behind `x` in a text that continues `x` is searching the
/// continuation.
pub proof fn lemma_find_char_right(x: Seq<char>, y: Seq<char>, c: char, m: int)
    requires
        0 <= m <= y.len(),
    ensures
        find_char(x + y, c, x.len() + m) == x.len() + find_char(y, c, m),
    decreases y.len() - m,
{
    if m < y.len() {
        assert((x + y)[x.len() + m] == y[m]);
        if y[m] != c {
            lemma_find_char_right(x, y, c, m + 1);
        }
    }
}

/// Splitting behind `x` in a text that continues `x` is splitting the
/// continuation.
pub proof fn lemma_split_right(x: Seq<char>, y: Seq<char>, sep: char, m: int)
    requires
        0 <= m <= y.len(),
    ensures
        split_from(x + y, sep, x.len() + m) == split_from(y, sep, m),
    decreases y.len() - m,
{
    let k = find_char(y, sep, m);
    lemma_find_char(y, sep, m);
    lemma_find_char_right(x, y, sep, m);
    if k < y.len() {
        assert((x + y).subrange(x.len() + m, x.len() + k) == y.subrange(m, k));
        lemma_split_right(x, y, sep, k + 1);
    } else {
        assert((x + y).subrange(x.len() + m, (x + y).len() as int) == y.subrange(
            m,
            y.len() as int,
        ));
    }
}

/// The pieces of two texts that a separator joins are the pieces of the
/// first and then those of the second.
pub proof fn lemma_split_joined(x: Seq<char>, y: Seq<char>, sep: char, start: int)
    requires
        0 <= start <= x.len(),
    ensures
        split_from(x + seq![sep] + y, sep, start) == split_from(x, sep, start) + split_on(y, sep),
    decreases x.len() - start,
{
    let s = x + seq![sep] + y;
    let tail = seq![sep] + y;
    assert(s == x + tail);
    let k = find_char(x, sep, start);
    lemma_find_char(x, sep, start);
    lemma_find_char_left(x, tail, sep, start);
    if k < x.len() {
        assert(s.subrange(start, k) == x.subrange(start, k));
        lemma_split_joined(x, y, sep, k + 1);
    } else {
        assert(tail[0] == sep);
        assert(find_char(s, sep, start) == x.len());
        assert(s.subrange(start, x.len() as int) == x.subrange(start, x.len() as int));
        lemma_split_right(x + seq![sep], y, sep, 0);
    }
}

/// A text without the separator is its own single piece.
pub proof fn lemma_split_whole(x: Seq<char>, sep: char)
    requires
        find_char(x, sep, 0) >= x.len(),
    ensures
        split_on(x, sep) == seq![x],
{
    assert(x.subrange(0, x.len() as int) == x);
}

/// A trimmed text neither begins nor ends with white space.
pub proof fn lemma_trimmed(s: Seq<char>)
    ensures
        trimmed(s).len() > 0 ==> !is_space(trimmed(s)[0]) && !is_space(trimmed(s).last()),
        trimmed(s).len() <= s.len(),
{
    lemma_skip_spaces(s, 0);
    let a = trimmed_start(s);
    lemma_back_spaces(a, a.len() as int);
}

/// Trimming changes nothing in a text that neither begins nor ends with
/// white space.
pub proof fn lemma_trimmed_fixed(s: Seq<char>)
    requires
        s.len() > 0 ==> !is_space(s[0]) && !is_space(s.last()),
    ensures
        trimmed(s) == s,
{
    assert(s.skip(0) == s);
    assert(s.take(s.len() as int) == s);
}

/// Tests a character for white space.
pub fn is_whitespace(c: char) -> (b: bool)
    ensures
        b == is_space(c),
{
    let n: u32 = c as u32;
    (0x09 <= n && n <= 0x0D) || n == 0x20 || n == 0x85 || n == 0xA0 || n == 0x1680 || (0x2000 <= n
        && n <= 0x200A) || n == 0x2028 || n == 0x2029 || n == 0x202F || n == 0x205F || n == 0x3000
}

/// The position of the first character at or after `from` that is no white
/// space.
pub fn skip_whitespace(s: &[char], from: usize) -> (r: usize)
    requires
        from <= s@.len(),
    ensures
        r == skip_spaces(s@, from as int),
        from <= r <= s@.len(),
{
    let mut a: usize = from;
    while a < s.len() && is_whitespace(s[a])
        invariant
            from <= a <= s@.len(),
            skip_spaces(s@, from as int) == skip_spaces(s@, a as int),
        decreases s@.len() - a,
    {
        a += 1;
    }
    a
}

/// The end of `s[..to]` without its trailing white space.
pub fn back_whitespace(s: &[char], to: usize) -> (r: usize)
    requires
        to <= s@.len(),
    ensures
        r == back_spaces(s@, to as int),
        r <= to,
{
    let mut b: usize = to;
    while b > 0 && is_whitespace(s[b - 1])
        invariant
            b <= to <= s@.len(),
            back_spaces(s@, to as int) == back_spaces(s@, b as int),
        decreases b,
    {
        b -= 1;
    }
    b
}

/// Strips leading white space.
pub fn trim_start<'a>(s: &'a [char]) -> (r: &'a [char])
    ensures
        r@ == trimmed_start(s@),
{
    let a = skip_whitespace(s, 0);
    slice_subrange(s, a, s.len())
}

/// Strips trailing white space.
pub fn trim_end<'a>(s: &'a [char]) -> (r: &'a [char])
    ensures
        r@ == trimmed_end(s@),
{
    let b = back_whitespace(s, s.len());
    slice_subrange(s, 0, b)
}

/// Strips leading and trailing white space.
pub fn trim<'a>(s: &'a [char]) -> (r: &'a [char])
    ensures
        r@ == trimmed(s@),
{
    trim_end(trim_start(s))
}

/// The position of the first `c` at or after `from`, or the length of `s`.
pub fn find(s: &[char], c: char, from: usize) -> (r: usize)
    requires
        from <= s@.len(),
    ensures
        r == find_char(s@, c, from as int),
        from <= r <= s@.len(),
{
    let mut k: usize = from;
    while k < s.len() && s[k] != c
        invariant
            from <= k <= s@.len(),
            find_char(s@, c, from as int) == find_char(s@, c, k as int),
        decreases s@.len() - k,
    {
        k += 1;
    }
    k
}

/// Splits `s` at every occurrence of `sep`.
pub fn split<'a>(s: &'a [char], sep: char) -> (pieces: Vec<&'a [char]>)
    ensures
        texts(pieces@) == split_on(s@, sep),
{
    let mut pieces: Vec<&'a [char]> = Vec::new();
    let mut start: usize = 0;
    loop
        invariant_except_break
            start <= s@.len(),
            split_on(s@, sep) == texts(pieces@) + split_from(s@, sep, start as int),
        ensures
            texts(pieces@) == split_on(s@, sep),
        decreases s@.len() - start,
    {
        let k = find(s, sep, start);
        let ghost before = pieces@;
        pieces.push(slice_subrange(s, start, k));
        assert(texts(pieces@) == texts(before) + seq![s@.subrange(start as int, k as int)]);
        if k < s.len() {
            start = k + 1;
        } else {
            break;
        }
    }
    pieces
}

/// Splits `s` into its lines.
pub fn split_lines<'a>(s: &'a [char]) -> (lines: Vec<&'a [char]>)
    ensures
        texts(lines@) == lines_of(s@),
{
    let mut lines: Vec<&'a [char]> = Vec::new();
    let mut start: usize = 0;
    while start < s.len()
        invariant
            start <= s@.len(),
            lines_of(s@) == texts(lines@) + lines_from(s@, start as int),
        decreases s@.len() - start,
    {
        let k = find(s, '\n', start);
        let ghost before = lines@;
        if k < s.len() {
            let end: usize = if k > start && s[k - 1] == '\r' {
                k - 1
            } else {
                k
            };
            assert(s@.subrange(start as int, end as int) == without_cr(
                s@.subrange(start as int, k as int),
            ));
            lines.push(slice_subrange(s, start, end));
            assert(texts(lines@) == texts(before) + seq![
                without_cr(s@.subrange(start as int, k as int)),
            ]);
            start = k + 1;
        } else {
            lines.push(slice_subrange(s, start, k));
            assert(texts(lines@) == texts(before) + seq![
                s@.subrange(start as int, s@.len() as int),
            ]);
            start = k;
        }
    }
    lines
}

/// Appending a character to a string appends it to the string's text.
pub assume_specification[ String::push ](s: &mut String, ch: char)
    ensures
        final(s)@ == old(s)@.push(ch),
;

/// The characters of a string.
pub fn chars_of(s: &str) -> (v: Vec<char>)
    ensures
        v@ == s@,
{
    broadcast use vstd::string::axiom_spec_iter;

    let mut v: Vec<char> = Vec::new();
    for c in it: s.chars()
        invariant
            it.seq() == s@,
            v@ == s@.take(it.index()),
    {
        v.push(c);
        assert(s@.take(it.index() + 1) == s@.take(it.index()).push(c));
    }
    assert(s@.take(s@.len() as int) == s@);
    v
}

/// The string that holds the characters of `s`.
pub fn string_of(s: &[char]) -> (r: String)
    ensures
        r@ == s@,
{
    let mut r = String::new();
    let mut i: usize = 0;
    while i < s.len()
        invariant
            i <= s@.len(),
            r@ == s@.take(i as int),
        decreases s@.len() - i,
    {
        r.push(s[i]);
        i += 1;
        assert(s@.take(i as int) == s@.take(i - 1).push(s@[i - 1]));
    }
    assert(s@.take(s@.len() as int) == s@);
    r
}

/// Whether two character slices hold the same text.
pub fn same_text(a: &[char], b: &[char]) -> (r: bool)
    ensures
        r == (a@ == b@),
{
    if a.len() != b.len() {
        return false;
    }
    let mut i: usize = 0;
    while i < a.len()
        invariant
            i <= a@.len(),
            a@.len() == b@.len(),
            forall|k: int| 0 <= k < i ==> a@[k] == b@[k],
        decreases a@.len() - i,
    {
        if a[i] != b[i] {
            return false;
        }
        i += 1;
    }
    assert(a@ =~= b@);
    true
}

/// Whether `s` holds exactly the text `word`.
pub fn is_text(s: &[char], word: &str) -> (r: bool)
    ensures
        r == (s@ == word@),
{
    let w = chars_of(word);
    same_text(s, w.as_slice())
}

/// What follows the text `word` at the head of `s`, if `s` begins with it.
pub fn strip_prefix<'a>(s: &'a [char], word: &str) -> (r: Option<&'a [char]>)
    ensures
        match r {
            Some(rest) => word@.is_prefix_of(s@) && rest@ == s@.skip(word@.len() as int),
            None => !word@.is_prefix_of(s@),
        },
{
    let w = chars_of(word);
    if w.len() <= s.len() && same_text(slice_subrange(s, 0, w.len()), w.as_slice()) {
        Some(slice_subrange(s, w.len(), s.len()))
    } else {
        None
    }
}

/// What precedes the text `word` at the end of `s`, if `s` ends with it.
pub fn strip_suffix<'a>(s: &'a [char], word: &str) -> (r: Option<&'a [char]>)
    ensures
        match r {
            Some(rest) => word@.is_suffix_of(s@) && rest@ == s@.take(s@.len() - word@.len()),
            None => !word@.is_suffix_of(s@),
        },
{
    let w = chars_of(word);
    if w.len() <= s.len() && same_text(
        slice_subrange(s, s.len() - w.len(), s.len()),
        w.as_slice(),
    ) {
        Some(slice_subrange(s, 0, s.len() - w.len()))
    } else {
        None
    }
}

/// Whether `s` begins with the text `word`.
pub fn starts_with(s: &[char], word: &str) -> (r: bool)
    ensures
        r == word@.is_prefix_of(s@),
{
    let w = chars_of(word);
    if w.len() > s.len() {
        return false;
    }
    same_text(slice_subrange(s, 0, w.len()), w.as_slice())
}

} // verus!
