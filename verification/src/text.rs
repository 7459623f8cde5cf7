//! Text as sequences of characters: searching, splitting and trimming.
//!
//! Every decoder of the text formats works on `&[char]` and is specified over
//! `Seq<char>`, the view that `str`, `String` and `Vec<char>` share.

use vstd::prelude::*;
use vstd::std_specs::iter::IteratorSpec;

verus! {

/// `String::push` appends one character to the string.
pub assume_specification[ String::push ](s: &mut String, c: char)
    ensures
        final(s)@ == old(s)@.push(c),
;

/// The characters with the Unicode property `White_Space`.
pub open spec fn is_space(c: char) -> bool {
    let u = c as u32;
    ||| 0x09 <= u <= 0x0D
    ||| u == 0x20
    ||| u == 0x85
    ||| u == 0xA0
    ||| u == 0x1680
    ||| 0x2000 <= u <= 0x200A
    ||| u == 0x2028
    ||| u == 0x2029
    ||| u == 0x202F
    ||| u == 0x205F
    ||| u == 0x3000
}

/// The first index at or after `from` at which `s` holds `c`, or the length
/// of `s` where there is none.
pub open spec fn find_from(s: Seq<char>, c: char, from: int) -> int
    decreases s.len() - from,
{
    if from < 0 || from >= s.len() {
        s.len() as int
    } else if s[from] == c {
        from
    } else {
        find_from(s, c, from + 1)
    }
}

/// Whether `s` holds `c` anywhere.
pub open spec fn has_char(s: Seq<char>, c: char) -> bool {
    find_from(s, c, 0) < s.len()
}

/// The pieces of `s` from index `from` on that lie between the occurrences
/// of `sep`. There is always at least one piece; it may be empty.
pub open spec fn split_from(s: Seq<char>, sep: char, from: int) -> Seq<Seq<char>>
    decreases s.len() - from,
{
    if from < 0 || from > s.len() {
        Seq::empty()
    } else {
        let k = find_from(s, sep, from);
        if k >= s.len() {
            seq![s.subrange(from, s.len() as int)]
        } else {
            proof {
                lemma_find_from(s, sep, from);
            }
            seq![s.subrange(from, k)] + split_from(s, sep, k + 1)
        }
    }
}

/// The pieces of `s` between the occurrences of `sep`: one more piece than
/// there are separators.
pub open spec fn split(s: Seq<char>, sep: char) -> Seq<Seq<char>> {
    split_from(s, sep, 0)
}

/// The index of the first character at or after `from` that is no white space.
pub open spec fn skip_spaces(s: Seq<char>, from: int) -> int
    decreases s.len() - from,
{
    if 0 <= from < s.len() && is_space(s[from]) {
        skip_spaces(s, from + 1)
    } else {
        from
    }
}

/// The index just after the last character before `to` that is no white space.
pub open spec fn drop_spaces(s: Seq<char>, to: int) -> int
    decreases to,
{
    if 0 < to <= s.len() && is_space(s[to - 1]) {
        drop_spaces(s, to - 1)
    } else {
        to
    }
}

/// `s` without the white space at its two ends.
pub open spec fn trimmed(s: Seq<char>) -> Seq<char> {
    let a = skip_spaces(s, 0);
    let b = drop_spaces(s, s.len() as int);
    if a < b {
        s.subrange(a, b)
    } else {
        Seq::empty()
    }
}

/// The views of a list of character vectors.
pub open spec fn views(v: Seq<Vec<char>>) -> Seq<Seq<char>> {
    Seq::new(v.len(), |i: int| v[i]@)
}

/// Where a search ends: within the text, at the character that was sought
/// where there is one, and after no other occurrence of it.
pub proof fn lemma_find_from(s: Seq<char>, c: char, from: int)
    requires
        0 <= from <= s.len(),
    ensures
        from <= find_from(s, c, from) <= s.len(),
        find_from(s, c, from) < s.len() ==> s[find_from(s, c, from)] == c,
        forall|k: int| from <= k < find_from(s, c, from) ==> s[k] != c,
    decreases s.len() - from,
{
    if from < s.len() && s[from] != c {
        lemma_find_from(s, c, from + 1);
    }
}

/// A text always splits into at least one piece.
pub(crate) proof fn lemma_split_first(s: Seq<char>, sep: char)
    ensures
        split(s, sep).len() >= 1,
        split(s, sep)[0] == s.subrange(0, find_from(s, sep, 0)),
{
    lemma_find_from(s, sep, 0);
    let k = find_from(s, sep, 0);
    if k >= s.len() {
        assert(split(s, sep) =~= seq![s.subrange(0, s.len() as int)]);
    } else {
        assert(split(s, sep) =~= seq![s.subrange(0, k)] + split_from(s, sep, k + 1));
    }
}

/// Where white space ends: within the text, at a character that is none,
/// and after white space only.
pub proof fn lemma_skip_spaces(s: Seq<char>, from: int)
    requires
        0 <= from <= s.len(),
    ensures
        from <= skip_spaces(s, from) <= s.len(),
        skip_spaces(s, from) < s.len() ==> !is_space(s[skip_spaces(s, from)]),
        forall|k: int| from <= k < skip_spaces(s, from) ==> is_space(s[k]),
    decreases s.len() - from,
{
    if from < s.len() && is_space(s[from]) {
        lemma_skip_spaces(s, from + 1);
    }
}

/// The views of a list of texts with one more text.
pub(crate) proof fn lemma_views_push(v: Seq<Vec<char>>, t: Vec<char>)
    ensures
        views(v.push(t)) == views(v).push(t@),
{
    assert(views(v.push(t)) =~= views(v).push(t@));
}

/// Whether `c` is white space.
pub fn is_space_char(c: char) -> (r: bool)
    ensures
        r == is_space(c),
{
    let u: u32 = c as u32;
    (0x09 <= u && u <= 0x0D) || u == 0x20 || u == 0x85 || u == 0xA0 || u == 0x1680 || (0x2000 <= u
        && u <= 0x200A) || u == 0x2028 || u == 0x2029 || u == 0x202F || u == 0x205F || u == 0x3000
}

/// The characters of a string slice, in order.
pub fn chars_of(s: &str) -> (r: Vec<char>)
    ensures
        r@ == s@,
{
    let mut out: Vec<char> = Vec::new();
    let source = s.chars();
    for c in it: source
        invariant
            out@ == it.seq().take(it.index()),
            it.seq() == s@,
    {
        out.push(c);
    }
    out
}

/// The string that holds the given characters, in order.
pub fn string_of(chars: &[char]) -> (r: String)
    ensures
        r@ == chars@,
{
    let mut out = String::new();
    let mut i: usize = 0;
    while i < chars.len()
        invariant
            i <= chars.len(),
            out@ == chars@.take(i as int),
        decreases chars.len() - i,
    {
        out.push(chars[i]);
        i += 1;
    }
    out
}

/// A copy of the characters of `s` from index `from` up to, not including, `to`.
pub fn copy_range(s: &[char], from: usize, to: usize) -> (r: Vec<char>)
    requires
        from <= to <= s.len(),
    ensures
        r@ == s@.subrange(from as int, to as int),
{
    let mut out: Vec<char> = Vec::new();
    let mut i: usize = from;
    while i < to
        invariant
            from <= i <= to <= s.len(),
            out@ == s@.subrange(from as int, i as int),
        decreases to - i,
    {
        out.push(s[i]);
        i += 1;
    }
    out
}

/// Whether two texts hold the same characters.
pub fn same_chars(a: &[char], b: &[char]) -> (r: bool)
    ensures
        r == (a@ == b@),
{
    if a.len() != b.len() {
        return false;
    }
    let mut i: usize = 0;
    while i < a.len()
        invariant
            i <= a.len(),
            a.len() == b.len(),
            a@.take(i as int) == b@.take(i as int),
        decreases a.len() - i,
    {
        if a[i] != b[i] {
            return false;
        }
        assert(a@.take(i + 1) == a@.take(i as int).push(a@[i as int]));
        assert(b@.take(i + 1) == b@.take(i as int).push(b@[i as int]));
        i += 1;
    }
    assert(a@.take(a.len() as int) == a@);
    assert(b@.take(b.len() as int) == b@);
    true
}

/// Whether `s` holds exactly the characters of `word`.
pub fn is_word(s: &[char], word: &str) -> (r: bool)
    ensures
        r == (s@ == word@),
{
    let w = chars_of(word);
    same_chars(s, w.as_slice())
}

/// The first index at or after `from` at which `s` holds `c`, or the length
/// of `s` where there is none.
pub fn find_char(s: &[char], c: char, from: usize) -> (r: usize)
    requires
        from <= s.len(),
    ensures
        r == find_from(s@, c, from as int),
        from <= r <= s.len(),
{
    let mut i: usize = from;
    while i < s.len() && s[i] != c
        invariant
            from <= i <= s.len(),
            find_from(s@, c, from as int) == find_from(s@, c, i as int),
        decreases s.len() - i,
    {
        i += 1;
    }
    i
}

/// The pieces of `s` between the occurrences of `sep`.
pub fn split_chars(s: &[char], sep: char) -> (r: Vec<Vec<char>>)
    ensures
        views(r@) == split(s@, sep),
        r@.len() >= 1,
{
    let mut out: Vec<Vec<char>> = Vec::new();
    let mut start: usize = 0;
    let mut done = false;
    assert(views(out@) + split_from(s@, sep, 0) =~= split(s@, sep));
    while !done
        invariant
            start <= s.len(),
            !done ==> split(s@, sep) == views(out@) + split_from(s@, sep, start as int),
            done ==> split(s@, sep) == views(out@) && out@.len() >= 1,
        decreases
                (if done {
                    0
                } else {
                    1 + s.len() - start
                }),
    {
        let k = find_char(s, sep, start);
        let piece = copy_range(s, start, k);
        proof {
            lemma_views_push(out@, piece);
            let rest = split_from(s@, sep, start as int);
            if k < s.len() {
                assert(views(out@) + rest =~= views(out@).push(piece@) + split_from(
                    s@,
                    sep,
                    k + 1,
                ));
            } else {
                assert(views(out@) + rest =~= views(out@).push(piece@));
            }
        }
        out.push(piece);
        if k >= s.len() {
            done = true;
        } else {
            start = k + 1;
        }
    }
    out
}

/// `s` without the white space at its two ends.
pub fn trim_chars(s: &[char]) -> (r: Vec<char>)
    ensures
        r@ == trimmed(s@),
{
    let mut a: usize = 0;
    while a < s.len() && is_space_char(s[a])
        invariant
            a <= s.len(),
            skip_spaces(s@, 0) == skip_spaces(s@, a as int),
        decreases s.len() - a,
    {
        a += 1;
    }
    let mut b: usize = s.len();
    while b > 0 && is_space_char(s[b - 1])
        invariant
            b <= s.len(),
            drop_spaces(s@, s.len() as int) == drop_spaces(s@, b as int),
        decreases b,
    {
        b -= 1;
    }
    if a < b {
        copy_range(s, a, b)
    } else {
        Vec::new()
    }
}

/// The views of a list of string slices.
pub open spec fn str_views(v: Seq<&str>) -> Seq<Seq<char>> {
    Seq::new(v.len(), |i: int| v[i]@)
}

/// The characters of each of a list of string slices.
pub fn chars_of_all(items: &[&str]) -> (r: Vec<Vec<char>>)
    ensures
        views(r@) == str_views(items@),
{
    let mut out: Vec<Vec<char>> = Vec::new();
    let mut i: usize = 0;
    while i < items.len()
        invariant
            i <= items.len(),
            views(out@) == str_views(items@.take(i as int)),
        decreases items.len() - i,
    {
        let chars = chars_of(items[i]);
        proof {
            lemma_views_push(out@, chars);
            assert(str_views(items@.take(i + 1)) =~= str_views(items@.take(i as int)).push(
                chars@,
            ));
        }
        out.push(chars);
        i += 1;
    }
    assert(items@.take(items.len() as int) =~= items@);
    out
}

/// A line of the form `key: value`, cut at its first colon, with both parts
/// trimmed. A line without a colon has no such form.
pub open spec fn key_value(line: Seq<char>) -> Option<(Seq<char>, Seq<char>)> {
    let k = find_from(line, ':', 0);
    if k >= line.len() {
        None
    } else {
        Some((trimmed(line.take(k)), trimmed(line.skip(k + 1))))
    }
}

/// The key and the value of a line of the form `key: value`.
pub fn split_key_value(line: &[char]) -> (r: Option<(Vec<char>, Vec<char>)>)
    ensures
        match r {
            Some((key, value)) => key_value(line@) == Some((key@, value@)),
            None => key_value(line@) is None,
        },
{
    let k = find_char(line, ':', 0);
    if k >= line.len() {
        None
    } else {
        let head = copy_range(line, 0, k);
        let tail = copy_range(line, k + 1, line.len());
        Some((trim_chars(head.as_slice()), trim_chars(tail.as_slice())))
    }
}

/// The index of the first white space at or after `from`.
pub open spec fn word_end(s: Seq<char>, from: int) -> int
    decreases s.len() - from,
{
    if 0 <= from < s.len() && !is_space(s[from]) {
        word_end(s, from + 1)
    } else {
        from
    }
}

/// The words of `s` from index `from` on: the longest runs of characters
/// that are no white space.
pub open spec fn words_from(s: Seq<char>, from: int) -> Seq<Seq<char>>
    decreases s.len() - from,
{
    let a = skip_spaces(s, from);
    if from < 0 || a >= s.len() {
        Seq::empty()
    } else {
        let b = word_end(s, a + 1);
        proof {
            lemma_skip_spaces(s, from);
            lemma_word_end(s, a + 1);
        }
        seq![s.subrange(a, b)] + words_from(s, b)
    }
}

/// The words of `s`.
pub open spec fn words(s: Seq<char>) -> Seq<Seq<char>> {
    words_from(s, 0)
}

/// A word ends within the text.
pub proof fn lemma_word_end(s: Seq<char>, from: int)
    requires
        0 <= from <= s.len(),
    ensures
        from <= word_end(s, from) <= s.len(),
    decreases s.len() - from,
{
    if from < s.len() && !is_space(s[from]) {
        lemma_word_end(s, from + 1);
    }
}

/// The words of `s`.
pub fn split_words(s: &[char]) -> (r: Vec<Vec<char>>)
    ensures
        views(r@) == words(s@),
{
    let mut out: Vec<Vec<char>> = Vec::new();
    let mut at: usize = 0;
    let mut done = false;
    assert(views(out@) + words_from(s@, 0) =~= words(s@));
    while !done
        invariant
            at <= s.len(),
            !done ==> words(s@) == views(out@) + words_from(s@, at as int),
            done ==> words(s@) == views(out@),
        decreases
                (if done {
                    0
                } else {
                    1 + s.len() - at
                }),
    {
        let mut a: usize = at;
        while a < s.len() && is_space_char(s[a])
            invariant
                at <= a <= s.len(),
                skip_spaces(s@, at as int) == skip_spaces(s@, a as int),
            decreases s.len() - a,
        {
            a += 1;
        }
        if a >= s.len() {
            assert(views(out@) + words_from(s@, at as int) =~= views(out@));
            done = true;
        } else {
            let mut b: usize = a + 1;
            while b < s.len() && !is_space_char(s[b])
                invariant
                    a < b <= s.len(),
                    word_end(s@, a + 1) == word_end(s@, b as int),
                decreases s.len() - b,
            {
                b += 1;
            }
            let word = copy_range(s, a, b);
            proof {
                lemma_views_push(out@, word);
                assert(views(out@) + words_from(s@, at as int) =~= views(out@).push(word@)
                    + words_from(s@, b as int));
            }
            out.push(word);
            at = b;
        }
    }
    out
}

} // verus!
