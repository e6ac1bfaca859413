//! Character-level helpers for executable keys, hotkey strings and names.
use vstd::prelude::*;

verus! {

/// What `str::to_lowercase` returns for a given text.
pub uninterp spec fn lowercase_of(s: Seq<char>) -> Seq<char>;

/// `str::to_lowercase`: the lowercase form of the text, by the Unicode tables
/// that std carries. The result is named, not spelled out.
#[verifier::external_body]
pub(crate) fn lowercase(s: &str) -> (r: String)
    ensures
        r@ == lowercase_of(s@),
{
    s.to_lowercase()
}

/// `str == str`: true exactly when the two texts hold the same characters.
#[verifier::external_body]
pub(crate) fn str_eq(a: &str, b: &str) -> (r: bool)
    ensures
        r == (a@ == b@),
{
    a == b
}

/// `String::from_iter` over characters: a string holding exactly these characters.
#[verifier::external_body]
pub(crate) fn string_from_chars(v: &Vec<char>) -> (r: String)
    ensures
        r@ == v@,
{
    String::from_iter(v.iter())
}

/// The characters of a string, as a vector.
pub fn chars_of(s: &str) -> (v: Vec<char>)
    ensures
        v@ == s@,
{
    let mut v: Vec<char> = Vec::new();
    for c in it: s.chars()
        invariant
            it.seq() == s@,
            v@ == it.seq().take(it.index() as int),
    {
        v.push(c);
    }
    v
}

/// ASCII lowercase of one character: `A`..`Z` map to `a`..`z`, all else is kept.
pub open spec fn spec_ascii_lower(c: char) -> char {
    if 'A' <= c && c <= 'Z' {
        ((c as u8) + 32) as char
    } else {
        c
    }
}

pub fn ascii_lower(c: char) -> (r: char)
    ensures
        r == spec_ascii_lower(c),
{
    if 'A' <= c && c <= 'Z' {
        ((c as u8) + 32) as char
    } else {
        c
    }
}

/// Position just after the last `sep` in `s`, or 0 when `s` holds none.
pub open spec fn last_segment_start(s: Seq<char>, sep: char) -> int
    decreases s.len(),
{
    if s.len() == 0 {
        0
    } else if s.last() == sep {
        s.len() as int
    } else {
        last_segment_start(s.drop_last(), sep)
    }
}

/// The part of `s` after its last `sep`; all of `s` when it holds none.
pub open spec fn last_segment(s: Seq<char>, sep: char) -> Seq<char> {
    s.skip(last_segment_start(s, sep))
}

pub proof fn lemma_last_segment_start(s: Seq<char>, sep: char)
    ensures
        0 <= last_segment_start(s, sep) <= s.len(),
        last_segment_start(s, sep) > 0 ==> s[last_segment_start(s, sep) - 1] == sep,
        forall|i: int| last_segment_start(s, sep) <= i < s.len() ==> s[i] != sep,
    decreases s.len(),
{
    if s.len() > 0 && s.last() != sep {
        let head = s.drop_last();
        lemma_last_segment_start(head, sep);
        assert forall|i: int| last_segment_start(s, sep) <= i < s.len() implies s[i] != sep by {
            if i < head.len() {
                assert(head[i] == s[i]);
            }
        }
        if last_segment_start(s, sep) > 0 {
            assert(head[last_segment_start(s, sep) - 1] == s[last_segment_start(s, sep) - 1]);
        }
    }
}

/// The characters after the last `sep`.
pub fn last_segment_of(chars: &Vec<char>, sep: char) -> (r: Vec<char>)
    ensures
        r@ == last_segment(chars@, sep),
{
    let n = chars.len();
    let mut start: usize = 0;
    let mut i: usize = 0;
    while i < n
        invariant
            n == chars.len(),
            0 <= i <= n,
            start as int == last_segment_start(chars@.take(i as int), sep),
        decreases n - i,
    {
        proof {
            assert(chars@.take(i + 1).drop_last() =~= chars@.take(i as int));
        }
        if chars[i] == sep {
            start = i + 1;
        }
        i += 1;
    }
    proof {
        assert(chars@.take(n as int) =~= chars@);
        lemma_last_segment_start(chars@, sep);
    }
    let mut r: Vec<char> = Vec::new();
    let mut j: usize = start;
    while j < n
        invariant
            n == chars.len(),
            start <= j <= n,
            r@ == chars@.subrange(start as int, j as int),
        decreases n - j,
    {
        r.push(chars[j]);
        proof {
            assert(chars@.subrange(start as int, j + 1) =~= chars@.subrange(start as int, j as int).push(
                chars@[j as int],
            ));
        }
        j += 1;
    }
    proof {
        assert(chars@.subrange(start as int, n as int) =~= chars@.skip(start as int));
    }
    r
}

/// Whether `c` is in `s`.
pub fn contains_char(s: &Vec<char>, c: char) -> (r: bool)
    ensures
        r == s@.contains(c),
{
    let mut i: usize = 0;
    while i < s.len()
        invariant
            0 <= i <= s.len(),
            forall|k: int| 0 <= k < i ==> s@[k] != c,
        decreases s.len() - i,
    {
        if s[i] == c {
            return true;
        }
        i += 1;
    }
    false
}

/// The UTF-16 code units of one character: itself below 0x10000, else a
/// surrogate pair.
pub open spec fn utf16_units(c: char) -> Seq<u16> {
    let cp = c as u32;
    if cp < 0x10000 {
        seq![cp as u16]
    } else {
        seq![(0xD800 + (cp - 0x10000) / 0x400) as u16, (0xDC00 + (cp - 0x10000) % 0x400) as u16]
    }
}

/// The UTF-16 encoding of a text.
pub open spec fn utf16_of(s: Seq<char>) -> Seq<u16>
    decreases s.len(),
{
    if s.len() == 0 {
        Seq::empty()
    } else {
        utf16_of(s.drop_last()) + utf16_units(s.last())
    }
}

/// The UTF-16 encoding of `value` with a terminating zero, as the system's
/// wide-string calls take it.
pub fn to_wstring(value: &str) -> (r: Vec<u16>)
    ensures
        r@ == utf16_of(value@).push(0u16),
{
    let mut r: Vec<u16> = Vec::new();
    for c in it: value.chars()
        invariant
            it.seq() == value@,
            r@ == utf16_of(it.seq().take(it.index() as int)),
    {
        let cp: u32 = c as u32;
        proof {
            let k = it.index() as int;
            assert(it.seq().take(k + 1).drop_last() =~= it.seq().take(k));
            assert(it.seq().take(k + 1).last() == c);
        }
        if cp < 0x10000 {
            r.push(cp as u16);
        } else {
            let rest: u32 = cp - 0x10000;
            r.push((0xD800 + rest / 0x400) as u16);
            r.push((0xDC00 + rest % 0x400) as u16);
        }
        proof {
            let k = it.index() as int;
            assert(r@ =~= utf16_of(it.seq().take(k)) + utf16_units(c));
        }
    }
    proof {
        assert(value@.take(value@.len() as int) =~= value@);
    }
    r.push(0);
    r
}

/// ASCII lowercase of every character.
pub open spec fn ascii_lowered(s: Seq<char>) -> Seq<char> {
    Seq::new(s.len(), |i: int| spec_ascii_lower(s[i]))
}

/// Whether a character is white space, as Unicode's `White_Space` property has it.
pub open spec fn spec_is_whitespace(c: char) -> bool {
    let cp = c as u32;
    (0x09 <= cp && cp <= 0x0d) || cp == 0x20 || cp == 0x85 || cp == 0xa0 || cp == 0x1680 || (0x2000
        <= cp && cp <= 0x200a) || cp == 0x2028 || cp == 0x2029 || cp == 0x202f || cp == 0x205f || cp
        == 0x3000
}

pub fn is_whitespace(c: char) -> (r: bool)
    ensures
        r == spec_is_whitespace(c),
{
    let cp: u32 = c as u32;
    (0x09 <= cp && cp <= 0x0d) || cp == 0x20 || cp == 0x85 || cp == 0xa0 || cp == 0x1680 || (0x2000
        <= cp && cp <= 0x200a) || cp == 0x2028 || cp == 0x2029 || cp == 0x202f || cp == 0x205f || cp
        == 0x3000
}

/// The number of white-space characters at the start of the text.
pub open spec fn leading_space(s: Seq<char>) -> int
    decreases s.len(),
{
    if s.len() == 0 || !spec_is_whitespace(s[0]) {
        0
    } else {
        1 + leading_space(s.skip(1))
    }
}

/// The length of the text without the white space at its end.
pub open spec fn trimmed_end(s: Seq<char>) -> int
    decreases s.len(),
{
    if s.len() == 0 || !spec_is_whitespace(s.last()) {
        s.len() as int
    } else {
        trimmed_end(s.drop_last())
    }
}

/// The text without the white space at its start and at its end.
pub open spec fn trimmed(s: Seq<char>) -> Seq<char> {
    let start = leading_space(s);
    if start >= s.len() {
        Seq::empty()
    } else {
        s.subrange(start, trimmed_end(s))
    }
}

pub proof fn lemma_leading_space(s: Seq<char>)
    ensures
        0 <= leading_space(s) <= s.len(),
        forall|k: int| 0 <= k < leading_space(s) ==> spec_is_whitespace(s[k]),
        leading_space(s) < s.len() ==> !spec_is_whitespace(s[leading_space(s)]),
    decreases s.len(),
{
    if s.len() > 0 && spec_is_whitespace(s[0]) {
        let rest = s.skip(1);
        lemma_leading_space(rest);
        assert forall|k: int| 0 <= k < leading_space(s) implies spec_is_whitespace(s[k]) by {
            if k > 0 {
                assert(rest[k - 1] == s[k]);
            }
        }
        if leading_space(s) < s.len() {
            assert(rest[leading_space(rest)] == s[leading_space(s)]);
        }
    }
}

pub proof fn lemma_trimmed_end(s: Seq<char>)
    ensures
        0 <= trimmed_end(s) <= s.len(),
        forall|k: int| trimmed_end(s) <= k < s.len() ==> spec_is_whitespace(s[k]),
        trimmed_end(s) > 0 ==> !spec_is_whitespace(s[trimmed_end(s) - 1]),
    decreases s.len(),
{
    if s.len() > 0 && spec_is_whitespace(s.last()) {
        let head = s.drop_last();
        lemma_trimmed_end(head);
        assert forall|k: int| trimmed_end(s) <= k < s.len() implies spec_is_whitespace(s[k]) by {
            if k < head.len() {
                assert(head[k] == s[k]);
            }
        }
        if trimmed_end(s) > 0 {
            assert(head[trimmed_end(s) - 1] == s[trimmed_end(s) - 1]);
        }
    }
}

/// The text without the white space at its start and at its end.
pub fn trim_chars(s: &Vec<char>) -> (r: Vec<char>)
    ensures
        r@ == trimmed(s@),
        r@.len() == 0 <==> forall|k: int| 0 <= k < s@.len() ==> spec_is_whitespace(s@[k]),
{
    let n = s.len();
    let mut start: usize = 0;
    while start < n && is_whitespace(s[start])
        invariant
            n == s.len(),
            0 <= start <= n,
            forall|k: int| 0 <= k < start ==> spec_is_whitespace(s@[k]),
        decreases n - start,
    {
        start += 1;
    }
    proof {
        lemma_leading_space(s@);
        lemma_trimmed_end(s@);
        let ls = leading_space(s@);
        if ls < start {
            assert(spec_is_whitespace(s@[ls]));
        }
        if start < ls {
            assert(spec_is_whitespace(s@[start as int]));
        }
        assert(ls == start);
    }
    if start >= n {
        return Vec::new();
    }
    let mut end: usize = n;
    while end > start && is_whitespace(s[end - 1])
        invariant
            n == s.len(),
            start <= end <= n,
            start < n,
            !spec_is_whitespace(s@[start as int]),
            forall|k: int| end <= k < n ==> spec_is_whitespace(s@[k]),
        decreases end,
    {
        end -= 1;
    }
    proof {
        let te = trimmed_end(s@);
        if te < end {
            assert(spec_is_whitespace(s@[end - 1]));
        }
        if end < te {
            assert(spec_is_whitespace(s@[te - 1]));
        }
        assert(te == end);
        assert(end > start);
    }
    let mut r: Vec<char> = Vec::new();
    let mut i: usize = start;
    while i < end
        invariant
            start <= i <= end <= s.len(),
            r@ == s@.subrange(start as int, i as int),
        decreases end - i,
    {
        r.push(s[i]);
        proof {
            assert(s@.subrange(start as int, i + 1) =~= s@.subrange(start as int, i as int).push(
                s@[i as int],
            ));
        }
        i += 1;
    }
    r
}

/// The text with every pair of backslashes made one, found from left to right.
pub open spec fn collapse_backslashes(s: Seq<char>) -> Seq<char>
    decreases s.len(),
{
    if s.len() == 0 {
        Seq::empty()
    } else if s.len() >= 2 && s[0] == '\\' && s[1] == '\\' {
        seq!['\\'] + collapse_backslashes(s.skip(2))
    } else {
        seq![s[0]] + collapse_backslashes(s.skip(1))
    }
}

/// A path value as it is meant: with doubled backslashes made single.
pub fn normalize_path_value(value: &str) -> (r: String)
    ensures
        r@ == collapse_backslashes(value@),
{
    let chars = chars_of(value);
    let collapsed = collapse_chars(&chars);
    string_from_chars(&collapsed)
}

/// The characters with every pair of backslashes made one.
pub fn collapse_chars(value: &Vec<char>) -> (r: Vec<char>)
    ensures
        r@ == collapse_backslashes(value@),
{
    let n = value.len();
    let mut r: Vec<char> = Vec::new();
    let mut i: usize = 0;
    proof {
        assert(value@.skip(0) =~= value@);
        assert(r@ + collapse_backslashes(value@) =~= collapse_backslashes(value@));
    }
    while i < n
        invariant
            n == value.len(),
            0 <= i <= n,
            r@ + collapse_backslashes(value@.skip(i as int)) == collapse_backslashes(value@),
        decreases n - i,
    {
        let ghost rest = value@.skip(i as int);
        let ghost before = r@;
        r.push(value[i]);
        if n - i >= 2 && value[i] == '\\' && value[i + 1] == '\\' {
            proof {
                assert(rest.skip(2) =~= value@.skip(i + 2));
                assert(r@ + collapse_backslashes(value@.skip(i + 2)) =~= before + (seq!['\\']
                    + collapse_backslashes(rest.skip(2))));
            }
            i += 2;
        } else {
            proof {
                assert(rest.skip(1) =~= value@.skip(i + 1));
                assert(r@ + collapse_backslashes(value@.skip(i + 1)) =~= before + (seq![rest[0]]
                    + collapse_backslashes(rest.skip(1))));
            }
            i += 1;
        }
    }
    proof {
        assert(r@ + Seq::<char>::empty() =~= r@);
    }
    r
}

/// The pieces of a text between its separators. A text without separator is
/// one piece; a separator at the start or the end gives an empty piece there.
pub open spec fn split_pieces(s: Seq<char>, first: char, second: char) -> Seq<Seq<char>>
    decreases s.len(),
{
    if s.len() == 0 {
        seq![Seq::<char>::empty()]
    } else {
        let head = split_pieces(s.drop_last(), first, second);
        if s.last() == first || s.last() == second {
            head.push(Seq::<char>::empty())
        } else {
            head.update(head.len() - 1, head.last().push(s.last()))
        }
    }
}

/// The views of the pieces.
pub open spec fn piece_views(pieces: Seq<Vec<char>>) -> Seq<Seq<char>> {
    Seq::new(pieces.len(), |i: int| pieces[i]@)
}

/// Splits a text at every `first` and every `second`.
pub fn split_chars(s: &Vec<char>, first: char, second: char) -> (r: Vec<Vec<char>>)
    ensures
        piece_views(r@) == split_pieces(s@, first, second),
{
    let mut done: Vec<Vec<char>> = Vec::new();
    let mut current: Vec<char> = Vec::new();
    let mut i: usize = 0;
    proof {
        assert(s@.take(0) =~= Seq::<char>::empty());
        assert(piece_views(done@).push(current@) =~= split_pieces(s@.take(0), first, second));
    }
    while i < s.len()
        invariant
            0 <= i <= s.len(),
            piece_views(done@).push(current@) == split_pieces(s@.take(i as int), first, second),
        decreases s.len() - i,
    {
        let ghost before = piece_views(done@).push(current@);
        proof {
            assert(s@.take(i + 1).drop_last() =~= s@.take(i as int));
        }
        let c = s[i];
        if c == first || c == second {
            done.push(current);
            current = Vec::new();
            proof {
                assert(piece_views(done@) =~= before);
            }
        } else {
            current.push(c);
            proof {
                assert(piece_views(done@).push(current@) =~= before.update(
                    before.len() - 1,
                    before.last().push(c),
                ));
            }
        }
        i += 1;
    }
    proof {
        assert(s@.take(s.len() as int) =~= s@);
    }
    let ghost before = piece_views(done@).push(current@);
    done.push(current);
    proof {
        assert(piece_views(done@) =~= before);
    }
    done
}

} // verus!
