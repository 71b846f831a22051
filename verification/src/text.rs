//! Characters, lines and trimming.

use vstd::prelude::*;

verus! {

/// `String::push` appends one character.
pub assume_specification[ String::push ](s: &mut String, c: char)
    ensures
        final(s)@ == old(s)@.push(c),
;

/// Whether a character has the Unicode property `White_Space`.
pub open spec fn is_whitespace(c: char) -> bool {
    let n = c as u32;
    ||| 0x09 <= n <= 0x0D
    ||| n == 0x20
    ||| n == 0x85
    ||| n == 0xA0
    ||| n == 0x1680
    ||| 0x2000 <= n <= 0x200A
    ||| n == 0x2028
    ||| n == 0x2029
    ||| n == 0x202F
    ||| n == 0x205F
    ||| n == 0x3000
}

/// A text without its trailing white space.
pub open spec fn trim_end(s: Seq<char>) -> Seq<char>
    decreases s.len(),
{
    if s.len() > 0 && is_whitespace(s.last()) {
        trim_end(s.drop_last())
    } else {
        s
    }
}

/// A text without its leading white space.
pub open spec fn trim_start(s: Seq<char>) -> Seq<char>
    decreases s.len(),
{
    if s.len() > 0 && is_whitespace(s[0]) {
        trim_start(s.drop_first())
    } else {
        s
    }
}

/// A text without the white space at either end.
pub open spec fn trim(s: Seq<char>) -> Seq<char> {
    trim_start(trim_end(s))
}

/// How many characters of `s` stand before the first `c`.
pub open spec fn length_before(s: Seq<char>, c: char) -> nat
    decreases s.len(),
{
    if s.len() == 0 || s[0] == c {
        0
    } else {
        1 + length_before(s.drop_first(), c)
    }
}

/// What stands behind the first `c` of `s`, or nothing.
pub open spec fn rest_after(s: Seq<char>, c: char) -> Seq<char> {
    let n = length_before(s, c);
    if n < s.len() {
        s.skip(n + 1int)
    } else {
        Seq::empty()
    }
}

/// The lines of a text, each without its trailing white space. A line break at
/// the very end starts no further line.
pub open spec fn trimmed_lines(s: Seq<char>) -> Seq<Seq<char>>
    decreases s.len(),
{
    if s.len() == 0 {
        Seq::empty()
    } else {
        seq![trim_end(s.take(length_before(s, '\n') as int))] + trimmed_lines(rest_after(s, '\n'))
    }
}

/// The texts behind a sequence of slices.
pub open spec fn texts(slices: Seq<&str>) -> Seq<Seq<char>> {
    slices.map_values(|s: &str| s@)
}

/// The texts behind a sequence of strings.
pub open spec fn string_texts(strings: Seq<String>) -> Seq<Seq<char>> {
    strings.map_values(|s: String| s@)
}

/// `length_before` is the one length that a scan for `c` can stop at.
pub(crate) proof fn lemma_length_before(s: Seq<char>, c: char, n: int)
    requires
        0 <= n <= s.len(),
        forall|i: int| 0 <= i < n ==> s[i] != c,
        n < s.len() ==> s[n] == c,
    ensures
        length_before(s, c) == n,
    decreases s.len(),
{
    if n > 0 {
        assert forall|i: int| 0 <= i < n - 1 implies s.drop_first()[i] != c by {
            assert(s[i + 1] != c);
        }
        lemma_length_before(s.drop_first(), c, n - 1);
    }
}

/// No character before the first `c` is `c`.
pub(crate) proof fn lemma_before_first(s: Seq<char>, c: char, i: int)
    requires
        0 <= i < length_before(s, c),
    ensures
        i < s.len(),
        s[i] != c,
    decreases s.len(),
{
    if i > 0 {
        lemma_before_first(s.drop_first(), c, i - 1);
    }
}

/// The character that the first `c` is said to stand at is `c`.
pub(crate) proof fn lemma_at_first(s: Seq<char>, c: char)
    ensures
        length_before(s, c) <= s.len(),
        length_before(s, c) < s.len() ==> s[length_before(s, c) as int] == c,
    decreases s.len(),
{
    if s.len() > 0 && s[0] != c {
        lemma_at_first(s.drop_first(), c);
    }
}

/// Whether a character has the Unicode property `White_Space`.
pub fn char_is_whitespace(c: char) -> (result: bool)
    ensures
        result == is_whitespace(c),
{
    let n: u32 = c as u32;
    (0x09 <= n && n <= 0x0D) || n == 0x20 || n == 0x85 || n == 0xA0 || n == 0x1680 || (0x2000 <= n
        && n <= 0x200A) || n == 0x2028 || n == 0x2029 || n == 0x202F || n == 0x205F || n == 0x3000
}

/// The characters of a text.
pub fn chars_of(text: &str) -> (chars: Vec<char>)
    ensures
        chars@ == text@,
{
    let mut chars: Vec<char> = Vec::new();
    for c in it: text.chars()
        invariant
            it.seq() == text@,
            chars@ == text@.take(it.index()),
    {
        chars.push(c);
    }
    assert(text@.take(text@.len() as int) =~= text@);
    chars
}

/// The string of the characters of `chars` from `from` up to `to`.
pub fn string_of(chars: &Vec<char>, from: usize, to: usize) -> (text: String)
    requires
        from <= to <= chars@.len(),
    ensures
        text@ == chars@.subrange(from as int, to as int),
{
    let mut text = String::new();
    let mut i: usize = from;
    while i < to
        invariant
            from <= i <= to <= chars@.len(),
            text@ == chars@.subrange(from as int, i as int),
        decreases to - i,
    {
        text.push(chars[i]);
        i += 1;
        assert(text@ =~= chars@.subrange(from as int, i as int));
    }
    text
}

/// Where the characters of `chars` from `from` up to `to` end once the
/// trailing white space is gone.
pub fn end_of_trimmed(chars: &Vec<char>, from: usize, to: usize) -> (end: usize)
    requires
        from <= to <= chars@.len(),
    ensures
        from <= end <= to,
        chars@.subrange(from as int, end as int) == trim_end(
            chars@.subrange(from as int, to as int),
        ),
{
    let mut end: usize = to;
    while from < end && char_is_whitespace(chars[end - 1])
        invariant
            from <= end <= to <= chars@.len(),
            trim_end(chars@.subrange(from as int, end as int)) == trim_end(
                chars@.subrange(from as int, to as int),
            ),
        decreases end,
    {
        assert(chars@.subrange(from as int, end as int).drop_last() =~= chars@.subrange(
            from as int,
            end - 1,
        ));
        end -= 1;
    }
    end
}

/// Where the characters of `chars` from `from` up to `to` start once the
/// leading white space is gone.
pub fn start_of_trimmed(chars: &Vec<char>, from: usize, to: usize) -> (start: usize)
    requires
        from <= to <= chars@.len(),
    ensures
        from <= start <= to,
        chars@.subrange(start as int, to as int) == trim_start(
            chars@.subrange(from as int, to as int),
        ),
{
    let mut start: usize = from;
    while start < to && char_is_whitespace(chars[start])
        invariant
            from <= start <= to <= chars@.len(),
            trim_start(chars@.subrange(start as int, to as int)) == trim_start(
                chars@.subrange(from as int, to as int),
            ),
        decreases to - start,
    {
        assert(chars@.subrange(start as int, to as int).drop_first() =~= chars@.subrange(
            start + 1,
            to as int,
        ));
        start += 1;
    }
    start
}

/// The first position from `from` on that holds `c`, or the end.
pub fn position_of(chars: &Vec<char>, from: usize, c: char) -> (position: usize)
    requires
        from <= chars@.len(),
    ensures
        from <= position <= chars@.len(),
        position - from == length_before(chars@.skip(from as int), c),
{
    let mut position: usize = from;
    while position < chars.len() && chars[position] != c
        invariant
            from <= position <= chars@.len(),
            forall|i: int| from <= i < position ==> chars@[i] != c,
        decreases chars@.len() - position,
    {
        position += 1;
    }
    proof {
        lemma_length_before(chars@.skip(from as int), c, position - from);
    }
    position
}

/// Splits a text into lines, each without its trailing white space.
pub fn lines_of<'a>(text: &'a str) -> (lines: Vec<&'a str>)
    ensures
        texts(lines@) == trimmed_lines(text@),
{
    let chars = chars_of(text);
    let mut lines: Vec<&'a str> = Vec::new();
    let mut from: usize = 0;
    assert(text@.skip(0) =~= text@);
    assert(texts(lines@) + trimmed_lines(text@) =~= trimmed_lines(text@));
    while from < chars.len()
        invariant
            chars@ == text@,
            from <= chars@.len(),
            texts(lines@) + trimmed_lines(text@.skip(from as int)) == trimmed_lines(text@),
        decreases chars@.len() - from,
    {
        let ghost rest = text@.skip(from as int);
        let to = position_of(&chars, from, '\n');
        let end = end_of_trimmed(&chars, from, to);
        let line = text.substring_char(from, end);
        let ghost before = lines@;
        lines.push(line);
        proof {
            assert(rest.take(to - from) =~= text@.subrange(from as int, to as int));
            assert(texts(lines@) =~= texts(before).push(line@));
            if to < chars@.len() {
                assert(rest.skip(to - from + 1) =~= text@.skip(to + 1));
            } else {
                assert(text@.skip(chars@.len() as int) =~= Seq::empty());
            }
            assert(texts(lines@) + trimmed_lines(rest_after(rest, '\n'))
                =~= texts(before) + trimmed_lines(rest));
        }
        if to < chars.len() {
            from = to + 1;
        } else {
            from = to;
        }
    }
    proof {
        assert(text@.skip(from as int) =~= Seq::empty());
        assert(texts(lines@) + trimmed_lines(text@.skip(from as int)) =~= texts(lines@));
    }
    lines
}

/// What is left of `text` behind `prefix`, if it starts with that.
pub open spec fn stripped(text: Seq<char>, prefix: Seq<char>) -> Option<Seq<char>> {
    if prefix.is_prefix_of(text) {
        Some(text.skip(prefix.len() as int))
    } else {
        None
    }
}

/// Strips `prefix` from the front of `text`.
pub fn strip_prefix<'a>(text: &'a str, prefix: &str) -> (rest: Option<&'a str>)
    ensures
        match rest {
            Some(rest) => stripped(text@, prefix@) == Some(rest@),
            None => stripped(text@, prefix@) is None,
        },
{
    let chars = chars_of(text);
    let wanted = chars_of(prefix);
    if chars.len() < wanted.len() {
        return None;
    }
    let mut i: usize = 0;
    while i < wanted.len()
        invariant
            i <= wanted@.len() <= chars@.len(),
            chars@ == text@,
            wanted@ == prefix@,
            forall|j: int| 0 <= j < i ==> chars@[j] == wanted@[j],
        decreases wanted@.len() - i,
    {
        if chars[i] != wanted[i] {
            assert(text@.subrange(0, prefix@.len() as int)[i as int] != prefix@[i as int]);
            return None;
        }
        i += 1;
    }
    assert(text@.subrange(0, prefix@.len() as int) =~= prefix@);
    assert(text@.skip(prefix@.len() as int) =~= text@.subrange(
        prefix@.len() as int,
        text@.len() as int,
    ));
    Some(text.substring_char(wanted.len(), chars.len()))
}

/// Whether two texts are the same.
pub fn same_text(a: &str, b: &str) -> (same: bool)
    ensures
        same == (a@ == b@),
{
    match strip_prefix(a, b) {
        Some(rest) => {
            let same = rest.unicode_len() == 0;
            proof {
                if same {
                    assert(a@ =~= b@);
                }
            }
            same
        },
        None => {
            proof {
                assert(a@.subrange(0, a@.len() as int) =~= a@);
            }
            false
        },
    }
}

} // verus!
