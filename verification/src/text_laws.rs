//! What lines, trimming and stripping come to.

use vstd::prelude::*;

use crate::text;

verus! {

/// Which characters are white space.
pub proof fn law_white_space(c: char)
    ensures
        text::is_whitespace(c) <==> {
            let n = c as u32;
            ||| n == 0x09 || n == 0x0A || n == 0x0B || n == 0x0C || n == 0x0D || n == 0x20
            ||| n == 0x85 || n == 0xA0 || n == 0x1680
            ||| (0x2000 <= n && n <= 0x200A)
            ||| n == 0x2028 || n == 0x2029 || n == 0x202F || n == 0x205F || n == 0x3000
        },
{
}

/// Trimming the end takes away white space alone, and all of it: the rest is a
/// prefix that does not end in white space.
pub proof fn law_trim_end_takes_trailing_white_space(s: Seq<char>)
    ensures
        text::trim_end(s).len() <= s.len(),
        text::trim_end(s) == s.take(text::trim_end(s).len() as int),
        forall|i: int|
            text::trim_end(s).len() <= i < s.len() ==> text::is_whitespace(#[trigger] s[i]),
        text::trim_end(s).len() > 0 ==> !text::is_whitespace(
            s[text::trim_end(s).len() - 1],
        ),
    decreases s.len(),
{
    if s.len() > 0 && text::is_whitespace(s.last()) {
        law_trim_end_takes_trailing_white_space(s.drop_last());
        let n = text::trim_end(s).len() as int;
        assert(s.drop_last().take(n) =~= s.take(n));
        assert forall|i: int| n <= i < s.len() implies text::is_whitespace(#[trigger] s[i]) by {
            if i < s.len() - 1 {
                assert(s.drop_last()[i] == s[i]);
            }
        }
    } else {
        assert(s.take(s.len() as int) =~= s);
    }
}

/// Trimming the start takes away white space alone, and all of it: the rest is
/// a suffix that does not start with white space.
pub proof fn law_trim_start_takes_leading_white_space(s: Seq<char>)
    ensures
        text::trim_start(s).len() <= s.len(),
        text::trim_start(s) == s.skip(s.len() - text::trim_start(s).len()),
        forall|i: int|
            0 <= i < s.len() - text::trim_start(s).len() ==> text::is_whitespace(#[trigger] s[i]),
        text::trim_start(s).len() > 0 ==> !text::is_whitespace(
            s[s.len() - text::trim_start(s).len()],
        ),
    decreases s.len(),
{
    if s.len() > 0 && text::is_whitespace(s[0]) {
        let rest = s.drop_first();
        law_trim_start_takes_leading_white_space(rest);
        let n = s.len() - text::trim_start(s).len();
        assert(rest.skip(n - 1) =~= s.skip(n));
        assert forall|i: int| 0 <= i < n implies text::is_whitespace(#[trigger] s[i]) by {
            if i > 0 {
                assert(rest[i - 1] == s[i]);
            }
        }
    } else {
        assert(s.skip(0) =~= s);
    }
}

/// Trimming leaves a text as it is, but for the white space around it.
pub proof fn law_trim_takes_white_space_around(
    before: Seq<char>,
    core: Seq<char>,
    after: Seq<char>,
)
    requires
        forall|i: int| 0 <= i < before.len() ==> text::is_whitespace(#[trigger] before[i]),
        forall|i: int| 0 <= i < after.len() ==> text::is_whitespace(#[trigger] after[i]),
        core.len() > 0 ==> !text::is_whitespace(core[0]) && !text::is_whitespace(core.last()),
    ensures
        text::trim(before + core + after) == core,
        text::trim_end(core + after) == core,
{
    lemma_trim_end_drops(core, after);
    if core.len() > 0 {
        lemma_trim_end_drops(before + core, after);
        lemma_trim_start_drops(before, core);
    } else {
        let white = before + after;
        assert(before + core + after =~= Seq::<char>::empty() + white);
        assert forall|i: int| 0 <= i < white.len() implies text::is_whitespace(
            #[trigger] white[i],
        ) by {
            if i < before.len() {
                assert(white[i] == before[i]);
            } else {
                assert(white[i] == after[i - before.len()]);
            }
        }
        lemma_trim_end_drops(Seq::empty(), white);
        assert(core =~= Seq::<char>::empty());
    }
}

/// White space behind a text that does not end in it is dropped.
pub(crate) proof fn lemma_trim_end_drops(core: Seq<char>, after: Seq<char>)
    requires
        forall|i: int| 0 <= i < after.len() ==> text::is_whitespace(#[trigger] after[i]),
        core.len() > 0 ==> !text::is_whitespace(core.last()),
    ensures
        text::trim_end(core + after) == core,
    decreases after.len(),
{
    if after.len() == 0 {
        assert(core + after =~= core);
    } else {
        let s = core + after;
        assert(s.last() == after[after.len() - 1]);
        assert(s.drop_last() =~= core + after.drop_last());
        assert forall|i: int| 0 <= i < after.drop_last().len() implies text::is_whitespace(
            #[trigger] after.drop_last()[i],
        ) by {
            assert(after[i] == after.drop_last()[i]);
        }
        lemma_trim_end_drops(core, after.drop_last());
    }
}

/// White space before a text that does not start with it is dropped.
proof fn lemma_trim_start_drops(before: Seq<char>, core: Seq<char>)
    requires
        forall|i: int| 0 <= i < before.len() ==> text::is_whitespace(#[trigger] before[i]),
        core.len() > 0 ==> !text::is_whitespace(core[0]),
    ensures
        text::trim_start(before + core) == core,
    decreases before.len(),
{
    if before.len() == 0 {
        assert(before + core =~= core);
    } else {
        let s = before + core;
        assert(s[0] == before[0]);
        assert(s.drop_first() =~= before.drop_first() + core);
        assert forall|i: int| 0 <= i < before.drop_first().len() implies text::is_whitespace(
            #[trigger] before.drop_first()[i],
        ) by {
            assert(before[i + 1] == before.drop_first()[i]);
        }
        lemma_trim_start_drops(before.drop_first(), core);
    }
}

/// Nothing up to a character that is no white space is trimmed.
pub(crate) proof fn lemma_trim_end_keeps(front: Seq<char>, back: Seq<char>)
    requires
        front.len() > 0,
        !text::is_whitespace(front.last()),
    ensures
        text::trim_end(front + back) == front + text::trim_end(front + back).skip(
            front.len() as int,
        ),
{
    let s = front + back;
    law_trim_end_takes_trailing_white_space(s);
    let t = text::trim_end(s);
    if t.len() < front.len() {
        assert(text::is_whitespace(s[front.len() - 1]));
        assert(s[front.len() - 1] == front.last());
    }
    assert(t =~= front + t.skip(front.len() as int));
}

/// What stands before the first `c`: `c` is not in it, and it ends at `c` or at
/// the end of the text.
pub proof fn law_length_before_ends_at_the_first(s: Seq<char>, c: char)
    ensures
        text::length_before(s, c) <= s.len(),
        !s.take(text::length_before(s, c) as int).contains(c),
        text::length_before(s, c) < s.len() ==> s[text::length_before(s, c) as int] == c,
{
    text::lemma_at_first(s, c);
    let n = text::length_before(s, c) as int;
    assert forall|i: int| 0 <= i < n implies s.take(n)[i] != c by {
        text::lemma_before_first(s, c, i);
    }
}

/// An empty text has no lines.
pub proof fn law_no_text_no_lines()
    ensures
        text::trimmed_lines(Seq::empty()) == Seq::<Seq<char>>::empty(),
{
}

/// A text without a line break is one line.
pub proof fn law_one_line(line: Seq<char>)
    requires
        line.len() > 0,
        !line.contains('\n'),
    ensures
        text::trimmed_lines(line) == seq![text::trim_end(line)],
{
    text::lemma_length_before(line, '\n', line.len() as int);
    assert(line.take(line.len() as int) =~= line);
    law_no_text_no_lines();
    assert(text::trimmed_lines(line) =~= seq![text::trim_end(line)] + text::trimmed_lines(
        Seq::empty(),
    ));
}

/// Up to its first line break a text is one line, and behind it the lines go
/// on.
pub proof fn law_lines_end_at_line_breaks(line: Seq<char>, rest: Seq<char>)
    requires
        !line.contains('\n'),
    ensures
        text::trimmed_lines(line + seq!['\n'] + rest) == seq![text::trim_end(line)]
            + text::trimmed_lines(rest),
{
    let s = line + seq!['\n'] + rest;
    assert forall|i: int| 0 <= i < line.len() implies s[i] != '\n' by {
        assert(line.contains(line[i]));
    }
    text::lemma_length_before(s, '\n', line.len() as int);
    assert(s.take(line.len() as int) =~= line);
    assert(s.skip(line.len() + 1int) =~= rest);
}

/// The lines of a text that ends in a line break, and of one behind it, are
/// the lines of both.
pub proof fn law_lines_of_two_texts(first: Seq<char>, second: Seq<char>)
    requires
        first.len() > 0 ==> first.last() == '\n',
    ensures
        text::trimmed_lines(first + second) == text::trimmed_lines(first) + text::trimmed_lines(
            second,
        ),
    decreases first.len(),
{
    if first.len() == 0 {
        assert(first + second =~= second);
        assert(text::trimmed_lines(first) + text::trimmed_lines(second) =~= text::trimmed_lines(
            second,
        ));
    } else {
        let n = text::length_before(first, '\n') as int;
        law_length_before_ends_at_the_first(first, '\n');
        if n == first.len() {
            assert(first.take(n)[n - 1] == first.last());
            assert(first.take(n).contains('\n'));
        }
        let line = first.take(n);
        let rest = first.skip(n + 1);
        assert(first =~= line + seq!['\n'] + rest);
        law_lines_end_at_line_breaks(line, rest);
        law_lines_end_at_line_breaks(line, rest + second);
        assert(first + second =~= line + seq!['\n'] + (rest + second));
        if rest.len() > 0 {
            assert(rest.last() == first.last());
        }
        law_lines_of_two_texts(rest, second);
        assert(text::trimmed_lines(first + second) =~= text::trimmed_lines(first)
            + text::trimmed_lines(second));
    }
}

/// Stripping finds what stands behind a prefix, exactly when it is there.
pub proof fn law_stripping_finds_the_rest(prefix: Seq<char>, rest: Seq<char>, other: Seq<char>)
    ensures
        text::stripped(prefix + rest, prefix) == Some(rest),
        match text::stripped(other, prefix) {
            Some(found) => other == prefix + found,
            None => other.len() < prefix.len() || other.take(prefix.len() as int) != prefix,
        },
{
    let whole = prefix + rest;
    assert(whole.subrange(0, prefix.len() as int) =~= prefix);
    assert(whole.skip(prefix.len() as int) =~= rest);
    if prefix.is_prefix_of(other) {
        assert(other =~= prefix + other.skip(prefix.len() as int));
    } else if other.len() >= prefix.len() {
        assert(other.take(prefix.len() as int) =~= other.subrange(0, prefix.len() as int));
    }
}

/// The texts of a list are those of its members, one for one.
pub proof fn law_texts_are_those_of_the_members(slices: Seq<&str>, strings: Seq<String>)
    ensures
        text::texts(slices).len() == slices.len(),
        forall|i: int| 0 <= i < slices.len() ==> #[trigger] text::texts(slices)[i] == slices[i]@,
        text::string_texts(strings).len() == strings.len(),
        forall|i: int|
            0 <= i < strings.len() ==> #[trigger] text::string_texts(strings)[i] == strings[i]@,
{
}

} // verus!
