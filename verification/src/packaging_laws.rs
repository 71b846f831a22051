//! What the packaging readers come to on the documents they are meant for.

use vstd::prelude::*;

use crate::packaging;
use crate::packaging::{ArrayMode, MetadataError};
use crate::text;
use crate::text_laws;

verus! {

/// A section is what stands between its header and the next table, whatever
/// stands around it.
pub proof fn law_section_is_what_stands_under_its_header(
    before: Seq<Seq<char>>,
    header: Seq<char>,
    body: Seq<Seq<char>>,
    after: Seq<Seq<char>>,
)
    requires
        !before.contains(header),
        forall|i: int|
            0 <= i < body.len() && (#[trigger] body[i]).len() > 0 ==> body[i][0] != '[',
        after.len() > 0 ==> after[0].len() > 0 && after[0][0] == '[',
    ensures
        packaging::section_lines(before + seq![header] + body + after, header) == Some(body),
    decreases before.len(),
{
    let lines = before + seq![header] + body + after;
    if before.len() == 0 {
        assert(lines[0] == header);
        assert(lines.drop_first() =~= body + after);
        lemma_until_table_takes(body, after);
    } else {
        assert(lines[0] == before[0]);
        assert(before.contains(before[0]));
        let fewer = before.drop_first();
        assert(lines.drop_first() =~= fewer + seq![header] + body + after);
        assert forall|i: int| 0 <= i < fewer.len() implies fewer[i] != header by {
            assert(before.contains(before[i + 1]));
        }
        law_section_is_what_stands_under_its_header(fewer, header, body, after);
    }
}

/// The lines up to the next table are taken.
proof fn lemma_until_table_takes(body: Seq<Seq<char>>, after: Seq<Seq<char>>)
    requires
        forall|i: int|
            0 <= i < body.len() && (#[trigger] body[i]).len() > 0 ==> body[i][0] != '[',
        after.len() > 0 ==> after[0].len() > 0 && after[0][0] == '[',
    ensures
        packaging::until_table(body + after) == body,
    decreases body.len(),
{
    let lines = body + after;
    if body.len() == 0 {
        assert(lines =~= after);
        assert(packaging::until_table(lines) =~= body);
    } else {
        assert(lines[0] == body[0]);
        assert(lines.drop_first() =~= body.drop_first() + after);
        assert forall|i: int|
            0 <= i < body.drop_first().len() && (#[trigger] body.drop_first()[i]).len()
                > 0 implies body.drop_first()[i][0] != '[' by {
            assert(body[i + 1] == body.drop_first()[i]);
        }
        lemma_until_table_takes(body.drop_first(), after);
        assert(packaging::until_table(lines) =~= body);
    }
}

/// There is a section exactly when some line of the document is its header.
pub proof fn law_section_is_found_iff_its_header_is_there(document: Seq<char>, header: Seq<char>)
    ensures
        packaging::section_of(document, header) is Some <==> text::trimmed_lines(
            document,
        ).contains(header),
        packaging::section_of(document, header) == packaging::section_lines(
            text::trimmed_lines(document),
            header,
        ),
{
    lemma_section_found(text::trimmed_lines(document), header);
}

/// There is a section exactly when some line is its header.
proof fn lemma_section_found(lines: Seq<Seq<char>>, header: Seq<char>)
    ensures
        packaging::section_lines(lines, header) is Some <==> lines.contains(header),
    decreases lines.len(),
{
    if lines.len() > 0 {
        let rest = lines.drop_first();
        lemma_section_found(rest, header);
        if lines[0] == header {
            assert(lines.contains(lines[0]));
        } else {
            if rest.contains(header) {
                let i = choose|i: int| 0 <= i < rest.len() && rest[i] == header;
                assert(lines[i + 1] == header);
            }
            if lines.contains(header) {
                let i = choose|i: int| 0 <= i < lines.len() && lines[i] == header;
                assert(rest[i - 1] == header);
            }
        }
    }
}

/// The first line with a prefix is found: no line before it has the prefix.
pub proof fn law_first_with_prefix_is_the_first(lines: Seq<Seq<char>>, prefix: Seq<char>)
    ensures
        packaging::first_with_prefix(lines, prefix) <= lines.len(),
        forall|i: int|
            0 <= i < packaging::first_with_prefix(lines, prefix) ==> !(prefix.len() <= (
            #[trigger] lines[i]).len() && lines[i].take(prefix.len() as int) == prefix),
        packaging::first_with_prefix(lines, prefix) < lines.len() ==> {
            let line = lines[packaging::first_with_prefix(lines, prefix) as int];
            prefix.len() <= line.len() && line.take(prefix.len() as int) == prefix
        },
    decreases lines.len(),
{
    if lines.len() > 0 {
        let head = lines[0];
        if prefix.len() <= head.len() {
            assert(head.take(prefix.len() as int) =~= head.subrange(0, prefix.len() as int));
        }
        if !prefix.is_prefix_of(head) {
            let rest = lines.drop_first();
            law_first_with_prefix_is_the_first(rest, prefix);
            let n = packaging::first_with_prefix(lines, prefix) as int;
            assert forall|i: int| 0 <= i < n implies !(prefix.len() <= (
            #[trigger] lines[i]).len() && lines[i].take(prefix.len() as int) == prefix) by {
                if i > 0 {
                    assert(rest[i - 1] == lines[i]);
                }
            }
            if n < lines.len() {
                assert(rest[n - 1] == lines[n]);
            }
        }
    }
}

/// What a Debian list is read from: the first line of the section that starts
/// with the key, an equals sign and a quote; it holds what stands between
/// there and the quote at the end of that line.
pub proof fn law_deb_value_is_what_is_quoted(
    document: Seq<char>,
    key: Seq<char>,
    before: Seq<Seq<char>>,
    value: Seq<char>,
    after: Seq<Seq<char>>,
)
    requires
        packaging::section_of(document, "[package.metadata.deb]"@) == Some(
            before + seq![key + " = \""@ + value + seq!['"']] + after,
        ),
        forall|i: int, rest: Seq<char>|
            0 <= i < before.len() ==> #[trigger] before[i] != #[trigger] (key + " = \""@ + rest),
    ensures
        packaging::deb_value(document, key) == Ok::<Seq<char>, MetadataError>(value),
{
    let prefix = key + " = \""@;
    let line = prefix + value + seq!['"'];
    let lines = before + seq![line] + after;
    law_first_with_prefix_is_the_first(lines, prefix);
    let n = packaging::first_with_prefix(lines, prefix) as int;
    if n < before.len() {
        let found = before[n];
        assert(lines[n] == found);
        assert(found =~= prefix + found.skip(prefix.len() as int));
    }
    assert(lines[before.len() as int] == line);
    assert(line.take(prefix.len() as int) =~= prefix);
    assert(n == before.len());
    assert(line.skip(prefix.len() as int) =~= value + seq!['"']);
    assert((value + seq!['"']).drop_last() =~= value);
}

/// Why a Debian list cannot be read: the section is missing, or no line of it
/// is for the key, or the line does not end in a quote behind the first.
pub proof fn law_deb_value_errors(document: Seq<char>, key: Seq<char>)
    ensures
        packaging::deb_value(document, key) == Err::<Seq<char>, _>(MetadataError::NoSection)
            <==> !text::trimmed_lines(document).contains("[package.metadata.deb]"@),
        packaging::section_of(document, "[package.metadata.deb]"@) matches Some(lines) ==> (
        packaging::deb_value(document, key) == Err::<Seq<char>, _>(MetadataError::NoKey)
            <==> forall|i: int, rest: Seq<char>|
            0 <= i < lines.len() ==> #[trigger] lines[i] != #[trigger] (key + " = \""@ + rest)),
        packaging::deb_value(document, key) matches Err(error) ==> error
            == MetadataError::NoSection || error == MetadataError::NoKey || error
            == MetadataError::NotOneLine,
{
    law_section_is_found_iff_its_header_is_there(document, "[package.metadata.deb]"@);
    if let Some(lines) = packaging::section_of(document, "[package.metadata.deb]"@) {
        let prefix = key + " = \""@;
        law_first_with_prefix_is_the_first(lines, prefix);
        let n = packaging::first_with_prefix(lines, prefix) as int;
        if n < lines.len() {
            assert(lines[n] =~= prefix + lines[n].skip(prefix.len() as int));
        } else {
            assert forall|i: int, rest: Seq<char>| 0 <= i < lines.len() implies #[trigger] lines[i]
                != #[trigger] (key + " = \""@ + rest) by {
                let whole = key + " = \""@ + rest;
                assert(whole.take(prefix.len() as int) =~= prefix);
            }
        }
    }
}

/// A package name is the longest prefix of the trimmed item that holds neither
/// a space nor an opening bracket: it is all of the item, or one of the two
/// follows it there.
pub proof fn law_name_ends_at_the_first_space_or_bracket(item: Seq<char>)
    ensures
        ({
            let whole = text::trim(item);
            let name = packaging::package_name(item);
            &&& name.len() <= whole.len()
            &&& name == whole.take(name.len() as int)
            &&& forall|i: int|
                0 <= i < name.len() ==> #[trigger] name[i] != ' ' && name[i] != '('
            &&& name.len() < whole.len() ==> whole[name.len() as int] == ' ' || whole[name.len() as int]
                == '('
        }),
{
    lemma_name_end(text::trim(item));
}

/// Where a name ends.
proof fn lemma_name_end(s: Seq<char>)
    ensures
        packaging::name_length(s) <= s.len(),
        forall|i: int|
            0 <= i < packaging::name_length(s) ==> #[trigger] s[i] != ' ' && s[i] != '(',
        packaging::name_length(s) < s.len() ==> s[packaging::name_length(s) as int] == ' '
            || s[packaging::name_length(s) as int] == '(',
    decreases s.len(),
{
    if s.len() > 0 && s[0] != ' ' && s[0] != '(' {
        let rest = s.drop_first();
        lemma_name_end(rest);
        assert forall|i: int| 0 <= i < packaging::name_length(s) implies #[trigger] s[i] != ' '
            && s[i] != '(' by {
            if i > 0 {
                assert(rest[i - 1] == s[i]);
            }
        }
    }
}

/// A bare package name reads back as it is, whatever white space stands around
/// it and whatever constraint follows it.
pub proof fn law_names_read_back(
    before: Seq<char>,
    name: Seq<char>,
    constraint: Seq<char>,
    after: Seq<char>,
)
    requires
        forall|i: int| 0 <= i < before.len() ==> text::is_whitespace(#[trigger] before[i]),
        forall|i: int| 0 <= i < after.len() ==> text::is_whitespace(#[trigger] after[i]),
        name.len() > 0,
        forall|i: int|
            0 <= i < name.len() ==> #[trigger] name[i] != '(' && !text::is_whitespace(name[i]),
        constraint.len() > 0 ==> (constraint[0] == ' ' || constraint[0] == '(')
            && !text::is_whitespace(constraint.last()),
    ensures
        packaging::package_name(before + name + constraint + after) == name,
{
    let core = name + constraint;
    assert(core[0] == name[0]);
    assert(core.last() == if constraint.len() > 0 {
        constraint.last()
    } else {
        name[name.len() - 1]
    });
    text_laws::law_trim_takes_white_space_around(before, core, after);
    assert(before + name + constraint + after =~= before + core + after);
    law_name_ends_at_the_first_space_or_bracket(before + core + after);
    let found = packaging::package_name(before + core + after);
    text_laws::law_white_space(' ');
    if found.len() < name.len() {
        assert(core[found.len() as int] == name[found.len() as int]);
    }
    if found.len() > name.len() {
        assert(found[name.len() as int] == constraint[0]);
    }
    assert(core.take(name.len() as int) =~= name);
}

/// A list without a comma names one package.
pub proof fn law_one_item_list(item: Seq<char>)
    requires
        !item.contains(','),
    ensures
        packaging::package_names(item) == seq![packaging::package_name(item)],
{
    assert forall|i: int| 0 <= i < item.len() implies item[i] != ',' by {
        assert(item.contains(item[i]));
    }
    text::lemma_length_before(item, ',', item.len() as int);
}

/// Commas separate the items of a list: one item each, in order.
pub proof fn law_commas_separate_items(item: Seq<char>, rest: Seq<char>)
    requires
        !item.contains(','),
    ensures
        packaging::package_names(item + seq![','] + rest) == seq![packaging::package_name(item)]
            + packaging::package_names(rest),
{
    let list = item + seq![','] + rest;
    assert forall|i: int| 0 <= i < item.len() implies list[i] != ',' by {
        assert(item.contains(item[i]));
    }
    text::lemma_length_before(list, ',', item.len() as int);
    assert(list.take(item.len() as int) =~= item);
    assert(list.skip(item.len() + 1int) =~= rest);
}

/// A Debian list reads as the items of its quoted value.
pub proof fn law_deb_packages_are_those_of_the_value(document: Seq<char>, key: Seq<char>)
    ensures
        match packaging::deb_value(document, key) {
            Ok(value) => packaging::deb_packages(document, key) == Ok::<
                Seq<Seq<char>>,
                MetadataError,
            >(packaging::package_names(value)),
            Err(error) => packaging::deb_packages(document, key) == Err::<
                Seq<Seq<char>>,
                MetadataError,
            >(error),
        },
{
}

/// Names that are written out with a comma and a space between them.
pub open spec fn comma_separated(names: Seq<Seq<char>>) -> Seq<char>
    decreases names.len(),
{
    if names.len() == 0 {
        Seq::empty()
    } else if names.len() == 1 {
        names[0]
    } else {
        names[0] + seq![',', ' '] + comma_separated(names.drop_first())
    }
}

/// A list of bare names reads back as those names, character for character.
pub proof fn law_name_lists_read_back(names: Seq<Seq<char>>)
    requires
        names.len() > 0,
        forall|i: int, j: int|
            0 <= i < names.len() && 0 <= j < names[i].len() ==> (#[trigger] names[i][j]) != '('
                && names[i][j] != ',' && !text::is_whitespace(names[i][j]),
        forall|i: int| 0 <= i < names.len() ==> (#[trigger] names[i]).len() > 0,
    ensures
        packaging::package_names(comma_separated(names)) == names,
        packaging::package_names(seq![' '] + comma_separated(names)) == names,
    decreases names.len(),
{
    let none = Seq::<char>::empty();
    let space = seq![' '];
    let name = names[0];
    text_laws::law_white_space(' ');
    assert forall|i: int| 0 <= i < name.len() implies name[i] != ',' by {
        assert(names[0][i] != ',');
    }
    assert forall|i: int| 0 <= i < name.len() implies #[trigger] name[i] != '('
        && !text::is_whitespace(name[i]) by {
        assert(names[0][i] != '(');
    }
    law_names_read_back(none, name, none, none);
    law_names_read_back(space, name, none, none);
    assert(none + name + none + none =~= name);
    assert(space + name + none + none =~= space + name);
    let spaced = space + name;
    assert forall|i: int| 0 <= i < spaced.len() implies spaced[i] != ',' by {
        if i > 0 {
            assert(spaced[i] == name[i - 1]);
        }
    }
    if names.len() == 1 {
        law_one_item_list(name);
        law_one_item_list(spaced);
        assert(names =~= seq![name]);
    } else {
        let rest = names.drop_first();
        assert forall|i: int, j: int|
            0 <= i < rest.len() && 0 <= j < rest[i].len() implies (#[trigger] rest[i][j]) != '('
            && rest[i][j] != ',' && !text::is_whitespace(rest[i][j]) by {
            assert(names[i + 1][j] != '(');
        }
        assert forall|i: int| 0 <= i < rest.len() implies (#[trigger] rest[i]).len() > 0 by {
            assert(names[i + 1].len() > 0);
        }
        law_name_lists_read_back(rest);
        let tail = space + comma_separated(rest);
        law_commas_separate_items(name, tail);
        law_commas_separate_items(spaced, tail);
        assert(comma_separated(names) =~= name + seq![','] + tail);
        assert(space + comma_separated(names) =~= spaced + seq![','] + tail);
        assert(names =~= seq![name] + rest);
    }
}

/// A quoted item is taken whole, character for character: whatever stands
/// between the quotes, brackets, number signs and line breaks included.
pub proof fn law_quoted_items_are_taken_whole(
    item: Seq<char>,
    rest: Seq<char>,
    items: Seq<Seq<char>>,
)
    requires
        !item.contains('\''),
    ensures
        packaging::items_of(
            seq!['\''] + item + seq!['\''] + rest,
            ArrayMode::Plain,
            items,
        ) == packaging::items_of(rest, ArrayMode::Plain, items.push(item)),
{
    let whole = seq!['\''] + item + seq!['\''] + rest;
    assert(whole.drop_first() =~= item + seq!['\''] + rest);
    lemma_quoted(Seq::empty(), item, rest, items);
    assert(Seq::<char>::empty() + item =~= item);
}

/// Inside quotes every character but the quote joins the item.
proof fn lemma_quoted(
    held: Seq<char>,
    item: Seq<char>,
    rest: Seq<char>,
    items: Seq<Seq<char>>,
)
    requires
        !item.contains('\''),
    ensures
        packaging::items_of(item + seq!['\''] + rest, ArrayMode::Quoted(held), items)
            == packaging::items_of(rest, ArrayMode::Plain, items.push(held + item)),
    decreases item.len(),
{
    let s = item + seq!['\''] + rest;
    if item.len() == 0 {
        assert(s.drop_first() =~= rest);
        assert(held + item =~= held);
    } else {
        assert(item.contains(item[0]));
        let fewer = item.drop_first();
        assert(s.drop_first() =~= fewer + seq!['\''] + rest);
        assert forall|i: int| 0 <= i < fewer.len() implies fewer[i] != '\'' by {
            assert(item.contains(item[i + 1]));
        }
        lemma_quoted(held.push(item[0]), fewer, rest, items);
        assert(held.push(item[0]) + fewer =~= held + item);
    }
}

/// A quote that is never closed swallows the rest.
pub proof fn law_open_quotes_swallow_the_rest(
    held: Seq<char>,
    rest: Seq<char>,
    items: Seq<Seq<char>>,
)
    requires
        !rest.contains('\''),
    ensures
        packaging::items_of(rest, ArrayMode::Quoted(held), items) is None,
    decreases rest.len(),
{
    if rest.len() > 0 {
        assert(rest.contains(rest[0]));
        let fewer = rest.drop_first();
        assert forall|i: int| 0 <= i < fewer.len() implies fewer[i] != '\'' by {
            assert(rest.contains(rest[i + 1]));
        }
        law_open_quotes_swallow_the_rest(held.push(rest[0]), fewer, items);
    }
}

/// Between items every character is passed over but a quote, which opens an
/// item, a number sign, which starts a comment, and the closing bracket, which
/// ends the array.
pub proof fn law_between_items(c: char, rest: Seq<char>, items: Seq<Seq<char>>)
    ensures
        c != '\'' && c != '#' && c != ')' ==> packaging::items_of(
            seq![c] + rest,
            ArrayMode::Plain,
            items,
        ) == packaging::items_of(rest, ArrayMode::Plain, items),
        packaging::items_of(seq![')'] + rest, ArrayMode::Plain, items) == Some(items),
        packaging::items_of(Seq::empty(), ArrayMode::Plain, items) is None,
{
    assert((seq![c] + rest).drop_first() =~= rest);
}

/// A comment runs to the end of its line, and adds nothing.
pub proof fn law_comments_run_to_the_end_of_the_line(
    comment: Seq<char>,
    rest: Seq<char>,
    items: Seq<Seq<char>>,
)
    requires
        !comment.contains('\n'),
    ensures
        packaging::items_of(
            seq!['#'] + comment + seq!['\n'] + rest,
            ArrayMode::Plain,
            items,
        ) == packaging::items_of(rest, ArrayMode::Plain, items),
{
    let whole = seq!['#'] + comment + seq!['\n'] + rest;
    assert(whole.drop_first() =~= comment + seq!['\n'] + rest);
    lemma_comment(comment, rest, items);
}

/// Inside a comment every character but the line break is passed over.
proof fn lemma_comment(comment: Seq<char>, rest: Seq<char>, items: Seq<Seq<char>>)
    requires
        !comment.contains('\n'),
    ensures
        packaging::items_of(comment + seq!['\n'] + rest, ArrayMode::Comment, items)
            == packaging::items_of(rest, ArrayMode::Plain, items),
    decreases comment.len(),
{
    let s = comment + seq!['\n'] + rest;
    if comment.len() == 0 {
        assert(s.drop_first() =~= rest);
    } else {
        assert(comment.contains(comment[0]));
        let fewer = comment.drop_first();
        assert(s.drop_first() =~= fewer + seq!['\n'] + rest);
        assert forall|i: int| 0 <= i < fewer.len() implies fewer[i] != '\n' by {
            assert(comment.contains(comment[i + 1]));
        }
        lemma_comment(fewer, rest, items);
    }
}

/// Items in single quotes, a space between them.
pub open spec fn quoted(items: Seq<Seq<char>>) -> Seq<char>
    decreases items.len(),
{
    if items.len() == 0 {
        Seq::empty()
    } else if items.len() == 1 {
        seq!['\''] + items[0] + seq!['\'']
    } else {
        quoted(items.drop_last()) + seq![' ', '\''] + items.last() + seq!['\'']
    }
}

/// A bash array reads back as its items, character for character, whatever
/// stands on the lines before it and behind its closing bracket.
pub proof fn law_array_reads_back(
    before: Seq<char>,
    name: Seq<char>,
    items: Seq<Seq<char>>,
    after: Seq<char>,
)
    requires
        before.len() > 0 ==> before.last() == '\n',
        forall|i: int, rest: Seq<char>|
            0 <= i < text::trimmed_lines(before).len() ==> #[trigger] text::trimmed_lines(
                before,
            )[i] != #[trigger] (name + "=("@ + rest),
        !name.contains('\n'),
        forall|i: int|
            0 <= i < items.len() ==> !(#[trigger] items[i]).contains('\'') && !items[i].contains(
                '\n',
            ),
    ensures
        packaging::array_items(before + name + "=("@ + quoted(items) + seq![')'] + after, name)
            == Ok::<Seq<Seq<char>>, MetadataError>(items),
{
    reveal_strlit("=(");
    let open = name + "=("@;
    let front = open + quoted(items) + seq![')'];
    let document = before + name + "=("@ + quoted(items) + seq![')'] + after;
    let opened = front + after;
    assert(document =~= before + opened);
    text_laws::law_lines_of_two_texts(before, opened);
    let lines = text::trimmed_lines(document);
    let ahead = text::trimmed_lines(before);

    // The line that opens the array keeps everything up to the bracket.
    lemma_quoted_has_no_line_break(items);
    assert forall|i: int| 0 <= i < front.len() implies front[i] != '\n' by {
        if i < name.len() {
            assert(name.contains(name[i]));
        } else if open.len() <= i < front.len() - 1 {
            assert(front[i] == quoted(items)[i - open.len()]);
        }
    }
    let n = text::length_before(after, '\n') as int;
    text_laws::law_length_before_ends_at_the_first(after, '\n');
    let line = front + after.take(n);
    assert forall|i: int| 0 <= i < line.len() implies line[i] != '\n' by {
        if i >= front.len() {
            assert(after.take(n).contains(after.take(n)[i - front.len()]));
        }
    }
    if n < after.len() {
        let rest = after.skip(n + 1);
        assert(opened =~= line + seq!['\n'] + rest);
        text_laws::law_lines_end_at_line_breaks(line, rest);
    } else {
        assert(opened =~= line);
        text_laws::law_one_line(line);
    }
    let first = text::trim_end(line);
    assert(text::trimmed_lines(opened)[0] == first);
    text_laws::law_white_space(')');
    text_laws::lemma_trim_end_keeps(front, after.take(n));
    let end = first.skip(front.len() as int);
    assert(first == front + end);

    // It is the first that starts with the opening.
    law_first_with_prefix_is_the_first(lines, open);
    let k = packaging::first_with_prefix(lines, open) as int;
    assert(lines[ahead.len() as int] == first);
    assert(first.take(open.len() as int) =~= open);
    if k < ahead.len() {
        assert(lines[k] == ahead[k]);
        assert(ahead[k] =~= name + "=("@ + ahead[k].skip(open.len() as int));
    }
    assert(k == ahead.len());

    // From there the items are read up to the bracket.
    let rest = lines.skip(k);
    assert(rest[0] == first);
    let tail = end + seq!['\n'] + packaging::joined(rest.drop_first());
    let stream = packaging::joined(rest).skip(open.len() as int);
    assert(stream =~= quoted(items) + (seq![')'] + tail));
    lemma_quoted_items(items, seq![')'] + tail, Seq::empty());
    law_between_items(')', tail, Seq::<Seq<char>>::empty() + items);
    assert(Seq::<Seq<char>>::empty() + items =~= items);
}

/// Quoted items hold a line break only where an item does.
proof fn lemma_quoted_has_no_line_break(items: Seq<Seq<char>>)
    requires
        forall|i: int| 0 <= i < items.len() ==> !(#[trigger] items[i]).contains('\n'),
    ensures
        forall|i: int| 0 <= i < quoted(items).len() ==> #[trigger] quoted(items)[i] != '\n',
    decreases items.len(),
{
    let s = quoted(items);
    if items.len() == 1 {
        let item = items[0];
        assert forall|i: int| 0 <= i < s.len() implies #[trigger] s[i] != '\n' by {
            if 0 < i < s.len() - 1 {
                assert(s[i] == item[i - 1]);
                assert(item.contains(item[i - 1]));
            }
        }
    } else if items.len() > 1 {
        let fewer = items.drop_last();
        assert forall|i: int| 0 <= i < fewer.len() implies !(#[trigger] fewer[i]).contains(
            '\n',
        ) by {
            assert(items[i] == fewer[i]);
        }
        lemma_quoted_has_no_line_break(fewer);
        let q = quoted(fewer);
        let item = items[items.len() - 1];
        assert forall|i: int| 0 <= i < s.len() implies #[trigger] s[i] != '\n' by {
            if i < q.len() {
                assert(s[i] == q[i]);
            } else if q.len() + 2 <= i < s.len() - 1 {
                assert(s[i] == item[i - q.len() - 2]);
                assert(item.contains(item[i - q.len() - 2]));
            }
        }
    }
}

/// Quoted items are read one after the other.
proof fn lemma_quoted_items(
    items: Seq<Seq<char>>,
    rest: Seq<char>,
    held: Seq<Seq<char>>,
)
    requires
        forall|i: int| 0 <= i < items.len() ==> !(#[trigger] items[i]).contains('\''),
    ensures
        packaging::items_of(quoted(items) + rest, ArrayMode::Plain, held) == packaging::items_of(
            rest,
            ArrayMode::Plain,
            held + items,
        ),
    decreases items.len(),
{
    if items.len() == 0 {
        assert(quoted(items) + rest =~= rest);
        assert(held + items =~= held);
    } else if items.len() == 1 {
        law_quoted_items_are_taken_whole(items[0], rest, held);
        assert(quoted(items) + rest =~= seq!['\''] + items[0] + seq!['\''] + rest);
        assert(held + items =~= held.push(items[0]));
    } else {
        let fewer = items.drop_last();
        let last = items[items.len() - 1];
        assert forall|i: int| 0 <= i < fewer.len() implies !(#[trigger] fewer[i]).contains(
            '\'',
        ) by {
            assert(items[i] == fewer[i]);
        }
        let item = seq!['\''] + last + seq!['\''] + rest;
        lemma_quoted_items(fewer, seq![' '] + item, held);
        law_between_items(' ', item, held + fewer);
        law_quoted_items_are_taken_whole(last, rest, held + fewer);
        assert(quoted(items) + rest =~= quoted(fewer) + (seq![' '] + item));
        assert((held + fewer).push(last) =~= held + items);
    }
}

/// An array is read from the first line that starts with its name and an
/// opening bracket, on through the lines that follow, with a line break behind
/// each.
pub proof fn law_arrays_span_lines(
    document: Seq<char>,
    name: Seq<char>,
    before: Seq<Seq<char>>,
    first: Seq<char>,
    after: Seq<Seq<char>>,
)
    requires
        text::trimmed_lines(document) == before + seq![name + "=("@ + first] + after,
        forall|i: int, rest: Seq<char>|
            0 <= i < before.len() ==> #[trigger] before[i] != #[trigger] (name + "=("@ + rest),
    ensures
        packaging::array_items(document, name) == match packaging::items_of(
            first + seq!['\n'] + packaging::joined(after),
            ArrayMode::Plain,
            Seq::empty(),
        ) {
            Some(items) => Ok::<Seq<Seq<char>>, MetadataError>(items),
            None => Err(MetadataError::NotClosed),
        },
{
    let open = name + "=("@;
    let line = open + first;
    let lines = text::trimmed_lines(document);
    law_first_with_prefix_is_the_first(lines, open);
    let n = packaging::first_with_prefix(lines, open) as int;
    if n < before.len() {
        assert(lines[n] == before[n]);
        assert(before[n] =~= open + before[n].skip(open.len() as int));
    }
    assert(lines[before.len() as int] == line);
    assert(line.take(open.len() as int) =~= open);
    assert(n == before.len());
    let rest = lines.skip(n);
    assert(rest[0] == line);
    assert(rest.drop_first() =~= after);
    assert(packaging::joined(rest).skip(open.len() as int) =~= first + seq!['\n']
        + packaging::joined(after));
}

/// Lines put back together are each followed by one line break.
pub proof fn law_joined_lines(line: Seq<char>, rest: Seq<Seq<char>>)
    ensures
        packaging::joined(Seq::empty()) == Seq::<char>::empty(),
        packaging::joined(seq![line] + rest) == line + seq!['\n'] + packaging::joined(rest),
{
    assert((seq![line] + rest).drop_first() =~= rest);
}

/// No array is found exactly when no line starts with its name and an opening
/// bracket.
pub proof fn law_array_is_found_iff_a_line_opens_it(document: Seq<char>, name: Seq<char>)
    ensures
        packaging::array_items(document, name) == Err::<Seq<Seq<char>>, _>(MetadataError::NoArray)
            <==> forall|i: int, rest: Seq<char>|
            0 <= i < text::trimmed_lines(document).len() ==> #[trigger] text::trimmed_lines(
                document,
            )[i] != #[trigger] (name + "=("@ + rest),
{
    let open = name + "=("@;
    let lines = text::trimmed_lines(document);
    law_first_with_prefix_is_the_first(lines, open);
    let n = packaging::first_with_prefix(lines, open) as int;
    if n < lines.len() {
        assert(lines[n] =~= open + lines[n].skip(open.len() as int));
    } else {
        assert forall|i: int, rest: Seq<char>| 0 <= i < lines.len() implies #[trigger] lines[i]
            != #[trigger] (name + "=("@ + rest) by {
            let whole = name + "=("@ + rest;
            assert(whole.take(open.len() as int) =~= open);
        }
    }
}

/// A section starts behind the first line that is its header.
proof fn lemma_section_from(before: Seq<Seq<char>>, header: Seq<char>, rest: Seq<Seq<char>>)
    requires
        !before.contains(header),
    ensures
        packaging::section_lines(before + seq![header] + rest, header) == Some(
            packaging::until_table(rest),
        ),
    decreases before.len(),
{
    let lines = before + seq![header] + rest;
    if before.len() == 0 {
        assert(lines[0] == header);
        assert(lines.drop_first() =~= rest);
    } else {
        assert(lines[0] == before[0]);
        assert(before.contains(before[0]));
        let fewer = before.drop_first();
        assert(lines.drop_first() =~= fewer + seq![header] + rest);
        assert forall|i: int| 0 <= i < fewer.len() implies fewer[i] != header by {
            assert(before.contains(before[i + 1]));
        }
        lemma_section_from(fewer, header, rest);
    }
}

/// The header of the Debian section is a line as it stands.
proof fn lemma_deb_header()
    ensures
        !"[package.metadata.deb]"@.contains('\n'),
        text::trim_end("[package.metadata.deb]"@) == "[package.metadata.deb]"@,
{
    reveal_strlit("[package.metadata.deb]");
    let header = "[package.metadata.deb]"@;
    assert(header.len() == 22);
    assert(header =~= seq![
        '[', 'p', 'a', 'c', 'k', 'a', 'g', 'e', '.', 'm', 'e', 't', 'a', 'd', 'a', 't', 'a', '.',
        'd', 'e', 'b', ']',
    ]);
    assert(header.last() == ']');
    text_laws::law_white_space(']');
}

/// A Debian list of bare names reads back as those names, character for
/// character, whatever stands before its section and behind its line.
pub proof fn law_deb_list_reads_back(
    before: Seq<char>,
    key: Seq<char>,
    names: Seq<Seq<char>>,
    after: Seq<char>,
)
    requires
        before.len() > 0 ==> before.last() == '\n',
        !text::trimmed_lines(before).contains("[package.metadata.deb]"@),
        !key.contains('\n'),
        key.len() > 0 ==> key[0] != '[',
        names.len() > 0,
        forall|i: int, j: int|
            0 <= i < names.len() && 0 <= j < names[i].len() ==> (#[trigger] names[i][j]) != '('
                && names[i][j] != ',' && !text::is_whitespace(names[i][j]),
        forall|i: int| 0 <= i < names.len() ==> (#[trigger] names[i]).len() > 0,
    ensures
        packaging::deb_packages(
            before + "[package.metadata.deb]"@ + seq!['\n'] + key + " = \""@ + comma_separated(names)
                + seq!['"', '\n'] + after,
            key,
        ) == Ok::<Seq<Seq<char>>, MetadataError>(names),
{
    reveal_strlit(" = \"");
    let header = "[package.metadata.deb]"@;
    let value = comma_separated(names);
    let line = key + " = \""@ + value + seq!['"'];
    let document = before + header + seq!['\n'] + key + " = \""@ + value + seq!['"', '\n'] + after;
    let from_line = line + seq!['\n'] + after;
    let from_header = header + seq!['\n'] + from_line;
    assert(document =~= before + from_header);
    lemma_deb_header();
    lemma_no_line_break_in_names(names);
    assert forall|i: int| 0 <= i < line.len() implies line[i] != '\n' by {
        if i < key.len() {
            assert(key.contains(key[i]));
        } else if key.len() + 4 <= i < line.len() - 1 {
            assert(line[i] == value[i - key.len() - 4]);
        }
    }
    text_laws::law_lines_of_two_texts(before, from_header);
    text_laws::law_lines_end_at_line_breaks(header, from_line);
    text_laws::law_lines_end_at_line_breaks(line, after);
    text_laws::law_white_space('"');
    assert(line.last() == '"');
    assert(text::trim_end(line) == line);
    let rest = seq![line] + text::trimmed_lines(after);
    let ahead = text::trimmed_lines(before);
    assert(text::trimmed_lines(document) =~= ahead + seq![header] + rest);
    lemma_section_from(ahead, header, rest);
    if key.len() > 0 {
        assert(line[0] == key[0]);
    } else {
        assert(line[0] == ' ');
    }
    assert(rest[0] == line);
    assert(rest.drop_first() =~= text::trimmed_lines(after));
    let more = packaging::until_table(text::trimmed_lines(after));
    let none = Seq::<Seq<char>>::empty();
    assert(packaging::until_table(rest) =~= none + seq![line] + more);
    law_deb_value_is_what_is_quoted(document, key, none, value, more);
    law_name_lists_read_back(names);
}

/// Names without white space are written out without a line break.
proof fn lemma_no_line_break_in_names(names: Seq<Seq<char>>)
    requires
        forall|i: int, j: int|
            0 <= i < names.len() && 0 <= j < names[i].len() ==> !text::is_whitespace(
                #[trigger] names[i][j],
            ),
    ensures
        forall|i: int|
            0 <= i < comma_separated(names).len() ==> #[trigger] comma_separated(names)[i] != '\n',
    decreases names.len(),
{
    text_laws::law_white_space('\n');
    let s = comma_separated(names);
    if names.len() == 1 {
        assert forall|i: int| 0 <= i < s.len() implies #[trigger] s[i] != '\n' by {
            assert(!text::is_whitespace(names[0][i]));
        }
    } else if names.len() > 1 {
        let rest = names.drop_first();
        assert forall|i: int, j: int|
            0 <= i < rest.len() && 0 <= j < rest[i].len() implies !text::is_whitespace(
            #[trigger] rest[i][j],
        ) by {
            assert(!text::is_whitespace(names[i + 1][j]));
        }
        lemma_no_line_break_in_names(rest);
        let r = comma_separated(rest);
        let n = names[0].len();
        assert forall|i: int| 0 <= i < s.len() implies #[trigger] s[i] != '\n' by {
            if i < n {
                assert(!text::is_whitespace(names[0][i]));
            } else if i >= n + 2 {
                assert(s[i] == r[i - n - 2]);
            }
        }
    }
}

/// What a reader of a list returned is the texts it returned, one for one, or
/// its error.
pub proof fn law_outcomes_are_what_was_returned(result: Result<Vec<String>, MetadataError>)
    ensures
        match result {
            Ok(items) => packaging::list_outcome(result) matches Ok(read) && read.len()
                == items@.len() && (forall|i: int|
                0 <= i < items@.len() ==> #[trigger] read[i] == items@[i]@),
            Err(error) => packaging::list_outcome(result) == Err::<Seq<Seq<char>>, MetadataError>(
                error,
            ),
        },
{
}

} // verus!
