//! Readers for the dependency lists in the packaging metadata: the Debian
//! lists of a `Cargo.toml` and the bash arrays of a `PKGBUILD`.
//!
//! Lines are trimmed at the end before they are looked at, so a checkout with
//! CRLF line ends reads the same as one with LF.

use vstd::prelude::*;

use crate::text;
use crate::text::{
    chars_of, end_of_trimmed, lines_of, position_of, same_text, start_of_trimmed, string_of,
    strip_prefix,
};

verus! {

/// Why a list could not be read.
#[derive(Clone, Copy, Debug, PartialEq, Eq, Structural)]
pub enum MetadataError {
    /// The document has no such section.
    NoSection,
    /// The section has no line for the key.
    NoKey,
    /// The key's value does not end on its own line.
    NotOneLine,
    /// No line opens the array.
    NoArray,
    /// The array is never closed.
    NotClosed,
}

/// The header of the section that holds the Debian lists.
pub const DEB_SECTION: &'static str = "[package.metadata.deb]";

/// The lines up to the next one that starts a table.
pub open spec fn until_table(lines: Seq<Seq<char>>) -> Seq<Seq<char>>
    decreases lines.len(),
{
    if lines.len() == 0 || (lines[0].len() > 0 && lines[0][0] == '[') {
        Seq::empty()
    } else {
        seq![lines[0]] + until_table(lines.drop_first())
    }
}

/// The lines behind the first line `header`, up to the next table, if there is
/// such a line.
pub open spec fn section_lines(lines: Seq<Seq<char>>, header: Seq<char>) -> Option<Seq<Seq<char>>>
    decreases lines.len(),
{
    if lines.len() == 0 {
        None
    } else if lines[0] == header {
        Some(until_table(lines.drop_first()))
    } else {
        section_lines(lines.drop_first(), header)
    }
}

/// The lines of the section `header` of a TOML document, if it has one.
pub open spec fn section_of(document: Seq<char>, header: Seq<char>) -> Option<Seq<Seq<char>>> {
    section_lines(text::trimmed_lines(document), header)
}

/// The index of the first line that starts with `prefix`, or the number of
/// lines.
pub open spec fn first_with_prefix(lines: Seq<Seq<char>>, prefix: Seq<char>) -> nat
    decreases lines.len(),
{
    if lines.len() == 0 || prefix.is_prefix_of(lines[0]) {
        0
    } else {
        1 + first_with_prefix(lines.drop_first(), prefix)
    }
}

/// The value between the quotes of the line `key = "..."` of the Debian
/// section.
pub open spec fn deb_value(document: Seq<char>, key: Seq<char>) -> Result<
    Seq<char>,
    MetadataError,
> {
    match section_of(document, DEB_SECTION@) {
        None => Err(MetadataError::NoSection),
        Some(lines) => {
            let prefix = key + " = \""@;
            let n = first_with_prefix(lines, prefix);
            if n >= lines.len() {
                Err(MetadataError::NoKey)
            } else {
                let value = lines[n as int].skip(prefix.len() as int);
                if value.len() > 0 && value.last() == '"' {
                    Ok(value.drop_last())
                } else {
                    Err(MetadataError::NotOneLine)
                }
            }
        },
    }
}

/// How many characters of `s` stand before the first space or `(`.
pub open spec fn name_length(s: Seq<char>) -> nat
    decreases s.len(),
{
    if s.len() == 0 || s[0] == ' ' || s[0] == '(' {
        0
    } else {
        1 + name_length(s.drop_first())
    }
}

/// The package an item of a list names: the trimmed item without its version
/// constraint.
pub open spec fn package_name(item: Seq<char>) -> Seq<char> {
    text::trim(item).take(name_length(text::trim(item)) as int)
}

/// The packages that a comma-separated list names.
pub open spec fn package_names(list: Seq<char>) -> Seq<Seq<char>>
    decreases list.len(),
{
    let n = text::length_before(list, ',');
    if n >= list.len() {
        seq![package_name(list)]
    } else {
        seq![package_name(list.take(n as int))] + package_names(list.skip(n + 1int))
    }
}

/// The packages of a Debian list.
pub open spec fn deb_packages(document: Seq<char>, key: Seq<char>) -> Result<
    Seq<Seq<char>>,
    MetadataError,
> {
    match deb_value(document, key) {
        Ok(value) => Ok(package_names(value)),
        Err(error) => Err(error),
    }
}

/// Lines put back together, a line break behind each.
pub open spec fn joined(lines: Seq<Seq<char>>) -> Seq<char>
    decreases lines.len(),
{
    if lines.len() == 0 {
        Seq::empty()
    } else {
        lines[0] + seq!['\n'] + joined(lines.drop_first())
    }
}

/// Where the reader of a bash array stands.
pub enum ArrayMode {
    /// Between items.
    Plain,
    /// In a comment.
    Comment,
    /// In a quoted item, with what it holds so far.
    Quoted(Seq<char>),
}

/// The items read from `rest`, on top of `items`, up to the closing bracket,
/// if there is one.
pub open spec fn items_of(
    rest: Seq<char>,
    mode: ArrayMode,
    items: Seq<Seq<char>>,
) -> Option<Seq<Seq<char>>>
    decreases rest.len(),
{
    if rest.len() == 0 {
        None
    } else {
        let c = rest[0];
        let tail = rest.drop_first();
        match mode {
            ArrayMode::Quoted(item) => if c == '\'' {
                items_of(tail, ArrayMode::Plain, items.push(item))
            } else {
                items_of(tail, ArrayMode::Quoted(item.push(c)), items)
            },
            ArrayMode::Comment => if c == '\n' {
                items_of(tail, ArrayMode::Plain, items)
            } else {
                items_of(tail, ArrayMode::Comment, items)
            },
            ArrayMode::Plain => if c == '\'' {
                items_of(tail, ArrayMode::Quoted(Seq::empty()), items)
            } else if c == ')' {
                Some(items)
            } else if c == '#' {
                items_of(tail, ArrayMode::Comment, items)
            } else {
                items_of(tail, ArrayMode::Plain, items)
            },
        }
    }
}

/// The items of the bash array `name=( ... )` of a document.
pub open spec fn array_items(document: Seq<char>, name: Seq<char>) -> Result<
    Seq<Seq<char>>,
    MetadataError,
> {
    let lines = text::trimmed_lines(document);
    let open = name + "=("@;
    let n = first_with_prefix(lines, open);
    if n >= lines.len() {
        Err(MetadataError::NoArray)
    } else {
        match items_of(
            joined(lines.skip(n as int)).skip(open.len() as int),
            ArrayMode::Plain,
            Seq::empty(),
        ) {
            Some(items) => Ok(items),
            None => Err(MetadataError::NotClosed),
        }
    }
}

/// What a reader of a list returned.
pub open spec fn list_outcome(result: Result<Vec<String>, MetadataError>) -> Result<
    Seq<Seq<char>>,
    MetadataError,
> {
    match result {
        Ok(items) => Ok(text::string_texts(items@)),
        Err(error) => Err(error),
    }
}

/// Reads the section `header` of a TOML document, if it has one.
pub fn find_toml_section<'a>(text: &'a str, header: &str) -> (section: Option<Vec<&'a str>>)
    ensures
        match section {
            Some(lines) => section_of(text@, header@) == Some(text::texts(lines@)),
            None => section_of(text@, header@) is None,
        },
{
    let lines = lines_of(text);
    let ghost all = text::texts(lines@);
    let mut i: usize = 0;
    assert(all.skip(0) =~= all);
    while i < lines.len() && !same_text(lines[i], header)
        invariant
            i <= lines@.len(),
            all == text::texts(lines@),
            all == text::trimmed_lines(text@),
            section_lines(all.skip(i as int), header@) == section_lines(all, header@),
        decreases lines@.len() - i,
    {
        assert(all.skip(i as int).drop_first() =~= all.skip(i + 1));
        i += 1;
    }
    if i == lines.len() {
        return None;
    }
    assert(all.skip(i as int).drop_first() =~= all.skip(i + 1));
    i += 1;
    let ghost body = until_table(all.skip(i as int));
    let mut section: Vec<&'a str> = Vec::new();
    assert(text::texts(section@) + body =~= body);
    while i < lines.len() && !starts_table(lines[i])
        invariant
            i <= lines@.len(),
            all == text::texts(lines@),
            text::texts(section@) + until_table(all.skip(i as int)) == body,
        decreases lines@.len() - i,
    {
        let ghost before = section@;
        section.push(lines[i]);
        proof {
            assert(all.skip(i as int).drop_first() =~= all.skip(i + 1));
            assert(text::texts(section@) =~= text::texts(before).push(all[i as int]));
            assert(text::texts(section@) + until_table(all.skip(i + 1)) =~= text::texts(before)
                + until_table(all.skip(i as int)));
        }
        i += 1;
    }
    assert(text::texts(section@) + until_table(all.skip(i as int)) =~= text::texts(section@));
    Some(section)
}

/// Whether a line starts a table.
fn starts_table(line: &str) -> (starts: bool)
    ensures
        starts == (line@.len() > 0 && line@[0] == '['),
{
    line.unicode_len() > 0 && line.get_char(0) == '['
}

/// Returns the lines of a TOML document behind the line `header`, up to the
/// next line that starts with `[`.
///
/// Array entries indented under a key begin with spaces, so they do not end
/// the section.
pub fn toml_section<'a>(text: &'a str, header: &str) -> (lines: Vec<&'a str>)
    requires
        section_of(text@, header@) is Some,
    ensures
        section_of(text@, header@) == Some(text::texts(lines@)),
{
    find_toml_section(text, header).unwrap()
}

/// The index of the first of `lines` that starts with `prefix`, or their
/// number.
fn find_prefix(lines: &Vec<&str>, prefix: &str) -> (index: usize)
    ensures
        index <= lines@.len(),
        index == first_with_prefix(text::texts(lines@), prefix@),
        index < lines@.len() ==> prefix@.is_prefix_of(lines@[index as int]@),
{
    let ghost all = text::texts(lines@);
    let mut i: usize = 0;
    assert(all.skip(0) =~= all);
    while i < lines.len()
        invariant
            i <= lines@.len(),
            all == text::texts(lines@),
            i + first_with_prefix(all.skip(i as int), prefix@) == first_with_prefix(all, prefix@),
        decreases lines@.len() - i,
    {
        if strip_prefix(lines[i], prefix).is_some() {
            return i;
        }
        assert(all.skip(i as int).drop_first() =~= all.skip(i + 1));
        i += 1;
    }
    i
}

/// Reads the packages that a Debian list names.
pub fn find_deb_list(cargo_toml: &str, key: &str) -> (result: Result<Vec<String>, MetadataError>)
    ensures
        list_outcome(result) == deb_packages(cargo_toml@, key@),
{
    let mut prefix = key.to_string();
    prefix.append(" = \"");
    let lines = match find_toml_section(cargo_toml, DEB_SECTION) {
        Some(lines) => lines,
        None => {
            return Err(MetadataError::NoSection);
        },
    };
    let index = find_prefix(&lines, prefix.as_str());
    if index == lines.len() {
        return Err(MetadataError::NoKey);
    }
    let line = chars_of(lines[index]);
    let from: usize = prefix.as_str().unicode_len();
    if line.len() == from || line[line.len() - 1] != '"' {
        return Err(MetadataError::NotOneLine);
    }
    let to: usize = line.len() - 1;
    assert(line@.skip(from as int).drop_last() =~= line@.subrange(from as int, to as int));
    Ok(split_packages(&line, from, to))
}

/// The packages that the characters of `chars` from `from` up to `to` name.
fn split_packages(chars: &Vec<char>, from: usize, to: usize) -> (packages: Vec<String>)
    requires
        from <= to <= chars@.len(),
    ensures
        text::string_texts(packages@) == package_names(chars@.subrange(from as int, to as int)),
{
    let ghost all = package_names(chars@.subrange(from as int, to as int));
    let mut packages: Vec<String> = Vec::new();
    let mut start: usize = from;
    assert(text::string_texts(packages@) + all =~= all);
    loop
        invariant_except_break
            from <= start <= to <= chars@.len(),
            text::string_texts(packages@) + package_names(
                chars@.subrange(start as int, to as int),
            ) == all,
        ensures
            text::string_texts(packages@) == all,
        decreases to - start,
    {
        let ghost rest = chars@.subrange(start as int, to as int);
        let comma = position_of(chars, start, ',');
        let end = if comma < to {
            comma
        } else {
            to
        };
        proof {
            assert forall|i: int| 0 <= i < end - start implies rest[i] != ',' by {
                text::lemma_before_first(chars@.skip(start as int), ',', i);
            }
            if end < to {
                text::lemma_at_first(chars@.skip(start as int), ',');
            }
            text::lemma_length_before(rest, ',', end - start);
            assert(rest.take(end - start) =~= chars@.subrange(start as int, end as int));
        }
        let package = read_package(chars, start, end);
        let ghost before = packages@;
        packages.push(package);
        assert(text::string_texts(packages@) =~= text::string_texts(before).push(package@));
        if end == to {
            assert(rest.take(end - start) =~= rest);
            assert(text::string_texts(packages@) =~= text::string_texts(before) + package_names(
                rest,
            ));
            break;
        }
        proof {
            assert(rest.skip(end - start + 1) =~= chars@.subrange(end + 1, to as int));
            assert(text::string_texts(packages@) + package_names(
                chars@.subrange(end + 1, to as int),
            ) =~= text::string_texts(before) + package_names(rest));
        }
        start = end + 1;
    }
    packages
}

/// The package that the characters of `chars` from `from` up to `to` name.
fn read_package(chars: &Vec<char>, from: usize, to: usize) -> (package: String)
    requires
        from <= to <= chars@.len(),
    ensures
        package@ == package_name(chars@.subrange(from as int, to as int)),
{
    let trimmed_to = end_of_trimmed(chars, from, to);
    let start = start_of_trimmed(chars, from, trimmed_to);
    let ghost item = chars@.subrange(start as int, trimmed_to as int);
    let mut end: usize = start;
    assert(item.skip(0) =~= item);
    while end < trimmed_to && chars[end] != ' ' && chars[end] != '('
        invariant
            start <= end <= trimmed_to <= chars@.len(),
            item == chars@.subrange(start as int, trimmed_to as int),
            name_length(item) == end - start + name_length(item.skip(end - start)),
        decreases trimmed_to - end,
    {
        assert(item.skip(end - start).drop_first() =~= item.skip(end - start + 1));
        end += 1;
    }
    assert(item.take(end - start) =~= chars@.subrange(start as int, end as int));
    string_of(chars, start, end)
}

/// Returns the package names in a comma-separated `key = "..."` value of
/// `[package.metadata.deb]`, each cut at its first space or `(` so that a
/// version constraint is dropped.
pub fn deb_list(cargo_toml: &str, key: &str) -> (packages: Vec<String>)
    requires
        deb_value(cargo_toml@, key@) is Ok,
    ensures
        deb_packages(cargo_toml@, key@) == Ok::<Seq<Seq<char>>, MetadataError>(
            text::string_texts(packages@),
        ),
{
    find_deb_list(cargo_toml, key).unwrap()
}

/// The lines from `index` on, a line break behind each.
fn join_lines(lines: &Vec<&str>, index: usize) -> (chars: Vec<char>)
    requires
        index <= lines@.len(),
    ensures
        chars@ == joined(text::texts(lines@).skip(index as int)),
{
    let ghost all = text::texts(lines@);
    let mut chars: Vec<char> = Vec::new();
    let mut i: usize = index;
    assert(chars@ + joined(all.skip(i as int)) =~= joined(all.skip(index as int)));
    while i < lines.len()
        invariant
            index <= i <= lines@.len(),
            all == text::texts(lines@),
            chars@ + joined(all.skip(i as int)) == joined(all.skip(index as int)),
        decreases lines@.len() - i,
    {
        let ghost before = chars@;
        let mut line = chars_of(lines[i]);
        chars.append(&mut line);
        chars.push('\n');
        proof {
            assert(all.skip(i as int).drop_first() =~= all.skip(i + 1));
            assert(chars@ + joined(all.skip(i + 1)) =~= before + joined(all.skip(i as int)));
        }
        i += 1;
    }
    assert(chars@ + joined(all.skip(i as int)) =~= chars@);
    chars
}

/// Where a reader stands that is or is not inside quotes or a comment.
spec fn mode_of(quoted: bool, comment: bool, item: Seq<char>) -> ArrayMode {
    if quoted {
        ArrayMode::Quoted(item)
    } else if comment {
        ArrayMode::Comment
    } else {
        ArrayMode::Plain
    }
}

/// Reads the single-quoted items of a bash array.
pub fn find_bash_array(pkgbuild: &str, name: &str) -> (result: Result<Vec<String>, MetadataError>)
    ensures
        list_outcome(result) == array_items(pkgbuild@, name@),
{
    let mut open = name.to_string();
    open.append("=(");
    let lines = lines_of(pkgbuild);
    let index = find_prefix(&lines, open.as_str());
    if index == lines.len() {
        return Err(MetadataError::NoArray);
    }
    let chars = join_lines(&lines, index);
    let ghost whole = items_of(
        chars@.skip(open@.len() as int),
        ArrayMode::Plain,
        Seq::empty(),
    );
    let mut items: Vec<String> = Vec::new();
    let mut item = String::new();
    let mut quoted = false;
    let mut comment = false;
    let mut i: usize = open.as_str().unicode_len();
    proof {
        let rest = text::texts(lines@).skip(index as int);
        assert(rest[0] == lines@[index as int]@);
        assert(open@.len() <= chars@.len());
        assert(text::string_texts(items@) =~= Seq::empty());
    }
    while i < chars.len()
        invariant
            i <= chars@.len(),
            items_of(
                chars@.skip(i as int),
                mode_of(quoted, comment, item@),
                text::string_texts(items@),
            ) == whole,
            whole matches Some(found) ==> array_items(pkgbuild@, name@) == Ok::<
                Seq<Seq<char>>,
                MetadataError,
            >(found),
        decreases chars@.len() - i,
    {
        let c = chars[i];
        let ghost before = items@;
        assert(chars@.skip(i as int).drop_first() =~= chars@.skip(i + 1));
        if quoted {
            if c == '\'' {
                let ghost text = item@;
                items.push(item);
                item = String::new();
                quoted = false;
                comment = false;
                assert(text::string_texts(items@) =~= text::string_texts(before).push(text));
            } else {
                item.push(c);
            }
        } else if comment {
            if c == '\n' {
                comment = false;
            }
        } else if c == '\'' {
            item = String::new();
            quoted = true;
        } else if c == ')' {
            return Ok(items);
        } else if c == '#' {
            comment = true;
        }
        i += 1;
    }
    assert(chars@.skip(i as int).len() == 0);
    Err(MetadataError::NotClosed)
}

/// Returns the single-quoted items of the bash array `name=( ... )` in a
/// `PKGBUILD`.
///
/// The opening `name=(` must start a line, so `depends` does not match
/// `makedepends=(` or `optdepends=(`. The array may span lines; an unquoted
/// `#` starts a comment that runs to the end of the line.
pub fn bash_array(pkgbuild: &str, name: &str) -> (items: Vec<String>)
    requires
        array_items(pkgbuild@, name@) is Ok,
    ensures
        array_items(pkgbuild@, name@) == Ok::<Seq<Seq<char>>, MetadataError>(
            text::string_texts(items@),
        ),
{
    find_bash_array(pkgbuild, name).unwrap()
}

/// A text with every line break turned into CRLF.
pub open spec fn with_crlf(document: Seq<char>) -> Seq<char>
    decreases document.len(),
{
    if document.len() == 0 {
        document
    } else if document[0] == '\n' {
        seq!['\r', '\n'] + with_crlf(document.drop_first())
    } else {
        seq![document[0]] + with_crlf(document.drop_first())
    }
}

/// A line break is all that `with_crlf` touches.
proof fn lemma_crlf_line(line: Seq<char>, rest: Seq<char>)
    requires
        forall|i: int| 0 <= i < line.len() ==> line[i] != '\n',
    ensures
        with_crlf(line) == line,
        with_crlf(line + seq!['\n'] + rest) == line + seq!['\r', '\n'] + with_crlf(rest),
    decreases line.len(),
{
    let whole = line + seq!['\n'] + rest;
    if line.len() == 0 {
        assert(whole.drop_first() =~= rest);
        assert(with_crlf(whole) =~= line + seq!['\r', '\n'] + with_crlf(rest));
    } else {
        assert forall|i: int| 0 <= i < line.drop_first().len() implies line.drop_first()[i]
            != '\n' by {
            assert(line[i + 1] != '\n');
        }
        lemma_crlf_line(line.drop_first(), rest);
        assert(whole.drop_first() =~= line.drop_first() + seq!['\n'] + rest);
        assert(with_crlf(line) =~= line);
        assert(with_crlf(whole) =~= line + seq!['\r', '\n'] + with_crlf(rest));
    }
}

/// The lines of a text do not depend on whether its line breaks are LF or
/// CRLF.
proof fn lemma_crlf_lines(document: Seq<char>)
    ensures
        text::trimmed_lines(with_crlf(document)) == text::trimmed_lines(document),
    decreases document.len(),
{
    if document.len() > 0 {
        let n = text::length_before(document, '\n') as int;
        text::lemma_at_first(document, '\n');
        let line = document.take(n);
        assert forall|i: int| 0 <= i < line.len() implies line[i] != '\n' by {
            text::lemma_before_first(document, '\n', i);
        }
        if n == document.len() {
            assert(line =~= document);
            lemma_crlf_line(line, Seq::empty());
        } else {
            let rest = document.skip(n + 1);
            assert(document =~= line + seq!['\n'] + rest);
            lemma_crlf_line(line, rest);
            lemma_crlf_lines(rest);
            let converted = with_crlf(document);
            text::lemma_length_before(converted, '\n', n + 1);
            assert(converted.take(n + 1) =~= line.push('\r'));
            assert(line.push('\r').drop_last() =~= line);
            assert(converted.skip(n + 2) =~= with_crlf(rest));
        }
    }
}

/// A document reads the same whether its line breaks are LF or CRLF.
pub proof fn law_crlf_reads_as_lf(document: Seq<char>, header: Seq<char>, key: Seq<char>)
    ensures
        section_of(with_crlf(document), header) == section_of(document, header),
        deb_packages(with_crlf(document), key) == deb_packages(document, key),
        array_items(with_crlf(document), key) == array_items(document, key),
{
    lemma_crlf_lines(document);
}

/// A package name holds no version constraint: neither a space nor an opening
/// bracket.
pub proof fn law_names_hold_no_constraint(item: Seq<char>)
    ensures
        !package_name(item).contains(' '),
        !package_name(item).contains('('),
{
    lemma_name_length(text::trim(item));
}

/// No character before the end of a name is a space or an opening bracket.
proof fn lemma_name_length(s: Seq<char>)
    ensures
        name_length(s) <= s.len(),
        forall|i: int| 0 <= i < name_length(s) ==> s[i] != ' ' && s[i] != '(',
    decreases s.len(),
{
    if s.len() > 0 && s[0] != ' ' && s[0] != '(' {
        lemma_name_length(s.drop_first());
        assert forall|i: int| 0 <= i < name_length(s) implies s[i] != ' ' && s[i] != '(' by {
            if i > 0 {
                assert(s.drop_first()[i - 1] == s[i]);
            }
        }
    }
}

/// No line of a section starts a table, however its entries are indented.
pub proof fn law_sections_hold_no_table(lines: Seq<Seq<char>>, header: Seq<char>, i: int)
    requires
        section_lines(lines, header) matches Some(section) && 0 <= i < section.len(),
    ensures
        ({
            let line = section_lines(lines, header)->Some_0[i];
            line.len() > 0 ==> line[0] != '['
        }),
    decreases lines.len(),
{
    if lines[0] == header {
        lemma_until_table(lines.drop_first(), i);
    } else {
        law_sections_hold_no_table(lines.drop_first(), header, i);
    }
}

/// No line before the next table starts a table.
proof fn lemma_until_table(lines: Seq<Seq<char>>, i: int)
    requires
        0 <= i < until_table(lines).len(),
    ensures
        until_table(lines)[i].len() > 0 ==> until_table(lines)[i][0] != '[',
    decreases lines.len(),
{
    if i > 0 {
        lemma_until_table(lines.drop_first(), i - 1);
    }
}

} // verus!
