//! Streaming pulse data: the column headers of pulse CSV files and the
//! inspection of a local dataset directory.
use vstd::prelude::*;
use std::path::PathBuf;

use super::text::{ascii_lower, ascii_lower_char, chars_of, is_white_space, is_white_space_char, push_char, str_equal};

verus! {

#[verifier::external_type_specification]
#[verifier::external_body]
pub struct ExPathBuf(PathBuf);

/// The number of whitespace characters that open `s`.
pub open spec fn leading_white(s: Seq<char>) -> nat
    decreases s.len(),
{
    if s.len() > 0 && is_white_space(s[0]) {
        1 + leading_white(s.subrange(1, s.len() as int))
    } else {
        0
    }
}

/// The number of whitespace characters that close `s`.
pub open spec fn trailing_white(s: Seq<char>) -> nat
    decreases s.len(),
{
    if s.len() > 0 && is_white_space(s.last()) {
        1 + trailing_white(s.drop_last())
    } else {
        0
    }
}

/// `s` without its leading and trailing whitespace.
pub open spec fn trimmed(s: Seq<char>) -> Seq<char> {
    let rest = s.subrange(leading_white(s) as int, s.len() as int);
    rest.subrange(0, rest.len() - trailing_white(rest))
}

/// A header character in normal form: ASCII letters in lower case, spaces
/// and hyphens as underscores.
pub open spec fn header_char(c: char) -> char {
    let lower = ascii_lower(c);
    if lower == ' ' || lower == '-' {
        '_'
    } else {
        lower
    }
}

/// The normal form of a column header: trimmed, then each character in
/// normal form.
pub open spec fn normalized_header(s: Seq<char>) -> Seq<char> {
    trimmed(s).map_values(|c: char| header_char(c))
}

proof fn lemma_leading_white(s: Seq<char>, a: int)
    requires
        0 <= a <= s.len(),
        forall|i: int| 0 <= i < a ==> is_white_space(#[trigger] s[i]),
        a == s.len() || !is_white_space(s[a]),
    ensures
        leading_white(s) == a,
    decreases a,
{
    if a > 0 {
        let tail = s.subrange(1, s.len() as int);
        assert forall|i: int| 0 <= i < a - 1 implies is_white_space(#[trigger] tail[i]) by {
            assert(tail[i] == s[i + 1]);
        }
        lemma_leading_white(tail, a - 1);
    }
}

proof fn lemma_trailing_white(s: Seq<char>, k: int)
    requires
        0 <= k <= s.len(),
        forall|i: int| s.len() - k <= i < s.len() ==> is_white_space(#[trigger] s[i]),
        k == s.len() || !is_white_space(s[s.len() - k - 1]),
    ensures
        trailing_white(s) == k,
    decreases k,
{
    if k > 0 {
        let front = s.drop_last();
        assert forall|i: int| front.len() - (k - 1) <= i < front.len() implies is_white_space(
            #[trigger] front[i],
        ) by {
            assert(front[i] == s[i]);
        }
        assert(is_white_space(s.last()));
        lemma_trailing_white(front, k - 1);
    }
}

proof fn lemma_leading_white_stops(s: Seq<char>)
    ensures
        leading_white(s) <= s.len(),
        leading_white(s) < s.len() ==> !is_white_space(s[leading_white(s) as int]),
    decreases s.len(),
{
    if s.len() > 0 && is_white_space(s[0]) {
        let tail = s.subrange(1, s.len() as int);
        lemma_leading_white_stops(tail);
        if leading_white(s) < s.len() {
            assert(s[leading_white(s) as int] == tail[leading_white(tail) as int]);
        }
    }
}

proof fn lemma_trailing_white_stops(s: Seq<char>)
    ensures
        trailing_white(s) <= s.len(),
        trailing_white(s) < s.len() ==> !is_white_space(s[s.len() - trailing_white(s) - 1]),
    decreases s.len(),
{
    if s.len() > 0 && is_white_space(s.last()) {
        let front = s.drop_last();
        lemma_trailing_white_stops(front);
        if trailing_white(s) < s.len() {
            assert(s[s.len() - trailing_white(s) - 1] == front[front.len() - trailing_white(front)
                - 1]);
        }
    }
}

/// A trimmed header is empty or opens and closes with a character that is
/// not whitespace.
proof fn lemma_trimmed_ends(s: Seq<char>)
    ensures
        trimmed(s).len() > 0 ==> !is_white_space(trimmed(s)[0]) && !is_white_space(
            trimmed(s).last(),
        ),
{
    lemma_leading_white_stops(s);
    let rest = s.subrange(leading_white(s) as int, s.len() as int);
    lemma_trailing_white_stops(rest);
    let t = trimmed(s);
    if t.len() > 0 {
        assert(t[0] == rest[0]);
        assert(rest[0] == s[leading_white(s) as int]);
        assert(t.last() == rest[rest.len() - trailing_white(rest) - 1]);
    }
}

/// Normalising a header twice gives the same as normalising it once, so
/// headers compare equal however often they were normalised.
pub proof fn lemma_normalization_is_idempotent(header: Seq<char>)
    ensures
        normalized_header(normalized_header(header)) == normalized_header(header),
{
    let t = trimmed(header);
    let m = normalized_header(header);
    lemma_trimmed_ends(header);
    if m.len() > 0 {
        assert(m[0] == header_char(t[0]));
        assert(m.last() == header_char(t.last()));
        assert(!is_white_space(m[0]));
        assert(!is_white_space(m.last()));
    }
    assert(leading_white(m) == 0);
    assert(trailing_white(m.subrange(0, m.len() as int)) == 0) by {
        assert(m.subrange(0, m.len() as int) =~= m);
    }
    assert(trimmed(m) =~= m) by {
        assert(m.subrange(0, m.len() as int) =~= m);
    }
    assert(normalized_header(m) =~= m);
}

pub fn header_char_of(c: char) -> (normal: char)
    ensures
        normal == header_char(c),
{
    let lower = ascii_lower_char(c);
    if lower == ' ' || lower == '-' {
        '_'
    } else {
        lower
    }
}

/// The normal form of a column header: surrounding whitespace removed, ASCII
/// letters lower-cased, spaces and hyphens replaced by underscores.
pub fn normalize_header(header: &str) -> (normal: String)
    ensures
        normal@ == normalized_header(header@),
{
    let chars = chars_of(header);
    let n = chars.len();
    let mut start: usize = 0;
    while start < n && is_white_space_char(chars[start])
        invariant
            start <= n,
            n == chars@.len(),
            forall|i: int| 0 <= i < start ==> is_white_space(#[trigger] chars@[i]),
        decreases n - start,
    {
        start = start + 1;
    }
    let mut end: usize = n;
    while end > start && is_white_space_char(chars[end - 1])
        invariant
            start <= end <= n,
            n == chars@.len(),
            forall|i: int| end <= i < n ==> is_white_space(#[trigger] chars@[i]),
        decreases end,
    {
        end = end - 1;
    }
    let ghost s = header@;
    proof {
        lemma_leading_white(s, start as int);
        let rest = s.subrange(start as int, s.len() as int);
        assert forall|i: int| rest.len() - (n - end) <= i < rest.len() implies is_white_space(
            #[trigger] rest[i],
        ) by {
            assert(rest[i] == s[start + i]);
        }
        if end > start {
            assert(rest[rest.len() - (n - end) - 1] == s[end - 1]);
        }
        lemma_trailing_white(rest, (n - end) as int);
        assert(trimmed(s) =~= s.subrange(start as int, end as int));
    }
    let mut normal = String::new();
    let mut i: usize = start;
    while i < end
        invariant
            start <= i <= end <= n,
            n == chars@.len(),
            chars@ == s,
            normal@ == s.subrange(start as int, i as int).map_values(|c: char| header_char(c)),
        decreases end - i,
    {
        push_char(&mut normal, header_char_of(chars[i]));
        proof {
            assert(s.subrange(start as int, i + 1).map_values(|c: char| header_char(c))
                =~= s.subrange(start as int, i as int).map_values(|c: char| header_char(c)).push(
                header_char(chars@[i as int]),
            ));
        }
        i = i + 1;
    }
    normal
}

/// The position of the last column named `name`, if any.
pub open spec fn last_match(columns: Seq<Seq<char>>, name: Seq<char>) -> Option<nat>
    decreases columns.len(),
{
    if columns.len() == 0 {
        None
    } else if columns.last() == name {
        Some((columns.len() - 1) as nat)
    } else {
        last_match(columns.drop_last(), name)
    }
}

/// The column found under the first alias that names a column; of several
/// columns with that name, the last.
pub open spec fn lookup_column(columns: Seq<Seq<char>>, aliases: Seq<Seq<char>>) -> Option<nat>
    decreases aliases.len(),
{
    if aliases.len() == 0 {
        None
    } else {
        match last_match(columns, aliases[0]) {
            Some(index) => Some(index),
            None => lookup_column(columns, aliases.drop_first()),
        }
    }
}

/// The names of `columns`.
pub open spec fn column_names(columns: Seq<String>) -> Seq<Seq<char>> {
    columns.map_values(|column: String| column@)
}

/// The characters of each alias.
pub open spec fn alias_names(aliases: Seq<&str>) -> Seq<Seq<char>> {
    aliases.map_values(|alias: &str| alias@)
}

proof fn lemma_last_match_bounded(columns: Seq<Seq<char>>, name: Seq<char>)
    ensures
        last_match(columns, name) matches Some(i) ==> i < columns.len() && columns[i as int]
            == name,
    decreases columns.len(),
{
    if columns.len() > 0 && columns.last() != name {
        lemma_last_match_bounded(columns.drop_last(), name);
    }
}

fn last_column_named(columns: &[String], name: &str) -> (found: Option<usize>)
    ensures
        found == match last_match(column_names(columns@), name@) {
            Some(i) => Some(i as usize),
            None => None::<usize>,
        },
        found matches Some(i) ==> i < columns@.len() && column_names(columns@)[i as int] == name@,
{
    let ghost names = column_names(columns@);
    let mut found: Option<usize> = None;
    let mut i: usize = 0;
    while i < columns.len()
        invariant
            i <= columns@.len(),
            names == column_names(columns@),
            found == match last_match(names.take(i as int), name@) {
                Some(k) => Some(k as usize),
                None => None::<usize>,
            },
            found matches Some(j) ==> j < i && names[j as int] == name@,
        decreases columns@.len() - i,
    {
        proof {
            assert(names.take(i + 1).drop_last() =~= names.take(i as int));
        }
        if str_equal(columns[i].as_str(), name) {
            found = Some(i);
        }
        i = i + 1;
    }
    proof {
        assert(names.take(columns@.len() as int) =~= names);
    }
    found
}

/// The column of the first alias that names one of `columns`; of several
/// columns with that name, the last.
pub fn column_index(columns: &[String], aliases: &[&str]) -> (index: Option<usize>)
    ensures
        index == match lookup_column(column_names(columns@), alias_names(aliases@)) {
            Some(i) => Some(i as usize),
            None => None::<usize>,
        },
        index matches Some(i) ==> i < columns@.len() && alias_names(aliases@).contains(
            column_names(columns@)[i as int],
        ),
{
    let ghost names = column_names(columns@);
    let ghost wanted = alias_names(aliases@);
    proof {
        assert(wanted.skip(0) =~= wanted);
    }
    let mut k: usize = 0;
    while k < aliases.len()
        invariant
            k <= aliases@.len(),
            names == column_names(columns@),
            wanted == alias_names(aliases@),
            lookup_column(names, wanted) == lookup_column(names, wanted.skip(k as int)),
        decreases aliases@.len() - k,
    {
        proof {
            assert(wanted.skip(k as int)[0] == wanted[k as int]);
            assert(wanted.skip(k as int).drop_first() =~= wanted.skip(k + 1));
        }
        let found = last_column_named(columns, aliases[k]);
        if let Some(i) = found {
            proof {
                lemma_last_match_bounded(names, wanted[k as int]);
                assert(wanted[k as int] == aliases@[k as int]@);
                assert(names[i as int] == wanted[k as int]);
                assert(wanted.contains(names[i as int]));
            }
            return Some(i);
        }
        k = k + 1;
    }
    proof {
        assert(wanted.skip(k as int).len() == 0);
    }
    None
}

/// Whether a file extension reads "csv" in any mix of ASCII letter cases.
pub open spec fn is_csv_extension(extension: Seq<char>) -> bool {
    &&& extension.len() == 3
    &&& ascii_lower(extension[0]) == 'c'
    &&& ascii_lower(extension[1]) == 's'
    &&& ascii_lower(extension[2]) == 'v'
}

pub fn has_csv_extension(extension: &str) -> (csv: bool)
    ensures
        csv == is_csv_extension(extension@),
{
    let chars = chars_of(extension);
    chars.len() == 3 && ascii_lower_char(chars[0]) == 'c' && ascii_lower_char(chars[1]) == 's'
        && ascii_lower_char(chars[2]) == 'v'
}

/// A summary of the files under a dataset directory.
#[derive(Debug, PartialEq, Eq)]
pub struct DatasetInspection {
    pub root: PathBuf,
    pub file_count: usize,
    pub total_bytes: u64,
    pub csv_files: usize,
}

impl DatasetInspection {
    /// The inspection of a directory in which no file has been found yet.
    pub fn empty(root: PathBuf) -> (inspection: Self)
        ensures
            inspection.root == root,
            inspection.file_count == 0,
            inspection.total_bytes == 0,
            inspection.csv_files == 0,
    {
        DatasetInspection { root, file_count: 0, total_bytes: 0, csv_files: 0 }
    }

    /// Counts one file of `size` bytes whose extension, if it has a readable
    /// one, is `extension`.
    pub fn record_file(&mut self, size: u64, extension: Option<&str>)
        requires
            old(self).file_count < usize::MAX,
            old(self).total_bytes + size <= u64::MAX,
            old(self).csv_files < usize::MAX,
        ensures
            final(self).root == old(self).root,
            final(self).file_count == old(self).file_count + 1,
            final(self).total_bytes == old(self).total_bytes + size,
            final(self).csv_files == old(self).csv_files + if extension matches Some(e)
                && is_csv_extension(e@) {
                1usize
            } else {
                0usize
            },
    {
        self.file_count = self.file_count + 1;
        self.total_bytes = self.total_bytes + size;
        let csv = match extension {
            Some(e) => has_csv_extension(e),
            None => false,
        };
        if csv {
            self.csv_files = self.csv_files + 1;
        }
    }
}

/// Metadata of a compact pulse file, stored beside it.
#[derive(Debug, PartialEq, Eq)]
pub struct ProcessedFileIndex {
    pub format: String,
    pub source_path: PathBuf,
    pub output_path: PathBuf,
    pub pulse_count: u64,
    pub record_size_bytes: usize,
}

impl ProcessedFileIndex {
    /// The index of a compact pulse file of `pulse_count` records written from
    /// `source_path` to `output_path`.
    pub fn compact(source_path: PathBuf, output_path: PathBuf, pulse_count: u64) -> (index: Self)
        ensures
            index.format@ == "smartscan-pulse-v1"@,
            index.source_path == source_path,
            index.output_path == output_path,
            index.pulse_count == pulse_count,
            index.record_size_bytes == 40,
    {
        ProcessedFileIndex {
            format: String::from_str("smartscan-pulse-v1"),
            source_path,
            output_path,
            pulse_count,
            record_size_bytes: super::activity::RECORD_BYTES,
        }
    }
}

} // verus!
