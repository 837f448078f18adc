//! The scan-code table: one key to a line.

use vstd::prelude::*;
use crate::keys::{
    distinct_names, inserted, keys_wf, lemma_inserted, lookup, Entries, KeyTable,
};
use crate::line::{lemma_read_key_wf, parse_key, spec_read_key, ParseError, ParseErrorView};
use crate::text::{lines, lines_view, split_lines, to_chars};

verus! {

/// Why a table is refused: the number of the first line that is, counted
/// from 1, and what is wrong with it.
#[derive(Debug, PartialEq, Eq)]
pub struct TableError {
    pub line: usize,
    pub error: ParseError,
}

/// A `TableError` with its names as character sequences.
pub struct TableErrorView {
    pub line: int,
    pub error: ParseErrorView,
}

impl View for TableError {
    type V = TableErrorView;

    open spec fn view(&self) -> TableErrorView {
        TableErrorView { line: self.line as int, error: self.error@ }
    }
}

/// Whether a line declares nothing: an empty line, or a comment.
pub open spec fn is_skipped(line: Seq<char>) -> bool {
    line.len() == 0 || line[0] == '#'
}

/// The table after the given lines, of which the first has the given number,
/// are read in turn, starting from `keys`. The first line that is refused
/// ends the reading. A name that is declared again takes the later key, or,
/// where names must be unique, has its line refused.
pub open spec fn spec_read_lines(
    lines: Seq<Seq<char>>,
    keys: Entries,
    number: int,
    unique: bool,
) -> Result<Entries, TableErrorView>
    decreases lines.len(),
{
    if lines.len() == 0 {
        Ok(keys)
    } else if is_skipped(lines[0]) {
        spec_read_lines(lines.skip(1), keys, number + 1, unique)
    } else {
        match spec_read_key(lines[0], keys) {
            Err(error) => Err(TableErrorView { line: number, error }),
            Ok((name, key)) => if unique && lookup(keys, name) is Some {
                Err(TableErrorView { line: number, error: ParseErrorView::DuplicateKey { name } })
            } else {
                spec_read_lines(lines.skip(1), inserted(keys, name, key), number + 1, unique)
            },
        }
    }
}

/// The table that a text declares, where a name that is declared again takes
/// the later key.
pub open spec fn spec_read_keys(text: Seq<char>) -> Result<Entries, TableErrorView> {
    spec_read_lines(split_lines(text), Seq::empty(), 1, false)
}

/// The table that a text declares, where no name may be declared again.
pub open spec fn spec_read_unique_keys(text: Seq<char>) -> Result<Entries, TableErrorView> {
    spec_read_lines(split_lines(text), Seq::empty(), 1, true)
}

/// Reading lines keeps names distinct and keys well formed.
pub proof fn lemma_read_lines_wf(lines: Seq<Seq<char>>, keys: Entries, number: int, unique: bool)
    requires
        distinct_names(keys),
        keys_wf(keys),
    ensures
        spec_read_lines(lines, keys, number, unique) matches Ok(table) ==> distinct_names(table)
            && keys_wf(table),
    decreases lines.len(),
{
    if lines.len() > 0 {
        if is_skipped(lines[0]) {
            lemma_read_lines_wf(lines.skip(1), keys, number + 1, unique);
        } else if let Ok((name, key)) = spec_read_key(lines[0], keys) {
            lemma_inserted(keys, name, key, name);
            lemma_read_key_wf(lines[0], keys);
            lemma_read_lines_wf(lines.skip(1), inserted(keys, name, key), number + 1, unique);
        }
    }
}

/// Every table that a text declares has distinct names and well-formed keys.
pub proof fn lemma_read_keys_wf(text: Seq<char>, unique: bool)
    ensures
        spec_read_lines(split_lines(text), Seq::empty(), 1, unique) matches Ok(table)
            ==> distinct_names(table) && keys_wf(table),
{
    lemma_read_lines_wf(split_lines(text), Seq::empty(), 1, unique);
}

/// Where no name is declared again, it makes no difference whether names
/// must be unique: lines that are accepted with unique names give the same
/// table without that demand.
pub proof fn lemma_read_lines_unique(lines: Seq<Seq<char>>, keys: Entries, number: int)
    ensures
        spec_read_lines(lines, keys, number, true) matches Ok(table) ==> spec_read_lines(
            lines,
            keys,
            number,
            false,
        ) == Ok::<Entries, TableErrorView>(table),
    decreases lines.len(),
{
    if lines.len() > 0 {
        if is_skipped(lines[0]) {
            lemma_read_lines_unique(lines.skip(1), keys, number + 1);
        } else if let Ok((name, key)) = spec_read_key(lines[0], keys) {
            lemma_read_lines_unique(lines.skip(1), inserted(keys, name, key), number + 1);
        }
    }
}

fn read_table(text: &str, unique: bool) -> (r: Result<KeyTable, TableError>)
    ensures
        match r {
            Ok(table) => spec_read_lines(split_lines(text@), Seq::empty(), 1, unique) == Ok::<
                Entries,
                TableErrorView,
            >(table@) && table.wf() && keys_wf(table@),
            Err(e) => spec_read_lines(split_lines(text@), Seq::empty(), 1, unique) == Err::<
                Entries,
                TableErrorView,
            >(e@),
        },
{
    let chars = to_chars(text);
    let all = lines(chars.as_slice());
    let mut table = KeyTable::new();
    let n: usize = all.len();
    let mut i: usize = 0;
    proof {
        assert(lines_view(all@).skip(0) =~= lines_view(all@));
        lemma_read_keys_wf(text@, unique);
    }
    while i < n
        invariant
            i <= n,
            n == all@.len(),
            lines_view(all@) == split_lines(text@),
            spec_read_lines(split_lines(text@), Seq::empty(), 1, unique) == spec_read_lines(
                lines_view(all@).skip(i as int),
                table@,
                i + 1,
                unique,
            ),
        decreases n - i,
    {
        let line = all[i].as_slice();
        proof {
            assert(lines_view(all@).skip(i as int).skip(1) =~= lines_view(all@).skip(i + 1));
        }
        if !(line.len() == 0 || line[0] == '#') {
            match parse_key(line, &table) {
                Ok((name, key)) => {
                    if unique && table.get(name.as_str()).is_some() {
                        return Err(
                            TableError { line: i + 1, error: ParseError::DuplicateKey { name } },
                        );
                    }
                    let _ = table.insert(name, key);
                },
                Err(error) => {
                    return Err(TableError { line: i + 1, error });
                },
            }
        }
        i += 1;
    }
    Ok(table)
}

/// Reads a table: one key for each line that is neither empty nor a comment,
/// each under its name. A name that is declared again keeps its place and
/// takes the later key.
pub fn read_keys(text: &str) -> (r: Result<KeyTable, TableError>)
    ensures
        match r {
            Ok(table) => spec_read_keys(text@) == Ok::<Entries, TableErrorView>(table@)
                && table.wf() && keys_wf(table@),
            Err(e) => spec_read_keys(text@) == Err::<Entries, TableErrorView>(e@),
        },
{
    read_table(text, false)
}

/// Reads a table whose names must be unique: as `read_keys`, but the line
/// that declares a name again is refused with `DuplicateKey`.
pub fn read_unique_keys(text: &str) -> (r: Result<KeyTable, TableError>)
    ensures
        match r {
            Ok(table) => spec_read_unique_keys(text@) == Ok::<Entries, TableErrorView>(table@)
                && spec_read_keys(text@) == Ok::<Entries, TableErrorView>(table@) && table.wf()
                && keys_wf(table@),
            Err(e) => spec_read_unique_keys(text@) == Err::<Entries, TableErrorView>(e@),
        },
{
    proof {
        lemma_read_lines_unique(split_lines(text@), Seq::empty(), 1);
    }
    read_table(text, true)
}

} // verus!
