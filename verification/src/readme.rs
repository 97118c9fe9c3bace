//! Putting a freshly rendered table of applications into a document.

use crate::error::Error;
use crate::text::{chars_of, contains_text, find_text, first_occurrence, occurs_at, string_of};
use vstd::prelude::*;

verus! {

/// The line that opens the table of applications.
pub const TABLE_START: &'static str = "<!-- This table is auto-generated. Do not edit -->";

/// The line that closes the table of applications.
pub const TABLE_END: &'static str = "<!-- end apps table -->";

/// The document with `table` between its two marks: what stood before the
/// opening mark at `start`, the opening mark, the table, the closing mark,
/// and what stood behind the closing mark at `end`.
pub open spec fn spliced(content: Seq<char>, table: Seq<char>, start: int, end: int) -> Seq<char> {
    content.take(start) + TABLE_START@ + table + TABLE_END@ + content.skip(end + TABLE_END@.len())
}

/// Puts `table` between the marks of a document, in place of what stood
/// there. Each mark counts where it first occurs.
pub fn replace_table(content: &str, table: &str) -> (r: Result<String, Error>)
    ensures
        match r {
            Ok(text) => exists|start: int, end: int|
                first_occurrence(content@, TABLE_START@, start) && first_occurrence(
                    content@,
                    TABLE_END@,
                    end,
                ) && text@ == spliced(content@, table@, start, end),
            Err(e) => if contains_text(content@, TABLE_START@) {
                e == Error::MissingTableEnd && !contains_text(content@, TABLE_END@)
            } else {
                e == Error::MissingTableStart
            },
        },
{
    let chars = chars_of(content);
    let opening = chars_of(TABLE_START);
    let closing = chars_of(TABLE_END);
    let start = match find_text(&chars, &opening) {
        Some(start) => start,
        None => {
            return Err(Error::MissingTableStart);
        },
    };
    let end = match find_text(&chars, &closing) {
        Some(end) => end,
        None => {
            return Err(Error::MissingTableEnd);
        },
    };
    assert(end + closing.len() <= chars.len());
    let new_table = chars_of(table);
    let mut out: Vec<char> = Vec::new();
    copy_range(&mut out, &chars, 0, start);
    copy_range(&mut out, &opening, 0, opening.len());
    copy_range(&mut out, &new_table, 0, new_table.len());
    copy_range(&mut out, &closing, 0, closing.len());
    copy_range(&mut out, &chars, end + closing.len(), chars.len());
    assert(out@ == spliced(content@, table@, start as int, end as int));
    Ok(string_of(&out))
}

/// Appends the characters of `from` between the positions `start` and `end`
/// to `out`.
fn copy_range(out: &mut Vec<char>, from: &Vec<char>, start: usize, end: usize)
    requires
        start <= end <= from.len(),
    ensures
        final(out)@ == old(out)@ + from@.subrange(start as int, end as int),
{
    let mut i: usize = start;
    while i < end
        invariant
            start <= i <= end <= from.len(),
            out@ == old(out)@ + from@.subrange(start as int, i as int),
        decreases end - i,
    {
        out.push(from[i]);
        i += 1;
    }
}

} // verus!
