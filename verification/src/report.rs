//! Laying the sorted entries out as an aligned, indexed report.

use vstd::prelude::*;
use vstd::string::StringExecFns;
use crate::entry::DirectoryEntry;
use crate::locale::NumberFormatter;
use crate::locale::grouped_seq;
use crate::text::pad_left;
use crate::text::pad_left_string;

verus! {

/// The report's first line: the directory being revealed.
pub open spec fn header_seq(path: Seq<char>) -> Seq<char> {
    ("Revealing directory: ")@ + path + (".")@
}

/// The report's second line: the column headings.
pub open spec fn column_header_seq() -> Seq<char> {
    (" Index | Type            Size   Permissions       Owner        Name")@
}

/// One entry line: the zero-based index, grouped and right-aligned to six
/// characters, a separator, then the entry's own rendering.
pub open spec fn row_seq(index: nat, entry: DirectoryEntry) -> Seq<char> {
    pad_left(grouped_seq(index), 6) + (" | ")@ + entry.line_seq()
}

/// Renders the whole report: the header, the column line, then one line per
/// entry, indexed from zero in the order given.
pub fn render_report(path: &str, entries: &Vec<DirectoryEntry>) -> (lines: Vec<String>)
    requires
        entries@.len() <= u32::MAX,
    ensures
        lines@.len() == entries@.len() + 2,
        lines@[0]@ == header_seq(path@),
        lines@[1]@ == column_header_seq(),
        forall|i: int|
            0 <= i < entries@.len() ==> lines@[i + 2]@ == row_seq(i as nat, entries@[i]),
{
    let mut lines: Vec<String> = Vec::new();
    let mut header = String::from_str("Revealing directory: ");
    header.append(path);
    header.append(".");
    lines.push(header);
    lines.push(
        String::from_str(" Index | Type            Size   Permissions       Owner        Name"),
    );
    let mut n: usize = 0;
    while n < entries.len()
        invariant
            n <= entries@.len(),
            entries@.len() <= u32::MAX,
            lines@.len() == n + 2,
            lines@[0]@ == header_seq(path@),
            lines@[1]@ == column_header_seq(),
            forall|i: int| 0 <= i < n ==> lines@[i + 2]@ == row_seq(i as nat, entries@[i]),
        decreases entries@.len() - n,
    {
        let mut row = pad_left_string(NumberFormatter::format_u32(n as u32), 6);
        row.append(" | ");
        let body = entries[n].as_string();
        row.append(body.as_str());
        proof {
            assert(row@ =~= row_seq(n as nat, entries@[n as int]));
        }
        lines.push(row);
        n = n + 1;
    }
    lines
}

} // verus!
