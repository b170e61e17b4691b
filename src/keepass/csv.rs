use vstd::prelude::*;
use vstd::string::*;

use crate::keepass::kdbx::{opt_text, VaultEntry};

verus! {

/// A field needs quoting when it holds a comma, a double quote or a line break.
pub open spec fn needs_quotes(s: Seq<char>) -> bool {
    s.contains(',') || s.contains('"') || s.contains('\n')
}

/// The field with each double quote doubled.
pub open spec fn double_quotes(s: Seq<char>) -> Seq<char>
    decreases s.len(),
{
    if s.len() == 0 {
        seq![]
    } else {
        double_quotes(s.drop_last()) + if s.last() == '"' {
            seq!['"', '"']
        } else {
            seq![s.last()]
        }
    }
}

/// A field as written in CSV.
pub open spec fn csv_field(s: Seq<char>) -> Seq<char> {
    if needs_quotes(s) {
        seq!['"'] + double_quotes(s) + seq!['"']
    } else {
        s
    }
}

/// One CSV line of an entry: title, user name, password, URL, notes and an
/// empty tags column.
pub open spec fn csv_line(e: VaultEntry) -> Seq<char> {
    csv_field(opt_text(e.title)) + ","@ + csv_field(opt_text(e.username)) + ","@ + csv_field(
        opt_text(e.password),
    ) + ","@ + csv_field(opt_text(e.url)) + ","@ + csv_field(opt_text(e.notes)) + ",\n"@
}

/// The CSV lines of a list of entries.
pub open spec fn csv_lines(es: Seq<VaultEntry>) -> Seq<char>
    decreases es.len(),
{
    if es.len() == 0 {
        seq![]
    } else {
        csv_lines(es.drop_last()) + csv_line(es.last())
    }
}

/// The first line of an export.
pub const CSV_HEADER: &'static str = "Title,Username,Password,URL,Notes,Tags\n";

/// A whole CSV export of the entries.
pub open spec fn csv_document(es: Seq<VaultEntry>) -> Seq<char> {
    CSV_HEADER@ + csv_lines(es)
}

fn has_special(field: &str) -> (r: bool)
    ensures
        r == needs_quotes(field@),
{
    let n = field.unicode_len();
    let mut i: usize = 0;
    while i < n
        invariant
            n == field@.len(),
            i <= n,
            forall|j: int| 0 <= j < i ==> #[trigger] field@[j] != ',' && field@[j] != '"' && field@[j] != '\n',
        decreases n - i,
    {
        let c = field.get_char(i);
        if c == ',' || c == '"' || c == '\n' {
            assert(field@[i as int] == c);
            return true;
        }
        i = i + 1;
    }
    assert(!field@.contains(','));
    assert(!field@.contains('"'));
    assert(!field@.contains('\n'));
    false
}

/// Escapes a field for CSV: quoted, with its quotes doubled, where it holds a
/// comma, a quote or a line break; else as it is.
pub fn escape_csv_field(field: &str) -> (r: String)
    ensures
        r@ == csv_field(field@),
{
    if !has_special(field) {
        return String::from_str(field);
    }
    let mut out = String::from_str("\"");
    proof { reveal_strlit("\""); }
    let n = field.unicode_len();
    let mut i: usize = 0;
    while i < n
        invariant
            n == field@.len(),
            i <= n,
            out@ == seq!['"'] + double_quotes(field@.subrange(0, i as int)),
        decreases n - i,
    {
        let ghost prefix = field@.subrange(0, i + 1);
        proof {
            assert(prefix.drop_last() =~= field@.subrange(0, i as int));
            assert(prefix.last() == field@[i as int]);
        }
        let c = field.get_char(i);
        if c == '"' {
            out.append("\"\"");
            proof { reveal_strlit("\"\""); }
        } else {
            let one = field.substring_char(i, i + 1);
            assert(one@ =~= seq![c]);
            out.append(one);
        }
        assert(out@ =~= seq!['"'] + double_quotes(prefix));
        i = i + 1;
    }
    assert(field@.subrange(0, n as int) =~= field@);
    out.append("\"");
    out
}

fn push_field(out: &mut String, f: &Option<String>)
    ensures
        final(out)@ == old(out)@ + csv_field(opt_text(*f)),
{
    match f {
        Some(s) => {
            let e = escape_csv_field(s.as_str());
            out.append(e.as_str());
        },
        None => {
            let e = escape_csv_field("");
            proof { reveal_strlit(""); }
            assert(e@ == csv_field(opt_text(*f)));
            out.append(e.as_str());
        },
    }
}

/// Appends the CSV line of an entry.
pub fn push_csv_line(out: &mut String, e: &VaultEntry)
    ensures
        final(out)@ == old(out)@ + csv_line(*e),
{
    push_field(out, &e.title);
    out.append(",");
    push_field(out, &e.username);
    out.append(",");
    push_field(out, &e.password);
    out.append(",");
    push_field(out, &e.url);
    out.append(",");
    push_field(out, &e.notes);
    out.append(",\n");
    assert(out@ =~= old(out)@ + csv_line(*e));
}

/// The CSV export of the entries: a header line, then one line per entry.
pub fn csv_export(entries: &Vec<VaultEntry>) -> (r: String)
    ensures
        r@ == csv_document(entries@),
{
    let mut out = String::from_str(CSV_HEADER);
    let mut i: usize = 0;
    while i < entries.len()
        invariant
            i <= entries@.len(),
            out@ == CSV_HEADER@ + csv_lines(entries@.subrange(0, i as int)),
        decreases entries@.len() - i,
    {
        proof {
            let s = entries@.subrange(0, i + 1);
            assert(s.drop_last() =~= entries@.subrange(0, i as int));
            assert(s.last() == entries@[i as int]);
        }
        push_csv_line(&mut out, &entries[i]);
        assert(out@ =~= CSV_HEADER@ + csv_lines(entries@.subrange(0, i + 1)));
        i = i + 1;
    }
    assert(entries@.subrange(0, i as int) =~= entries@);
    out
}

} // verus!
