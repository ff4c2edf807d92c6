//! The backend's exports: TXT lines without the encoding, a hand-written CSV
//! with a byte order mark, and the path check.

use crate::export::exporter::{
    check_path_extension, path_with_checked_extension, txt_document_of, txt_lines,
};
use crate::state::LogEntry;
use crate::text::str_equal;
use vstd::prelude::*;
use vstd::string::{StrSliceExecFns, StringExecFns};

verus! {

broadcast use vstd::string::group_string_axioms;

/// The text with every `"` doubled.
pub open spec fn quote_doubled(s: Seq<char>) -> Seq<char>
    decreases s.len(),
{
    if s.len() == 0 {
        Seq::empty()
    } else if s.last() == '"' {
        quote_doubled(s.drop_last()) + seq!['"', '"']
    } else {
        quote_doubled(s.drop_last()).push(s.last())
    }
}

/// One CSV line: time, direction and encoding as they are, the data quoted.
pub open spec fn csv_line(e: LogEntry) -> Seq<char> {
    e.timestamp@ + ","@ + e.direction@ + ","@ + e.encoding@ + ",\""@ + quote_doubled(e.data@)
        + "\"\n"@
}

/// The CSV document: byte order mark and header, then one line per row.
pub open spec fn csv_document(entries: Seq<LogEntry>) -> Seq<char>
    decreases entries.len(),
{
    if entries.len() == 0 {
        "\u{FEFF}时间,方向,编码,数据\n"@
    } else {
        csv_document(entries.drop_last()) + csv_line(entries.last())
    }
}

fn push_quote_doubled(out: &mut String, s: &str)
    ensures
        final(out)@ == old(out)@ + quote_doubled(s@),
{
    let ghost start = out@;
    for c in it: s.chars()
        invariant
            it.seq() == s@,
            out@ == start + quote_doubled(s@.take(it.index() as int)),
    {
        let ghost k = it.index();
        proof {
            let t = s@.take(k + 1);
            assert(t.drop_last() == s@.take(k as int));
            assert(t.last() == c);
        }
        if c == '"' {
            crate::text::push_char(out, '"');
            crate::text::push_char(out, '"');
            proof {
                assert(start + quote_doubled(s@.take(k as int)) + seq!['"', '"'] == (start
                    + quote_doubled(s@.take(k as int))).push('"').push('"'));
            }
        } else {
            crate::text::push_char(out, c);
        }
    }
    proof {
        assert(s@.take(s@.len() as int) == s@);
    }
}

/// The CSV export as the backend writes it.
pub fn csv_text(entries: &[LogEntry]) -> (s: String)
    ensures
        s@ == csv_document(entries@),
{
    let mut s = String::from_str("\u{FEFF}时间,方向,编码,数据\n");
    let mut i: usize = 0;
    while i < entries.len()
        invariant
            i <= entries@.len(),
            s@ == csv_document(entries@.take(i as int)),
        decreases entries@.len() - i,
    {
        let e = &entries[i];
        s.append(e.timestamp.as_str());
        s.append(",");
        s.append(e.direction.as_str());
        s.append(",");
        s.append(e.encoding.as_str());
        s.append(",\"");
        push_quote_doubled(&mut s, e.data.as_str());
        s.append("\"\n");
        proof {
            let t = entries@.take(i + 1);
            assert(t.drop_last() == entries@.take(i as int));
            assert(t.last() == *e);
        }
        i += 1;
    }
    assert(entries@.take(entries@.len() as int) == entries@);
    s
}

/// Checks an export path against a format's extension; any format name is
/// taken as the extension.
pub fn normalize_export_path(path: &str, format: &str) -> (r: Result<String, String>)
    ensures
        r matches Ok(p) ==> path_with_checked_extension(path@, format@) == Ok::<
            Seq<char>,
            Seq<char>,
        >(p@),
        r matches Err(m) ==> path_with_checked_extension(path@, format@) == Err::<
            Seq<char>,
            Seq<char>,
        >(m@),
{
    check_path_extension(path, format)
}

/// A file to write: its path and its text.
#[derive(Debug)]
pub struct ExportFile {
    pub path: String,
    pub content: String,
}

/// The export command: for `txt` or `csv`, the checked path and the document;
/// any other format is refused.
pub fn export_data(entries: &[LogEntry], path: &str, format: &str) -> (r: Result<
    ExportFile,
    String,
>)
    ensures
        format@ == "txt"@ ==> match path_with_checked_extension(path@, "txt"@) {
            Ok(p) => r matches Ok(f) && f.path@ == p && f.content@ == txt_document_of(entries@, false),
            Err(m) => r matches Err(e) && e@ == m,
        },
        format@ == "csv"@ ==> match path_with_checked_extension(path@, "csv"@) {
            Ok(p) => r matches Ok(f) && f.path@ == p && f.content@ == csv_document(entries@),
            Err(m) => r matches Err(e) && e@ == m,
        },
        format@ != "txt"@ && format@ != "csv"@ ==> (r matches Err(e) && e@ == "不支持的导出格式"@),
{
    proof {
        reveal_strlit("txt");
        reveal_strlit("csv");
        assert("txt"@[0] != "csv"@[0]);
    }
    if str_equal(format, "txt") {
        let path = check_path_extension(path, "txt")?;
        Ok(ExportFile { path, content: txt_lines(entries, false) })
    } else if str_equal(format, "csv") {
        let path = check_path_extension(path, "csv")?;
        Ok(ExportFile { path, content: csv_text(entries) })
    } else {
        Err(String::from_str("不支持的导出格式"))
    }
}

} // verus!
