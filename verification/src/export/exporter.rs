//! Log export: rows from messages, the TXT and CSV documents, and the export
//! path check.

use crate::state::{
    direction_label, message_direction_label, visualize_serial_data, visualize_spec, Encoding,
    LogEntry, MessageDirection, ReceivedMessage,
};
use crate::text::{chars_equal, chars_of, eq_ignore_ascii_case, eq_ignore_ascii_case_spec, push_char};
use vstd::prelude::*;
use vstd::string::{StrSliceExecFns, StringExecFns};
use vstd::utf8::encode_utf8;

verus! {

broadcast use vstd::string::group_string_axioms;

/// Name of an encoding in exports.
pub open spec fn encoding_label(encoding: Encoding) -> Seq<char> {
    match encoding {
        Encoding::Ascii => "ASCII"@,
        Encoding::Hex => "HEX"@,
        Encoding::Utf8 => "UTF-8"@,
        Encoding::Gbk => "GBK"@,
    }
}

pub fn format_encoding(encoding: &Encoding) -> (s: &'static str)
    ensures
        s@ == encoding_label(*encoding),
{
    match encoding {
        Encoding::Ascii => "ASCII",
        Encoding::Hex => "HEX",
        Encoding::Utf8 => "UTF-8",
        Encoding::Gbk => "GBK",
    }
}

/// The export row of a message: its time stamp, direction label, encoding
/// name and text with visible CR/LF.
pub open spec fn is_entry_of(e: LogEntry, m: ReceivedMessage) -> bool {
    &&& e.timestamp@ == m.timestamp@
    &&& e.direction@ == direction_label(m.direction)
    &&& e.encoding@ == encoding_label(m.encoding)
    &&& e.data@ == visualize_spec(m.data@)
}

/// An export row labels its own message: received messages are "收到" and
/// sent ones "发送"; it keeps the time stamp, names the encoding ASCII, HEX,
/// UTF-8 or GBK, and keeps the text, with CR and LF made visible.
pub proof fn law_export_row_labels(e: LogEntry, m: ReceivedMessage)
    requires
        is_entry_of(e, m),
    ensures
        m.direction == MessageDirection::Received ==> e.direction@ == "收到"@,
        m.direction == MessageDirection::Sent ==> e.direction@ == "发送"@,
        e.timestamp@ == m.timestamp@,
        m.encoding == Encoding::Ascii ==> e.encoding@ == "ASCII"@,
        m.encoding == Encoding::Hex ==> e.encoding@ == "HEX"@,
        m.encoding == Encoding::Utf8 ==> e.encoding@ == "UTF-8"@,
        m.encoding == Encoding::Gbk ==> e.encoding@ == "GBK"@,
        !e.data@.contains('\r') && !e.data@.contains('\n'),
        !m.data@.contains('\r') && !m.data@.contains('\n') ==> e.data@ == m.data@,
{
    crate::state::law_visualized_text_has_no_breaks(m.data@);
}

/// Export rows for a list of messages, one per message, in order.
pub fn entries_from_messages(messages: &[ReceivedMessage]) -> (entries: Vec<LogEntry>)
    ensures
        entries@.len() == messages@.len(),
        forall|i: int| 0 <= i < messages@.len() ==> is_entry_of(#[trigger] entries@[i], messages@[i]),
{
    let mut entries: Vec<LogEntry> = Vec::new();
    let mut i: usize = 0;
    while i < messages.len()
        invariant
            i <= messages@.len(),
            entries@.len() == i,
            forall|j: int| 0 <= j < i ==> is_entry_of(#[trigger] entries@[j], messages@[j]),
        decreases messages@.len() - i,
    {
        let m = &messages[i];
        entries.push(
            LogEntry {
                timestamp: String::from_str(m.timestamp.as_str()),
                direction: String::from_str(message_direction_label(&m.direction)),
                encoding: String::from_str(format_encoding(&m.encoding)),
                data: visualize_serial_data(m.data.as_str()),
            },
        );
        i += 1;
    }
    entries
}

// ---------------------------------------------------------------------------
// Export paths.
// ---------------------------------------------------------------------------

/// Paths are read as on Unix-like systems: `/` separates components.
pub open spec fn is_separator(c: char) -> bool {
    c == '/'
}

/// The path without its trailing separators and trailing `.` components
/// (`a/b/./` ends in the component `b`). A leading `.` stays: it names the
/// current directory.
pub open spec fn strip_trailing_separators(p: Seq<char>) -> Seq<char>
    decreases p.len(),
{
    if p.len() > 0 && is_separator(p.last()) {
        strip_trailing_separators(p.drop_last())
    } else if p.len() >= 2 && p.last() == '.' && is_separator(p[p.len() - 2]) {
        strip_trailing_separators(p.drop_last())
    } else {
        p
    }
}

/// Index after the last separator in `p[..k]` (0 when there is none).
pub open spec fn name_start(p: Seq<char>, k: int) -> int
    decreases k,
{
    if k <= 0 {
        0
    } else if is_separator(p[k - 1]) {
        k
    } else {
        name_start(p, k - 1)
    }
}

/// Index of the last `.` in `s[..k]`, or -1.
pub open spec fn last_dot(s: Seq<char>, k: int) -> int
    decreases k,
{
    if k <= 0 {
        -1
    } else if s[k - 1] == '.' {
        k - 1
    } else {
        last_dot(s, k - 1)
    }
}

/// The range of the file name in the path: the last component once trailing
/// separators and `.` components are dropped. An empty last component (no
/// component, or only the root), `.` and `..` are not file names.
pub open spec fn file_name_range(p: Seq<char>) -> Option<(int, int)> {
    let q = strip_trailing_separators(p);
    let start = name_start(q, q.len() as int);
    let name = q.subrange(start, q.len() as int);
    if name.len() == 0 || name == seq!['.'] || name == seq!['.', '.'] {
        None
    } else {
        Some((start, q.len() as int))
    }
}

/// The file name's extension: the text after its last `.`, unless that `.`
/// starts the name or there is none.
pub open spec fn extension_of(p: Seq<char>) -> Option<Seq<char>> {
    match file_name_range(p) {
        None => None,
        Some((a, b)) => {
            let name = p.subrange(a, b);
            let d = last_dot(name, name.len() as int);
            if d <= 0 {
                None
            } else {
                Some(name.skip(d + 1))
            }
        },
    }
}

/// The path with its extension replaced by `ext` (or added): the path up to
/// the end of the file stem, then `.` and `ext`. Without a file name the path
/// is unchanged.
pub open spec fn with_extension(p: Seq<char>, ext: Seq<char>) -> Seq<char> {
    match file_name_range(p) {
        None => p,
        Some((a, b)) => {
            let name = p.subrange(a, b);
            let d = last_dot(name, name.len() as int);
            let stem_end = if d > 0 {
                a + d
            } else {
                b
            };
            p.take(stem_end) + seq!['.'] + ext
        },
    }
}

pub open spec fn unsupported_format_message() -> Seq<char> {
    "不支持的导出格式"@
}

pub open spec fn mismatch_message(format: Seq<char>, actual: Seq<char>) -> Seq<char> {
    "路径扩展名不匹配: 期望 ."@ + format + "，实际 ."@ + actual
}

/// A path checked against an extension: a path without extension (or with
/// an empty one) gets it; a different extension is refused; a matching one
/// (in any ASCII case) is kept.
pub open spec fn path_with_checked_extension(p: Seq<char>, format: Seq<char>) -> Result<
    Seq<char>,
    Seq<char>,
> {
    match extension_of(p) {
        None => Ok(with_extension(p, format)),
        Some(ext) => if ext.len() == 0 {
            Ok(with_extension(p, format))
        } else if !eq_ignore_ascii_case_spec(ext, format) {
            Err(mismatch_message(format, ext))
        } else {
            Ok(p)
        },
    }
}

/// What `normalize_export_path` returns: only `txt` and `csv` are formats,
/// and the path is then checked against the format's extension.
pub open spec fn normalize_export_path_spec(p: Seq<char>, format: Seq<char>) -> Result<
    Seq<char>,
    Seq<char>,
> {
    if format != "txt"@ && format != "csv"@ {
        Err(unsupported_format_message())
    } else {
        path_with_checked_extension(p, format)
    }
}

fn strip_end(v: &Vec<char>) -> (e: usize)
    ensures
        e <= v@.len(),
        strip_trailing_separators(v@) == v@.take(e as int),
{
    let mut e = v.len();
    assert(v@.take(v@.len() as int) == v@);
    while e > 0 && (v[e - 1] == '/' || (e >= 2 && v[e - 1] == '.' && v[e - 2] == '/'))
        invariant
            e <= v@.len(),
            strip_trailing_separators(v@) == strip_trailing_separators(v@.take(e as int)),
        decreases e,
    {
        proof {
            let t = v@.take(e as int);
            assert(t.drop_last() == v@.take(e - 1));
            assert(t.last() == v@[e - 1]);
            if e >= 2 {
                assert(t[t.len() - 2] == v@[e - 2]);
            }
        }
        e -= 1;
    }
    proof {
        let t = v@.take(e as int);
        if t.len() > 0 {
            assert(t.last() == v@[e - 1]);
        }
        if t.len() >= 2 {
            assert(t[t.len() - 2] == v@[e - 2]);
        }
        assert(v@.take(v@.len() as int) == v@);
    }
    e
}

fn find_name_start(q: &Vec<char>, k: usize) -> (s: usize)
    requires
        k <= q@.len(),
    ensures
        s as int == name_start(q@, k as int),
        s <= k,
{
    let mut i = k;
    while i > 0 && q[i - 1] != '/'
        invariant
            i <= k <= q@.len(),
            name_start(q@, k as int) == name_start(q@, i as int),
        decreases i,
    {
        i -= 1;
    }
    i
}

fn find_last_dot(s: &Vec<char>, lo: usize, hi: usize) -> (d: Option<usize>)
    requires
        lo <= hi <= s@.len(),
    ensures
        ({
            let name = s@.subrange(lo as int, hi as int);
            let ld = last_dot(name, name.len() as int);
            &&& d is None <==> ld == -1
            &&& d matches Some(x) ==> x as int == ld
        }),
{
    let ghost name = s@.subrange(lo as int, hi as int);
    let mut k = hi - lo;
    while k > 0 && s[lo + k - 1] != '.'
        invariant
            lo + k <= hi <= s@.len(),
            name == s@.subrange(lo as int, hi as int),
            last_dot(name, name.len() as int) == last_dot(name, k as int),
        decreases k,
    {
        assert(name[k - 1] == s@[lo + k - 1]);
        k -= 1;
    }
    if k == 0 {
        None
    } else {
        assert(name[k - 1] == s@[lo + k - 1]);
        Some(k - 1)
    }
}

/// `name_start` is the index after the last separator before `k`.
proof fn lemma_name_start_is(s: Seq<char>, k: int, r: int)
    requires
        0 <= r <= k <= s.len(),
        r == 0 || is_separator(s[r - 1]),
        forall|i: int| r <= i < k ==> !is_separator(#[trigger] s[i]),
    ensures
        name_start(s, k) == r,
    decreases k,
{
    if k > r {
        lemma_name_start_is(s, k - 1, r);
    }
}

/// `name_start` gives an index after which no separator comes.
proof fn lemma_name_start_bounds(s: Seq<char>, k: int)
    requires
        0 <= k <= s.len(),
    ensures
        0 <= name_start(s, k) <= k,
        name_start(s, k) == 0 || is_separator(s[name_start(s, k) - 1]),
        forall|i: int| name_start(s, k) <= i < k ==> !is_separator(#[trigger] s[i]),
    decreases k,
{
    if k > 0 && !is_separator(s[k - 1]) {
        lemma_name_start_bounds(s, k - 1);
    }
}

/// `last_dot` is the index of the last `.` before `k`.
proof fn lemma_last_dot_is(s: Seq<char>, k: int, d: int)
    requires
        0 <= d < k <= s.len(),
        s[d] == '.',
        forall|i: int| d < i < k ==> #[trigger] s[i] != '.',
    ensures
        last_dot(s, k) == d,
    decreases k,
{
    if k - 1 > d {
        lemma_last_dot_is(s, k - 1, d);
    }
}

proof fn lemma_strip_prefix(p: Seq<char>)
    ensures
        strip_trailing_separators(p) == p.take(strip_trailing_separators(p).len() as int),
        strip_trailing_separators(p).len() <= p.len(),
    decreases p.len(),
{
    if (p.len() > 0 && is_separator(p.last())) || (p.len() >= 2 && p.last() == '.'
        && is_separator(p[p.len() - 2])) {
        lemma_strip_prefix(p.drop_last());
        assert(p.drop_last().take(strip_trailing_separators(p).len() as int) == p.take(
            strip_trailing_separators(p).len() as int,
        ));
    } else {
        assert(p.take(p.len() as int) == p);
    }
}

/// The format names hold neither separators nor dots.
pub open spec fn is_format_name(f: Seq<char>) -> bool {
    f == "txt"@ || f == "csv"@
}

/// Giving a path with a file name the extension of a format yields a path
/// whose file name ends in that extension, at the same place.
proof fn lemma_with_extension_has_it(p: Seq<char>, f: Seq<char>)
    requires
        is_format_name(f),
        file_name_range(p) is Some,
    ensures
        extension_of(with_extension(p, f)) == Some(f),
{
    reveal_strlit("txt");
    reveal_strlit("csv");
    let q0 = strip_trailing_separators(p);
    lemma_strip_prefix(p);
    lemma_name_start_bounds(q0, q0.len() as int);
    let (a, b) = file_name_range(p)->Some_0;
    let name = p.subrange(a, b);
    assert(name == q0.subrange(a, b));
    let d = last_dot(name, name.len() as int);
    let stem_end = if d > 0 { a + d } else { b };
    if d > 0 {
        lemma_last_dot_range(name, name.len() as int);
    }
    assert(a < stem_end <= b);
    let q = with_extension(p, f);
    let pre = p.take(stem_end);
    assert(q == pre + seq!['.'] + f);
    assert(q.len() == stem_end + 4);
    // Nothing to strip: the path ends with the format's last letter.
    assert(!is_separator(q.last()) && q.last() != '.');
    assert(strip_trailing_separators(q) == q);
    // The file name starts where it started before.
    assert forall|i: int| a <= i < q.len() implies !is_separator(#[trigger] q[i]) by {
        if i < stem_end {
            assert(q[i] == q0[i]);
        }
    }
    if a > 0 {
        assert(q[a - 1] == q0[a - 1]);
    }
    lemma_name_start_is(q, q.len() as int, a);
    let qname = q.subrange(a, q.len() as int);
    assert(qname.len() >= 4);
    assert(qname != seq!['.'] && qname != seq!['.', '.']);
    assert(file_name_range(q) == Some((a, q.len() as int)));
    // The last dot is the one before the extension.
    assert(qname[stem_end - a] == '.');
    assert forall|i: int| stem_end - a < i < qname.len() implies #[trigger] qname[i] != '.' by {
        assert(qname[i] == f[i - (stem_end - a) - 1]);
    }
    lemma_last_dot_is(qname, qname.len() as int, stem_end - a);
    assert(qname.skip(stem_end - a + 1) == f);
}

/// A normalized export path carries the format's extension (when it has a
/// file name at all), and normalizing it again gives it back unchanged.
pub proof fn law_normalized_path_is_stable(p: Seq<char>, format: Seq<char>)
    requires
        normalize_export_path_spec(p, format) is Ok,
    ensures
        ({
            let q = normalize_export_path_spec(p, format)->Ok_0;
            &&& normalize_export_path_spec(q, format) == Ok::<Seq<char>, Seq<char>>(q)
            &&& file_name_range(q) is Some ==> (extension_of(q) matches Some(e)
                && eq_ignore_ascii_case_spec(e, format))
        }),
{
    reveal_strlit("txt");
    reveal_strlit("csv");
    let q = normalize_export_path_spec(p, format)->Ok_0;
    assert(is_format_name(format));
    assert(eq_ignore_ascii_case_spec(format, format));
    match extension_of(p) {
        Some(ext) => {
            if ext.len() != 0 {
                assert(q == p);
                return;
            }
        },
        None => {},
    }
    assert(q == with_extension(p, format));
    if file_name_range(p) is Some {
        lemma_with_extension_has_it(p, format);
    } else {
        assert(q == p);
    }
}

/// Checks an export path against the chosen format (`txt` or `csv`): a path
/// without an extension gets the format's extension, a different extension
/// is refused.
pub fn normalize_export_path(path: &str, format: &str) -> (r: Result<String, String>)
    ensures
        r matches Ok(p) ==> normalize_export_path_spec(path@, format@) == Ok::<
            Seq<char>,
            Seq<char>,
        >(p@),
        r matches Err(m) ==> normalize_export_path_spec(path@, format@) == Err::<
            Seq<char>,
            Seq<char>,
        >(m@),
{
    let f = chars_of(format);
    let txt = chars_of("txt");
    let csv = chars_of("csv");
    if !chars_equal(&f, &txt) && !chars_equal(&f, &csv) {
        return Err(String::from_str("不支持的导出格式"));
    }
    check_path_extension(path, format)
}

/// Checks a path against an extension: a path without extension gets it, a
/// different extension is refused, a matching one is kept.
pub fn check_path_extension(path: &str, format: &str) -> (r: Result<String, String>)
    ensures
        r matches Ok(p) ==> path_with_checked_extension(path@, format@) == Ok::<
            Seq<char>,
            Seq<char>,
        >(p@),
        r matches Err(m) ==> path_with_checked_extension(path@, format@) == Err::<
            Seq<char>,
            Seq<char>,
        >(m@),
{
    let f = chars_of(format);
    let v = chars_of(path);
    let e = strip_end(&v);
    let start = find_name_start(&v, e);
    proof {
        let q = v@.take(e as int);
        assert forall|k: int| 0 <= k <= e implies name_start(q, k) == name_start(v@, k) by {
            lemma_name_start_prefix(v@, e as int, k);
        }
        assert(q.subrange(start as int, q.len() as int) == v@.subrange(start as int, e as int));
    }
    let name_len = e - start;
    let is_dot = name_len == 1 && v[start] == '.';
    let is_dot_dot = name_len == 2 && v[start] == '.' && v[start + 1] == '.';
    proof {
        let name = v@.subrange(start as int, e as int);
        if name_len == 1 {
            assert(name[0] == v@[start as int]);
            assert(name == seq!['.'] <==> v@[start as int] == '.') by {
                if v@[start as int] == '.' {
                    assert(name == seq!['.']);
                }
            }
        }
        if name_len == 2 {
            assert(name[0] == v@[start as int] && name[1] == v@[start + 1]);
            assert(name == seq!['.', '.'] <==> (v@[start as int] == '.' && v@[start + 1] == '.'))
                by {
                if v@[start as int] == '.' && v@[start + 1] == '.' {
                    assert(name == seq!['.', '.']);
                }
            }
        }
    }
    if name_len == 0 || is_dot || is_dot_dot {
        // no file name: the extension is missing and cannot be set
        return Ok(String::from_str(path));
    }
    let dot = find_last_dot(&v, start, e);
    proof {
        let name = v@.subrange(start as int, e as int);
        lemma_last_dot_range(name, name.len() as int);
    }
    let (has_ext, ext_start) = match dot {
        Some(d) if d > 0 => (true, start + d + 1),
        _ => (false, e),
    };
    proof {
        let name = v@.subrange(start as int, e as int);
        if has_ext {
            assert(name.skip(ext_start - start) == v@.subrange(ext_start as int, e as int));
        }
    }
    if !has_ext || ext_start == e {
        let stem_end = match dot {
            Some(d) if d > 0 => start + d,
            _ => e,
        };
        let mut out = crate::text::string_from_chars(&v, 0, stem_end);
        push_char(&mut out, '.');
        out.append(format);
        proof {
            assert(v@.subrange(0, stem_end as int) == path@.take(stem_end as int));
            let name = v@.subrange(start as int, e as int);
            assert(file_name_range(path@) == Some((start as int, e as int)));
            assert(path@.subrange(start as int, e as int) == name);
            assert(with_extension(path@, format@) == path@.take(stem_end as int) + seq!['.']
                + format@);
            assert(path@.take(stem_end as int).push('.') == path@.take(stem_end as int) + seq![
                '.',
            ]);
        }
        return Ok(out);
    }
    let ext = crate::text::string_from_chars(&v, ext_start, e);
    let ext_chars = chars_of(ext.as_str());
    if !eq_ignore_ascii_case(&ext_chars, &f) {
        let mut m = String::from_str("路径扩展名不匹配: 期望 .");
        m.append(format);
        m.append("，实际 .");
        m.append(ext.as_str());
        return Err(m);
    }
    Ok(String::from_str(path))
}

proof fn lemma_last_dot_range(s: Seq<char>, k: int)
    requires
        0 <= k <= s.len(),
    ensures
        -1 <= last_dot(s, k) < k,
        last_dot(s, k) >= 0 ==> s[last_dot(s, k)] == '.',
    decreases k,
{
    if k > 0 && s[k - 1] != '.' {
        lemma_last_dot_range(s, k - 1);
    }
}

proof fn lemma_name_start_prefix(v: Seq<char>, e: int, k: int)
    requires
        0 <= k <= e <= v.len(),
    ensures
        name_start(v.take(e), k) == name_start(v, k),
    decreases k,
{
    if k > 0 {
        assert(v.take(e)[k - 1] == v[k - 1]);
        lemma_name_start_prefix(v, e, k - 1);
    }
}

// ---------------------------------------------------------------------------
// Documents.
// ---------------------------------------------------------------------------

/// One TXT line: `[time] direction: data`, with the encoding after the
/// direction when `with_encoding` is set: `[time] direction encoding: data`.
pub open spec fn txt_line_of(e: LogEntry, with_encoding: bool) -> Seq<char> {
    let head = "["@ + e.timestamp@ + "] "@ + e.direction@;
    if with_encoding {
        head + " "@ + e.encoding@ + ": "@ + e.data@
    } else {
        head + ": "@ + e.data@
    }
}

/// TXT lines joined with `\n` (no trailing newline).
pub open spec fn txt_document_of(entries: Seq<LogEntry>, with_encoding: bool) -> Seq<char>
    decreases entries.len(),
{
    if entries.len() == 0 {
        Seq::empty()
    } else if entries.len() == 1 {
        txt_line_of(entries[0], with_encoding)
    } else {
        txt_document_of(entries.drop_last(), with_encoding).push('\n') + txt_line_of(
            entries.last(),
            with_encoding,
        )
    }
}

/// The TXT export: time, direction, encoding and data of every row.
pub open spec fn txt_document(entries: Seq<LogEntry>) -> Seq<char> {
    txt_document_of(entries, true)
}

/// TXT lines of the given rows, with or without the encoding.
pub fn txt_lines(entries: &[LogEntry], with_encoding: bool) -> (s: String)
    ensures
        s@ == txt_document_of(entries@, with_encoding),
{
    let mut s = String::new();
    let mut i: usize = 0;
    while i < entries.len()
        invariant
            i <= entries@.len(),
            s@ == txt_document_of(entries@.take(i as int), with_encoding),
        decreases entries@.len() - i,
    {
        let e = &entries[i];
        let ghost t = entries@.take(i + 1);
        assert(t.drop_last() == entries@.take(i as int));
        assert(t.last() == *e);
        let ghost before = s@;
        if i > 0 {
            push_char(&mut s, '\n');
        }
        let ghost sep = s@;
        s.append("[");
        s.append(e.timestamp.as_str());
        s.append("] ");
        s.append(e.direction.as_str());
        if with_encoding {
            s.append(" ");
            s.append(e.encoding.as_str());
        }
        s.append(": ");
        s.append(e.data.as_str());
        proof {
            assert(s@ == sep + txt_line_of(*e, with_encoding));
            if i == 0 {
                assert(before == Seq::<char>::empty());
                assert(Seq::<char>::empty() + txt_line_of(*e, with_encoding) == txt_line_of(
                    *e,
                    with_encoding,
                ));
                assert(t.len() == 1);
            }
        }
        i += 1;
    }
    assert(entries@.take(entries@.len() as int) == entries@);
    s
}

/// The TXT export of the given rows.
pub fn txt_content(entries: &[LogEntry]) -> (s: String)
    ensures
        s@ == txt_document(entries@),
{
    txt_lines(entries, true)
}

/// Header row of the CSV export.
pub open spec fn csv_header() -> Seq<Seq<char>> {
    seq!["时间"@, "方向"@, "编码"@, "数据"@]
}

/// The CSV fields of one row.
pub open spec fn csv_row(e: LogEntry) -> Seq<Seq<char>> {
    seq![e.timestamp@, e.direction@, e.encoding@, e.data@]
}

/// CSV records for the rows: header first.
pub open spec fn csv_records(entries: Seq<LogEntry>) -> Seq<Seq<Seq<char>>> {
    seq![csv_header()] + entries.map_values(|e: LogEntry| csv_row(e))
}

/// A field the csv writer quotes: one that holds the delimiter `,`, the
/// quote `"`, CR or LF.
pub open spec fn csv_needs_quotes(f: Seq<char>) -> bool {
    f.contains(',') || f.contains('"') || f.contains('\r') || f.contains('\n')
}

/// The field with each `"` doubled.
pub open spec fn csv_double_quotes(f: Seq<char>) -> Seq<char>
    decreases f.len(),
{
    if f.len() == 0 {
        Seq::empty()
    } else {
        csv_double_quotes(f.drop_last()) + if f.last() == '"' {
            seq!['"', '"']
        } else {
            seq![f.last()]
        }
    }
}

/// A field as written: quoted (with its quotes doubled) where it needs
/// quotes, as it is otherwise.
pub open spec fn csv_field_text(f: Seq<char>) -> Seq<char> {
    if csv_needs_quotes(f) {
        seq!['"'] + csv_double_quotes(f) + seq!['"']
    } else {
        f
    }
}

/// The written fields of a record, separated by `,`.
pub open spec fn csv_join(fields: Seq<Seq<char>>) -> Seq<char>
    decreases fields.len(),
{
    if fields.len() == 0 {
        Seq::empty()
    } else if fields.len() == 1 {
        csv_field_text(fields[0])
    } else {
        csv_join(fields.drop_last()) + seq![','] + csv_field_text(fields.last())
    }
}

/// A record and its `\n` terminator; a record that would otherwise be
/// written as nothing (no field, or a single empty one) is written as `""`.
pub open spec fn csv_record_text(fields: Seq<Seq<char>>) -> Seq<char> {
    if csv_join(fields).len() == 0 {
        seq!['"', '"', '\n']
    } else {
        csv_join(fields).push('\n')
    }
}

/// The records, one after the other.
pub open spec fn csv_text(records: Seq<Seq<Seq<char>>>) -> Seq<char>
    decreases records.len(),
{
    if records.len() == 0 {
        Seq::empty()
    } else {
        csv_text(records.drop_last()) + csv_record_text(records.last())
    }
}

/// The bytes `csv::Writer` writes for these records in its default
/// configuration (delimiter `,`, quote `"` escaped by doubling, quoting only
/// where necessary, terminator `\n`): the UTF-8 encoding of `csv_text`.
pub open spec fn csv_document(records: Seq<Seq<Seq<char>>>) -> Seq<u8> {
    encode_utf8(csv_text(records))
}

/// A `csv::Writer` over an in-memory byte buffer. (Verus does not accept a
/// declaration of the generic writer type, whose parameter is bound by
/// `std::io::Write`; the writer is therefore held here.)
#[verifier::external_body]
pub struct CsvBuffer {
    writer: csv::Writer<Vec<u8>>,
}

/// The records the writer in a `CsvBuffer` has accepted so far.
pub uninterp spec fn csv_records_written(w: CsvBuffer) -> Seq<Seq<Seq<char>>>;

/// The writer in a `CsvBuffer` is between records: no field of an unfinished
/// record is held.
pub uninterp spec fn csv_writer_idle(w: CsvBuffer) -> bool;

/// `csv::WriterBuilder::new().has_headers(true).from_writer(Vec::new())`: an
/// idle writer that has accepted no record.
#[verifier::external_body]
fn csv_writer_new() -> (w: CsvBuffer)
    ensures
        csv_records_written(w) == Seq::<Seq<Seq<char>>>::empty(),
        csv_writer_idle(w),
{
    CsvBuffer { writer: csv::WriterBuilder::new().has_headers(true).from_writer(Vec::new()) }
}

/// `csv::Writer::write_record` on an in-memory writer. Its only failure
/// there is a record whose field count differs from the first record's (the
/// writer is not flexible): writes into a `Vec<u8>` do not fail. So on an
/// idle writer a record with the first record's field count (or the first
/// record) is accepted after the earlier ones, and the writer is idle again.
#[verifier::external_body]
fn csv_write_record(w: &mut CsvBuffer, record: &Vec<String>) -> (r: Result<(), String>)
    ensures
        csv_writer_idle(*old(w)) && (csv_records_written(*old(w)).len() == 0 || record@.len()
            == csv_records_written(*old(w))[0].len()) ==> r is Ok,
        csv_writer_idle(*old(w)) && r is Ok ==> csv_writer_idle(*final(w))
            && csv_records_written(*final(w)) == csv_records_written(*old(w)).push(
            record.deep_view(),
        ),
{
    w.writer.write_record(record.iter()).map_err(|e| e.to_string())
}

/// `csv::Writer::into_inner` on an in-memory writer: flushing into a
/// `Vec<u8>` does not fail, and from an idle writer the buffer holds what
/// the writer wrote for the accepted records, which csv-core's writer
/// (`field`, `delimiter`, `terminator` and `should_quote` under
/// `QuoteStyle::Necessary`) makes `csv_document` of them.
#[verifier::external_body]
fn csv_into_inner(w: CsvBuffer) -> (r: Result<Vec<u8>, String>)
    ensures
        r is Ok,
        r matches Ok(b) ==> (csv_writer_idle(w) ==> b@ == csv_document(csv_records_written(w))),
{
    w.writer.into_inner().map_err(|e| e.to_string())
}

/// UTF-8 byte order mark, so that spreadsheet programs read the file as UTF-8.
pub open spec fn utf8_bom() -> Seq<u8> {
    seq![0xEFu8, 0xBBu8, 0xBFu8]
}

fn record_of(fields: &[&str]) -> (r: Vec<String>)
    ensures
        r@.len() == fields@.len(),
        forall|i: int| 0 <= i < fields@.len() ==> (#[trigger] r@[i])@ == fields@[i]@,
{
    let mut r: Vec<String> = Vec::new();
    let mut i: usize = 0;
    while i < fields.len()
        invariant
            i <= fields@.len(),
            r@.len() == i,
            forall|j: int| 0 <= j < i ==> (#[trigger] r@[j])@ == fields@[j]@,
        decreases fields@.len() - i,
    {
        r.push(String::from_str(fields[i]));
        i += 1;
    }
    r
}

/// The CSV export of the given rows: a byte order mark, then the header and
/// one record per row as the csv crate writes them.
pub fn csv_content(entries: &[LogEntry]) -> (r: Result<Vec<u8>, String>)
    ensures
        r matches Ok(b) && b@ == utf8_bom() + csv_document(csv_records(entries@)),
{
    let mut w = csv_writer_new();
    let header = record_of(&["时间", "方向", "编码", "数据"]);
    assert(header.deep_view() == csv_header());
    match csv_write_record(&mut w, &header) {
        Ok(()) => {},
        Err(e) => return Err(e),
    }
    let mut i: usize = 0;
    while i < entries.len()
        invariant
            i <= entries@.len(),
            csv_writer_idle(w),
            csv_records_written(w) == csv_records(entries@.take(i as int)),
        decreases entries@.len() - i,
    {
        let e = &entries[i];
        let row = record_of(&[e.timestamp.as_str(), e.direction.as_str(), e.encoding.as_str(), e.data.as_str()]);
        assert(row.deep_view() == csv_row(*e));
        assert(csv_records_written(w)[0] == csv_header());
        match csv_write_record(&mut w, &row) {
            Ok(()) => {},
            Err(err) => return Err(err),
        }
        assert(entries@.take(i + 1).map_values(|x: LogEntry| csv_row(x)) == entries@.take(
            i as int,
        ).map_values(|x: LogEntry| csv_row(x)).push(csv_row(*e)));
        i += 1;
    }
    assert(entries@.take(entries@.len() as int) == entries@);
    match csv_into_inner(w) {
        Ok(body) => {
            let mut out: Vec<u8> = Vec::new();
            out.push(0xEF);
            out.push(0xBB);
            out.push(0xBF);
            let mut body = body;
            out.append(&mut body);
            Ok(out)
        },
        Err(e) => Err(e),
    }
}


// ---------------------------------------------------------------------------
// Reading the CSV text back.
// ---------------------------------------------------------------------------

/// Where a CSV reader stands: at the start of a record, at the start of a
/// later field, in an unquoted field, in a quoted field, or just after a
/// quote inside a quoted field (which either closes it or, doubled, stands
/// for a quote).
pub enum CsvReadMode {
    RecordStart,
    FieldStart,
    Unquoted,
    Quoted,
    QuoteSeen,
}

/// A CSV reader's state: the records read, the fields read of the current
/// record, the current field so far, and where it stands.
pub type CsvReadState = (Seq<Seq<Seq<char>>>, Seq<Seq<char>>, Seq<char>, CsvReadMode);

/// A reader at the start of a record, with `records` read.
pub open spec fn csv_at_record_start(records: Seq<Seq<Seq<char>>>) -> CsvReadState {
    (records, Seq::empty(), Seq::empty(), CsvReadMode::RecordStart)
}

/// The field ends: it joins the fields of the current record.
pub open spec fn csv_end_field(st: CsvReadState) -> CsvReadState {
    (st.0, st.1.push(st.2), Seq::empty(), CsvReadMode::FieldStart)
}

/// The record ends: its last field joins it, and it joins the records.
pub open spec fn csv_end_record(st: CsvReadState) -> CsvReadState {
    csv_at_record_start(st.0.push(st.1.push(st.2)))
}

/// One character read as RFC 4180 describes, with LF as the line break
/// (the csv crate's default terminator): `,` separates fields and LF
/// records outside quotes, a field that starts with `"` runs to the next
/// single `"`, and `""` inside it stands for `"`.
pub open spec fn csv_read_step(st: CsvReadState, c: char) -> CsvReadState {
    match st.3 {
        CsvReadMode::RecordStart | CsvReadMode::FieldStart => if c == '"' {
            (st.0, st.1, Seq::empty(), CsvReadMode::Quoted)
        } else if c == ',' {
            csv_end_field(st)
        } else if c == '\n' {
            csv_end_record(st)
        } else {
            (st.0, st.1, seq![c], CsvReadMode::Unquoted)
        },
        CsvReadMode::Unquoted => if c == ',' {
            csv_end_field(st)
        } else if c == '\n' {
            csv_end_record(st)
        } else {
            (st.0, st.1, st.2.push(c), CsvReadMode::Unquoted)
        },
        CsvReadMode::Quoted => if c == '"' {
            (st.0, st.1, st.2, CsvReadMode::QuoteSeen)
        } else {
            (st.0, st.1, st.2.push(c), CsvReadMode::Quoted)
        },
        CsvReadMode::QuoteSeen => if c == '"' {
            (st.0, st.1, st.2.push('"'), CsvReadMode::Quoted)
        } else if c == ',' {
            csv_end_field(st)
        } else if c == '\n' {
            csv_end_record(st)
        } else {
            (st.0, st.1, st.2.push(c), CsvReadMode::Unquoted)
        },
    }
}

/// The reader's state after reading `text` from `st`.
pub open spec fn csv_read(st: CsvReadState, text: Seq<char>) -> CsvReadState
    decreases text.len(),
{
    if text.len() == 0 {
        st
    } else {
        csv_read_step(csv_read(st, text.drop_last()), text.last())
    }
}

proof fn lemma_csv_read_concat(st: CsvReadState, a: Seq<char>, b: Seq<char>)
    ensures
        csv_read(st, a + b) == csv_read(csv_read(st, a), b),
    decreases b.len(),
{
    if b.len() == 0 {
        assert(a + b == a);
    } else {
        lemma_csv_read_concat(st, a, b.drop_last());
        assert((a + b).drop_last() == a + b.drop_last());
        assert((a + b).last() == b.last());
    }
}

proof fn lemma_read_one(st: CsvReadState, c: char)
    ensures
        csv_read(st, seq![c]) == csv_read_step(st, c),
{
    assert(seq![c].drop_last() == Seq::<char>::empty());
    assert(csv_read(st, Seq::<char>::empty()) == st);
    assert(seq![c].last() == c);
}

/// A reader that has read `field` of the current record and may end it
/// with `,` or LF.
pub open spec fn csv_field_read(
    st: CsvReadState,
    records: Seq<Seq<Seq<char>>>,
    fields: Seq<Seq<char>>,
    field: Seq<char>,
) -> bool {
    &&& st.0 == records
    &&& st.1 == fields
    &&& st.2 == field
    &&& match st.3 {
        CsvReadMode::RecordStart | CsvReadMode::FieldStart => field.len() == 0,
        CsvReadMode::Unquoted | CsvReadMode::QuoteSeen => true,
        CsvReadMode::Quoted => false,
    }
}

/// Reading an unquoted field's characters, none of them `,`, `"` or LF.
proof fn lemma_read_plain(st: CsvReadState, f: Seq<char>)
    requires
        st.3 is RecordStart || st.3 is FieldStart,
        st.2.len() == 0,
        !f.contains(','),
        !f.contains('"'),
        !f.contains('\n'),
    ensures
        csv_read(st, f) == (if f.len() == 0 {
            st
        } else {
            (st.0, st.1, f, CsvReadMode::Unquoted)
        }),
    decreases f.len(),
{
    if f.len() > 0 {
        let dl = f.drop_last();
        assert forall|c: char| dl.contains(c) implies f.contains(c) by {
            let k = choose|k: int| 0 <= k < dl.len() && dl[k] == c;
            assert(f[k] == c);
        }
        lemma_read_plain(st, dl);
        let c = f.last();
        assert(f[f.len() - 1] == c);
        if dl.len() == 0 {
            assert(f == seq![c]);
        } else {
            assert(dl.push(c) == f);
        }
    }
}

/// Reading the inside of a quoted field: each doubled quote stands for one.
proof fn lemma_read_doubled(st: CsvReadState, f: Seq<char>)
    requires
        st.3 is Quoted,
    ensures
        csv_read(st, csv_double_quotes(f)) == (st.0, st.1, st.2 + f, CsvReadMode::Quoted),
    decreases f.len(),
{
    if f.len() == 0 {
        assert(st.2 + f == st.2);
    } else {
        let dl = f.drop_last();
        let c = f.last();
        lemma_read_doubled(st, dl);
        let piece = if c == '"' {
            seq!['"', '"']
        } else {
            seq![c]
        };
        lemma_csv_read_concat(st, csv_double_quotes(dl), piece);
        let mid = csv_read(st, csv_double_quotes(dl));
        if c == '"' {
            assert(piece == seq!['"'] + seq!['"']);
            lemma_csv_read_concat(mid, seq!['"'], seq!['"']);
            lemma_read_one(mid, '"');
            lemma_read_one(csv_read(mid, seq!['"']), '"');
        } else {
            lemma_read_one(mid, c);
        }
        assert((st.2 + dl).push(c) == st.2 + f);
    }
}

/// Reading a field as written, from the start of a field.
proof fn lemma_read_field(st: CsvReadState, f: Seq<char>)
    requires
        st.3 is RecordStart || st.3 is FieldStart,
        st.2.len() == 0,
    ensures
        csv_field_read(csv_read(st, csv_field_text(f)), st.0, st.1, f),
{
    if csv_needs_quotes(f) {
        let open = seq!['"'];
        let inner = csv_double_quotes(f);
        assert(csv_field_text(f) == (open + inner) + seq!['"']);
        lemma_csv_read_concat(st, open + inner, seq!['"']);
        lemma_csv_read_concat(st, open, inner);
        lemma_read_one(st, '"');
        let q = csv_read(st, open);
        assert(q == (st.0, st.1, Seq::<char>::empty(), CsvReadMode::Quoted));
        lemma_read_doubled(q, f);
        assert(Seq::<char>::empty() + f == f);
        lemma_read_one(csv_read(st, open + inner), '"');
        assert(csv_read(st, open + inner) == (st.0, st.1, f, CsvReadMode::Quoted));
    } else {
        lemma_read_plain(st, f);
        if f.len() == 0 {
            assert(st.2 == f);
        }
    }
}

/// Reading the fields of a record as written, from the start of a record.
proof fn lemma_read_join(records: Seq<Seq<Seq<char>>>, fs: Seq<Seq<char>>)
    requires
        fs.len() >= 1,
    ensures
        csv_field_read(
            csv_read(csv_at_record_start(records), csv_join(fs)),
            records,
            fs.drop_last(),
            fs.last(),
        ),
    decreases fs.len(),
{
    let st = csv_at_record_start(records);
    if fs.len() == 1 {
        lemma_read_field(st, fs[0]);
        assert(fs.drop_last() == Seq::<Seq<char>>::empty());
    } else {
        let dl = fs.drop_last();
        lemma_read_join(records, dl);
        lemma_csv_read_concat(st, csv_join(dl) + seq![','], csv_field_text(fs.last()));
        lemma_csv_read_concat(st, csv_join(dl), seq![',']);
        let mid = csv_read(st, csv_join(dl));
        lemma_read_one(mid, ',');
        let after = csv_read(mid, seq![',']);
        assert(dl.drop_last().push(dl.last()) == dl);
        assert(after == (records, dl, Seq::<char>::empty(), CsvReadMode::FieldStart));
        lemma_read_field(after, fs.last());
    }
}

/// Reading a record as written, from the start of a record.
proof fn lemma_read_record(records: Seq<Seq<Seq<char>>>, fs: Seq<Seq<char>>)
    requires
        fs.len() >= 1,
    ensures
        csv_read(csv_at_record_start(records), csv_record_text(fs)) == csv_at_record_start(
            records.push(fs),
        ),
{
    let st = csv_at_record_start(records);
    lemma_read_join(records, fs);
    assert(fs.drop_last().push(fs.last()) == fs);
    let j = csv_join(fs);
    if j.len() == 0 {
        if fs.len() >= 2 {
            assert(j.len() >= 1);
        }
        assert(fs.len() == 1);
        let e = seq!['"', '"', '\n'];
        assert(e == seq!['"'] + seq!['"'] + seq!['\n']);
        lemma_csv_read_concat(st, seq!['"'] + seq!['"'], seq!['\n']);
        lemma_csv_read_concat(st, seq!['"'], seq!['"']);
        lemma_read_one(st, '"');
        let s1 = csv_read(st, seq!['"']);
        lemma_read_one(s1, '"');
        let s2 = csv_read(s1, seq!['"']);
        lemma_read_one(s2, '\n');
        assert(csv_read(st, e) == csv_end_record(
            (records, Seq::<Seq<char>>::empty(), Seq::<char>::empty(), CsvReadMode::QuoteSeen),
        ));
        assert(csv_read(csv_at_record_start(records), j) == st);
        assert(fs == seq![fs[0]]);
        assert(Seq::<Seq<char>>::empty().push(fs[0]) == fs);
    } else {
        assert(j.push('\n') == j + seq!['\n']);
        lemma_csv_read_concat(st, j, seq!['\n']);
        lemma_read_one(csv_read(st, j), '\n');
    }
}

/// Reading the text of the records, from the start.
proof fn lemma_read_text(records: Seq<Seq<Seq<char>>>)
    requires
        forall|i: int| 0 <= i < records.len() ==> (#[trigger] records[i]).len() >= 1,
    ensures
        csv_read(csv_at_record_start(Seq::empty()), csv_text(records)) == csv_at_record_start(
            records,
        ),
    decreases records.len(),
{
    if records.len() > 0 {
        let dl = records.drop_last();
        assert forall|i: int| 0 <= i < dl.len() implies (#[trigger] dl[i]).len() >= 1 by {
            assert(dl[i] == records[i]);
        }
        lemma_read_text(dl);
        lemma_csv_read_concat(
            csv_at_record_start(Seq::empty()),
            csv_text(dl),
            csv_record_text(records.last()),
        );
        lemma_read_record(dl, records.last());
        assert(dl.push(records.last()) == records);
    }
}

/// The CSV text reads back as the records it was written from: an RFC 4180
/// reader (with LF line breaks) that decodes the written bytes as UTF-8
/// ends at a record boundary with exactly these records. A record without
/// fields is left out: it is written as `""`, which reads as one empty
/// field.
pub proof fn law_csv_reads_back(records: Seq<Seq<Seq<char>>>)
    requires
        forall|i: int| 0 <= i < records.len() ==> (#[trigger] records[i]).len() >= 1,
    ensures
        vstd::utf8::valid_utf8(csv_document(records)),
        csv_read(
            csv_at_record_start(Seq::empty()),
            vstd::utf8::decode_utf8(csv_document(records)),
        ) == csv_at_record_start(records),
{
    vstd::utf8::encode_utf8_valid_utf8(csv_text(records));
    vstd::utf8::encode_utf8_decode_utf8(csv_text(records));
    lemma_read_text(records);
}

/// The CSV export reads back as its header and one record per row.
pub proof fn law_csv_export_reads_back(entries: Seq<LogEntry>)
    ensures
        ({
            let text = vstd::utf8::decode_utf8(csv_document(csv_records(entries)));
            csv_read(csv_at_record_start(Seq::empty()), text) == csv_at_record_start(
                csv_records(entries),
            )
        }),
{
    let rs = csv_records(entries);
    assert forall|i: int| 0 <= i < rs.len() implies (#[trigger] rs[i]).len() >= 1 by {
        if i > 0 {
            assert(rs[i] == csv_row(entries[i - 1]));
        }
    }
    law_csv_reads_back(rs);
}

} // verus!
