//! Document tools: the limits and checks of extraction and spreadsheet building, the text
//! layout of extracted spreadsheets and DOCX files, and the output cap.

use vstd::prelude::*;
use vstd::utf8::encode_utf8;
use crate::text::{
    append_chars, append_str, ascii_lower, chars_to_string, contains, decimal, ends_with, owned,
    replace_all, starts_with, str_chars, string_views, trim, trim_range, u64_decimal,
    contains_str, ends_with_chars, lower_chars, replace_str, sub_vec,
};
use crate::tool_errors::{join, join_chars_pub};
use crate::tool_recovery::char_views;
use crate::pattern::{capture_pairs, captures_view, regex_captures};
use crate::github::path_file_name;

verus! {

/// Largest document read, in bytes.
pub const MAX_DOC_BYTES: usize = 20971520;

/// Largest tool output, in bytes of UTF-8.
pub const MAX_OUTPUT_CHARS: usize = 450000;

pub const DEFAULT_MAX_SHEETS: u64 = 8;
pub const DEFAULT_MAX_ROWS: u64 = 400;
pub const DEFAULT_MAX_COLS: u64 = 40;
pub const MAX_SHEETS_CAP: u64 = 20;
pub const MAX_ROWS_CAP: u64 = 2000;
pub const MAX_COLS_CAP: u64 = 100;

// ---------------------------------------------------------------------------
// Output cap
// ---------------------------------------------------------------------------

/// UTF-8 width of a character.
pub open spec fn utf8_width(c: char) -> nat {
    let u = c as u32;
    if u <= 0x7F {
        1
    } else if u <= 0x7FF {
        2
    } else if u <= 0xFFFF {
        3
    } else {
        4
    }
}

proof fn lemma_encode_push(a: Seq<char>, c: char)
    ensures
        encode_utf8(a.push(c)).len() == encode_utf8(a).len() + utf8_width(c),
    decreases a.len(),
{
    vstd::utf8::char_is_scalar(c);
    if a.len() == 0 {
        assert(a.push(c).drop_first() =~= Seq::<char>::empty());
        assert(encode_utf8(Seq::<char>::empty()) =~= Seq::<u8>::empty());
    } else {
        lemma_encode_push(a.drop_first(), c);
        assert(a.push(c).drop_first() =~= a.drop_first().push(c));
        assert(a.push(c)[0] == a[0]);
    }
}

/// The notice appended to a capped output.
pub open spec fn truncation_notice() -> Seq<char> {
    "\n\n[Output truncated to "@ + decimal(MAX_OUTPUT_CHARS as nat) + " characters.]"@
}

/// Caps a tool output at [`MAX_OUTPUT_CHARS`] bytes, noting the cut. The cut must fall on a
/// character boundary (std's `String::truncate` panics otherwise).
pub fn truncate_output(s: String) -> (r: String)
    requires
        encode_utf8(s@).len() <= MAX_OUTPUT_CHARS || exists|k: int|
            0 <= k <= s@.len() && encode_utf8(#[trigger] s@.take(k)).len() == MAX_OUTPUT_CHARS,
    ensures
        encode_utf8(s@).len() <= MAX_OUTPUT_CHARS ==> r@ == s@,
        encode_utf8(s@).len() > MAX_OUTPUT_CHARS ==> exists|k: int|
            0 <= k <= s@.len() && encode_utf8(#[trigger] s@.take(k)).len() == MAX_OUTPUT_CHARS && r@
                == s@.take(k) + truncation_notice(),
{
    let n = s.as_str().as_bytes().len();
    if n <= MAX_OUTPUT_CHARS {
        return s;
    }
    let c = str_chars(s.as_str());
    let mut acc: usize = 0;
    let mut i: usize = 0;
    assert(c@.take(0) =~= Seq::<char>::empty());
    assert(encode_utf8(Seq::<char>::empty()) =~= Seq::<u8>::empty());
    while acc < MAX_OUTPUT_CHARS
        invariant
            i <= c@.len(),
            c@ == s@,
            acc == encode_utf8(c@.take(i as int)).len(),
            acc <= MAX_OUTPUT_CHARS,
            encode_utf8(s@).len() > MAX_OUTPUT_CHARS,
            exists|k: int| 0 <= k <= s@.len() && encode_utf8(#[trigger] s@.take(k)).len() == MAX_OUTPUT_CHARS,
        decreases MAX_OUTPUT_CHARS - acc,
    {
        if i == c.len() {
            assert(c@.take(i as int) =~= s@);
            assert(false);
        }
        let ch = c[i];
        #[verifier::truncate]
        let u = ch as u32;
        let w: usize = if u <= 0x7F {
            1
        } else if u <= 0x7FF {
            2
        } else if u <= 0xFFFF {
            3
        } else {
            4
        };
        proof {
            lemma_encode_push(c@.take(i as int), ch);
            assert(c@.take(i + 1) =~= c@.take(i as int).push(ch));
            lemma_prefix_len_monotone(s@, i + 1);
        }
        if acc + w > MAX_OUTPUT_CHARS {
            proof {
                let k = choose|k: int| 0 <= k <= s@.len() && encode_utf8(#[trigger] s@.take(k)).len() == MAX_OUTPUT_CHARS;
                lemma_prefix_len_between(s@, i as int, k);
            }
            assert(false);
        }
        acc = acc + w;
        i = i + 1;
    }
    let mut v = sub_vec(c.as_slice(), 0, i);
    assert(v@ =~= s@.take(i as int));
    append_str(&mut v, "\n\n[Output truncated to ");
    let d = u64_decimal(MAX_OUTPUT_CHARS as u64);
    append_chars(&mut v, d.as_slice());
    append_str(&mut v, " characters.]");
    chars_to_string(v.as_slice())
}

fn char_utf8_width(ch: char) -> (w: usize)
    ensures
        w == utf8_width(ch),
{
    #[verifier::truncate]
    let u = ch as u32;
    if u <= 0x7F {
        1
    } else if u <= 0x7FF {
        2
    } else if u <= 0xFFFF {
        3
    } else {
        4
    }
}

/// The longest prefix of `s` whose UTF-8 encoding takes at most `max_bytes` bytes: a cut that
/// never splits a character.
pub fn utf8_prefix_within(s: &str, max_bytes: usize) -> (r: String)
    ensures
        exists|k: int|
            0 <= k <= s@.len() && r@ == s@.take(k) && encode_utf8(#[trigger] s@.take(k)).len() <= max_bytes
                && (k == s@.len() || encode_utf8(s@.take(k + 1)).len() > max_bytes),
{
    let c = str_chars(s);
    let mut acc: usize = 0;
    let mut i: usize = 0;
    let mut stop = false;
    assert(c@.take(0) =~= Seq::<char>::empty());
    assert(encode_utf8(Seq::<char>::empty()) =~= Seq::<u8>::empty());
    while i < c.len() && !stop
        invariant
            i <= c@.len(),
            c@ == s@,
            acc == encode_utf8(c@.take(i as int)).len(),
            acc <= max_bytes,
            stop ==> i < c@.len() && encode_utf8(c@.take(i + 1)).len() > max_bytes,
        decreases c.len() - i, if stop { 0int } else { 1int },
    {
        let ch = c[i];
        let w = char_utf8_width(ch);
        proof {
            lemma_encode_push(c@.take(i as int), ch);
            assert(c@.take(i + 1) =~= c@.take(i as int).push(ch));
        }
        if max_bytes - acc < w {
            stop = true;
        } else {
            acc = acc + w;
            i = i + 1;
        }
    }
    let v = sub_vec(c.as_slice(), 0, i);
    assert(v@ =~= s@.take(i as int));
    assert(i == s@.len() ==> s@.take(i as int) =~= s@);
    chars_to_string(v.as_slice())
}

proof fn lemma_prefix_len_monotone(s: Seq<char>, j: int)
    requires
        0 <= j <= s.len(),
    ensures
        encode_utf8(s.take(j)).len() <= encode_utf8(s).len(),
    decreases s.len() - j,
{
    if j < s.len() {
        lemma_prefix_len_monotone(s, j + 1);
        lemma_encode_push(s.take(j), s[j]);
        assert(s.take(j + 1) =~= s.take(j).push(s[j]));
    } else {
        assert(s.take(j) =~= s);
    }
}

/// Byte lengths of prefixes grow strictly, so no prefix length lies strictly between those of
/// two consecutive prefixes.
proof fn lemma_prefix_len_between(s: Seq<char>, i: int, k: int)
    requires
        0 <= i < s.len(),
        0 <= k <= s.len(),
    ensures
        encode_utf8(s.take(k)).len() <= encode_utf8(s.take(i)).len() || encode_utf8(s.take(k)).len()
            >= encode_utf8(s.take(i + 1)).len(),
    decreases if k > i { k - i } else { i - k },
{
    if k <= i {
        if k < i {
            lemma_prefix_len_between(s, i - 1, k);
            lemma_encode_push(s.take(i - 1), s[i - 1]);
            assert(s.take(i) =~= s.take(i - 1).push(s[i - 1]));
            lemma_grow(s, k, i);
        }
    } else {
        lemma_grow(s, i + 1, k);
    }
}

proof fn lemma_grow(s: Seq<char>, a: int, b: int)
    requires
        0 <= a <= b <= s.len(),
    ensures
        encode_utf8(s.take(a)).len() <= encode_utf8(s.take(b)).len(),
    decreases b - a,
{
    if a < b {
        lemma_grow(s, a, b - 1);
        lemma_encode_push(s.take(b - 1), s[b - 1]);
        assert(s.take(b) =~= s.take(b - 1).push(s[b - 1]));
    }
}

// ---------------------------------------------------------------------------
// Extraction requests
// ---------------------------------------------------------------------------

/// `v` clamped to `[lo, hi]`.
pub open spec fn clamp_spec(v: u64, lo: u64, hi: u64) -> u64 {
    if v < lo {
        lo
    } else if v > hi {
        hi
    } else {
        v
    }
}

fn clamp_u64(v: u64, lo: u64, hi: u64) -> (r: u64)
    ensures
        r == clamp_spec(v, lo, hi),
{
    if v < lo {
        lo
    } else if v > hi {
        hi
    } else {
        v
    }
}

/// The sheet, row and column limits of an extraction: the requested values (or the
/// defaults), each clamped to at least 1 and at most its cap.
pub fn extraction_limits(max_sheets: Option<u64>, max_rows: Option<u64>, max_cols: Option<u64>) -> (r: (u64, u64, u64))
    ensures
        r.0 == clamp_spec(match max_sheets { Some(v) => v, None => DEFAULT_MAX_SHEETS }, 1, MAX_SHEETS_CAP),
        r.1 == clamp_spec(match max_rows { Some(v) => v, None => DEFAULT_MAX_ROWS }, 1, MAX_ROWS_CAP),
        r.2 == clamp_spec(match max_cols { Some(v) => v, None => DEFAULT_MAX_COLS }, 1, MAX_COLS_CAP),
{
    let s = match max_sheets {
        Some(v) => v,
        None => DEFAULT_MAX_SHEETS,
    };
    let rw = match max_rows {
        Some(v) => v,
        None => DEFAULT_MAX_ROWS,
    };
    let c = match max_cols {
        Some(v) => v,
        None => DEFAULT_MAX_COLS,
    };
    (clamp_u64(s, 1, MAX_SHEETS_CAP), clamp_u64(rw, 1, MAX_ROWS_CAP), clamp_u64(c, 1, MAX_COLS_CAP))
}

/// Document formats the extractor reads.
#[derive(Debug, Clone, Copy, PartialEq, Eq, Structural)]
pub enum DocKind {
    Spreadsheet,
    Pdf,
    Docx,
}

/// The position of the last `.` in `f`, if any.
pub open spec fn last_dot(f: Seq<char>) -> Option<int>
    decreases f.len(),
{
    if f.len() == 0 {
        None
    } else if f.last() == '.' {
        Some(f.len() - 1)
    } else {
        last_dot(f.drop_last())
    }
}

/// `Path::extension` on Unix, as the standard library documents it: none without a file
/// name, none when the file name has no `.` or only a leading one, otherwise the part of the
/// file name after its last `.`.
pub open spec fn path_extension(p: Seq<char>) -> Option<Seq<char>> {
    match path_file_name(p) {
        None => None,
        Some(f) => match last_dot(f) {
            None => None,
            Some(i) => if i == 0 {
                None
            } else {
                Some(f.skip(i + 1))
            },
        },
    }
}

/// Calls `Path::extension` on the path made of `p` (a Unix path); its result, as the standard
/// library documents it, is [`path_extension`].
#[verifier::external_body]
fn extension_chars(p: &[char]) -> (r: Option<Vec<char>>)
    ensures
        match r {
            Some(e) => path_extension(p@) == Some(e@),
            None => path_extension(p@) is None,
        },
{
    let s: String = p.iter().collect();
    std::path::Path::new(&s).extension().map(|e| e.to_string_lossy().chars().collect())
}

/// The format of an extension.
pub open spec fn kind_of_ext(e: Seq<char>) -> Option<DocKind> {
    if e == "xlsx"@ || e == "xls"@ || e == "xlsb"@ || e == "ods"@ {
        Some(DocKind::Spreadsheet)
    } else if e == "pdf"@ {
        Some(DocKind::Pdf)
    } else if e == "docx"@ {
        Some(DocKind::Docx)
    } else {
        None
    }
}

/// The format of a (lowercased) path, or the error naming its extension.
pub open spec fn document_kind_spec(lower_path: Seq<char>) -> Result<DocKind, Seq<char>> {
    let ext = match path_extension(lower_path) {
        Some(e) => e,
        None => seq![],
    };
    match kind_of_ext(ext) {
        Some(k) => Ok(k),
        None => Err(
            "Unsupported extension '"@ + ext
                + "'. Use document_extract with .xlsx, .xls, .xlsb, .ods, .pdf, or .docx."@,
        ),
    }
}

/// Every extension the unsupported-extension message names is accepted: `xlsx`, `xls`,
/// `xlsb` and `ods` files are spreadsheets, `pdf` files PDFs and `docx` files DOCX documents;
/// and a path is refused only when its extension is none of these.
pub proof fn law_named_extensions_accepted(lower_path: Seq<char>, e: Seq<char>)
    ensures
        path_extension(lower_path) == Some(e) && (e == "xlsx"@ || e == "xls"@ || e == "xlsb"@ || e
            == "ods"@) ==> document_kind_spec(lower_path) == Ok::<DocKind, Seq<char>>(
            DocKind::Spreadsheet,
        ),
        path_extension(lower_path) == Some("pdf"@) ==> document_kind_spec(lower_path) == Ok::<
            DocKind,
            Seq<char>,
        >(DocKind::Pdf),
        path_extension(lower_path) == Some("docx"@) ==> document_kind_spec(lower_path) == Ok::<
            DocKind,
            Seq<char>,
        >(DocKind::Docx),
        document_kind_spec(lower_path) is Err && path_extension(lower_path) == Some(e) ==> !(e
            == "xlsx"@ || e == "xls"@ || e == "xlsb"@ || e == "ods"@ || e == "pdf"@ || e == "docx"@),
{
    reveal_strlit("xlsx");
    reveal_strlit("xls");
    reveal_strlit("xlsb");
    reveal_strlit("ods");
    reveal_strlit("pdf");
    reveal_strlit("docx");
    assert("pdf"@[0] != "xlsx"@[0] && "pdf"@[0] != "xls"@[0] && "pdf"@[0] != "xlsb"@[0]
        && "pdf"@[0] != "ods"@[0]);
    assert("docx"@[0] != "xlsx"@[0] && "docx"@[0] != "xls"@[0] && "docx"@[0] != "xlsb"@[0]
        && "docx"@[0] != "ods"@[0] && "docx"@[0] != "pdf"@[0]);
}

/// The format of a lowercased path, or the error for an unsupported extension.
pub fn document_kind(lower_path: &str) -> (r: Result<DocKind, String>)
    ensures
        match r {
            Ok(k) => document_kind_spec(lower_path@) == Ok::<DocKind, Seq<char>>(k),
            Err(e) => document_kind_spec(lower_path@) == Err::<DocKind, Seq<char>>(e@),
        },
{
    let ext: Vec<char> = match extension_chars(str_chars(lower_path).as_slice()) {
        Some(e) => e,
        None => Vec::new(),
    };
    let e = ext.as_slice();
    if crate::text::eq_str(e, "xlsx") || crate::text::eq_str(e, "xls") || crate::text::eq_str(e, "xlsb")
        || crate::text::eq_str(e, "ods") {
        Ok(DocKind::Spreadsheet)
    } else if crate::text::eq_str(e, "pdf") {
        Ok(DocKind::Pdf)
    } else if crate::text::eq_str(e, "docx") {
        Ok(DocKind::Docx)
    } else {
        let mut m = str_chars("Unsupported extension '");
        append_chars(&mut m, e);
        append_str(&mut m, "'. Use document_extract with .xlsx, .xls, .xlsb, .ods, .pdf, or .docx.");
        Err(chars_to_string(m.as_slice()))
    }
}

/// The error for a document over [`MAX_DOC_BYTES`], or none.
pub fn document_size_error(len: usize) -> (r: Option<String>)
    ensures
        match r {
            Some(e) => len > MAX_DOC_BYTES && e@ == "File too large ("@ + decimal(len as nat)
                + " bytes; max 20 MB)."@,
            None => len <= MAX_DOC_BYTES,
        },
{
    if len <= MAX_DOC_BYTES {
        return None;
    }
    let mut m = str_chars("File too large (");
    let d = u64_decimal(len as u64);
    append_chars(&mut m, d.as_slice());
    append_str(&mut m, " bytes; max 20 MB).");
    Some(chars_to_string(m.as_slice()))
}

/// The extraction output: a header naming the file, then the text, capped.
pub fn extraction_output(display_path: &str, inner: &str) -> (r: String)
    requires
        ({
            let s = "document_extract: "@ + display_path@ + "\n---\n"@ + inner@;
            encode_utf8(s).len() <= MAX_OUTPUT_CHARS || exists|k: int|
                0 <= k <= s.len() && encode_utf8(#[trigger] s.take(k)).len() == MAX_OUTPUT_CHARS
        }),
    ensures
        ({
            let s = "document_extract: "@ + display_path@ + "\n---\n"@ + inner@;
            &&& encode_utf8(s).len() <= MAX_OUTPUT_CHARS ==> r@ == s
            &&& encode_utf8(s).len() > MAX_OUTPUT_CHARS ==> exists|k: int|
                0 <= k <= s.len() && encode_utf8(#[trigger] s.take(k)).len() == MAX_OUTPUT_CHARS && r@
                    == s.take(k) + truncation_notice()
        }),
{
    let mut v = str_chars("document_extract: ");
    append_str(&mut v, display_path);
    append_str(&mut v, "\n---\n");
    append_str(&mut v, inner);
    truncate_output(chars_to_string(v.as_slice()))
}

// ---------------------------------------------------------------------------
// Spreadsheet text
// ---------------------------------------------------------------------------

/// A cell as shown in a row: quoted (with doubled quotes) when it holds a tab or newline.
pub open spec fn shown_cell(s: Seq<char>) -> Seq<char> {
    if contains(s, "\t"@) || contains(s, "\n"@) {
        "\""@ + replace_all(s, "\""@, "\"\""@) + "\""@
    } else {
        s
    }
}

fn show_cell(s: &String) -> (r: Vec<char>)
    ensures
        r@ == shown_cell(s@),
{
    proof {
        reveal_strlit("\"");
    }
    let c = str_chars(s.as_str());
    if contains_str(c.as_slice(), "\t") || contains_str(c.as_slice(), "\n") {
        let mut v = str_chars("\"");
        let q = replace_str(c.as_slice(), "\"", "\"\"");
        append_chars(&mut v, q.as_slice());
        append_str(&mut v, "\"");
        v
    } else {
        c
    }
}

/// A row of cells: shown cells joined by tabs, then a newline.
pub open spec fn row_line(cells: Seq<Seq<char>>) -> Seq<char> {
    join(cells.map_values(|c: Seq<char>| shown_cell(c)), "\t"@) + "\n"@
}

/// The text of one row.
pub fn spreadsheet_row_line(cells: &[String]) -> (r: String)
    ensures
        r@ == row_line(string_views(cells@)),
{
    let ghost sh = string_views(cells@).map_values(|c: Seq<char>| shown_cell(c));
    let mut parts: Vec<Vec<char>> = Vec::new();
    let mut i: usize = 0;
    while i < cells.len()
        invariant
            i <= cells@.len(),
            sh == string_views(cells@).map_values(|c: Seq<char>| shown_cell(c)),
            char_views(parts@) == sh.take(i as int),
        decreases cells.len() - i,
    {
        let p = show_cell(&cells[i]);
        let ghost before = char_views(parts@);
        let ghost pv = p@;
        parts.push(p);
        assert(char_views(parts@) =~= before.push(pv));
        assert(sh.take(i + 1) =~= sh.take(i as int).push(sh[i as int]));
        i = i + 1;
    }
    assert(sh.take(cells@.len() as int) =~= sh);
    let mut j = join_chars_pub(&parts, "\t");
    append_str(&mut j, "\n");
    chars_to_string(j.as_slice())
}

/// The opening lines of an extracted spreadsheet.
pub fn spreadsheet_header(sheet_count: usize, max_sheets: u64) -> (r: String)
    ensures
        r@ == "Format: spreadsheet ("@ + decimal(sheet_count as nat) + " sheet(s) total; showing up to "@
            + decimal(max_sheets as nat)
            + ").\nNote: extracted values are usually cached results; original Excel formulas may not appear.\n\n"@,
{
    let mut v = str_chars("Format: spreadsheet (");
    let a = u64_decimal(sheet_count as u64);
    append_chars(&mut v, a.as_slice());
    append_str(&mut v, " sheet(s) total; showing up to ");
    let b = u64_decimal(max_sheets);
    append_chars(&mut v, b.as_slice());
    append_str(
        &mut v,
        ").\nNote: extracted values are usually cached results; original Excel formulas may not appear.\n\n",
    );
    chars_to_string(v.as_slice())
}

/// The heading of a sheet.
pub fn sheet_heading(name: &str) -> (r: String)
    ensures
        r@ == "## Sheet: "@ + name@ + "\n"@,
{
    let mut v = str_chars("## Sheet: ");
    append_str(&mut v, name);
    append_str(&mut v, "\n");
    chars_to_string(v.as_slice())
}

/// The rows and columns shown of a sheet, and the truncation note when it is larger.
pub fn sheet_window(height: u64, width: u64, max_rows: u64, max_cols: u64) -> (r: (u64, u64, Option<String>))
    ensures
        r.0 == if height < max_rows { height } else { max_rows },
        r.1 == if width < max_cols { width } else { max_cols },
        match r.2 {
            Some(n) => (height > max_rows || width > max_cols) && n@ == "(truncated: sheet size "@
                + decimal(height as nat) + "×"@ + decimal(width as nat) + ", showing "@ + decimal(r.0 as nat)
                + "×"@ + decimal(r.1 as nat) + ")\n"@,
            None => !(height > max_rows || width > max_cols),
        },
{
    let rl = if height < max_rows {
        height
    } else {
        max_rows
    };
    let cl = if width < max_cols {
        width
    } else {
        max_cols
    };
    if height > max_rows || width > max_cols {
        let mut v = str_chars("(truncated: sheet size ");
        append_chars(&mut v, u64_decimal(height).as_slice());
        append_str(&mut v, "×");
        append_chars(&mut v, u64_decimal(width).as_slice());
        append_str(&mut v, ", showing ");
        append_chars(&mut v, u64_decimal(rl).as_slice());
        append_str(&mut v, "×");
        append_chars(&mut v, u64_decimal(cl).as_slice());
        append_str(&mut v, ")\n");
        (rl, cl, Some(chars_to_string(v.as_slice())))
    } else {
        (rl, cl, None)
    }
}

// ---------------------------------------------------------------------------
// DOCX text
// ---------------------------------------------------------------------------

/// The pattern of a text run in DOCX XML: the text between a `<w:t ...>` element's tags.
pub const DOCX_TEXT_RUN_PATTERN: &'static str = "<w:t[^>]*>([^<]*)</w:t>";

/// The first capture group of every text-run match in a document's XML, left to right
/// (`None` where the group did not take part).
pub open spec fn docx_text_captures(xml: Seq<char>) -> Seq<Option<Seq<char>>> {
    regex_captures(DOCX_TEXT_RUN_PATTERN@, xml).map_values(
        |c: (Option<Seq<char>>, Option<Seq<char>>)| c.0,
    )
}

/// The views of optional strings.
pub open spec fn opt_string_views(v: Seq<Option<String>>) -> Seq<Option<Seq<char>>> {
    v.map_values(|o: Option<String>| match o {
        Some(s) => Some(s@),
        None => None,
    })
}

/// The text runs of DOCX XML, in order.
fn docx_text_runs(xml: &str) -> (r: Vec<Option<String>>)
    ensures
        opt_string_views(r@) == docx_text_captures(xml@),
{
    let mut caps = capture_pairs(DOCX_TEXT_RUN_PATTERN, xml);
    let ghost all = captures_view(caps@);
    let n = caps.len();
    let mut out: Vec<Option<String>> = Vec::new();
    let mut i: usize = 0;
    assert(all.subrange(0, n as int) =~= all);
    while i < n
        invariant
            n == all.len(),
            i <= n,
            caps@.len() == n - i,
            captures_view(caps@) == all.subrange(i as int, n as int),
            opt_string_views(out@) == all.take(i as int).map_values(
                |c: (Option<Seq<char>>, Option<Seq<char>>)| c.0,
            ),
        decreases n - i,
    {
        let ghost prev = caps@;
        let c = caps.remove(0);
        assert(caps@ =~= prev.drop_first());
        assert(captures_view(caps@) =~= captures_view(prev).drop_first());
        assert(captures_view(prev)[0] == all[i as int]);
        assert(captures_view(caps@) =~= all.subrange(i + 1, n as int));
        let ghost before = out@;
        out.push(c.0);
        assert(opt_string_views(out@) =~= opt_string_views(before).push(all[i as int].0));
        assert(all.take(i + 1).map_values(|c: (Option<Seq<char>>, Option<Seq<char>>)| c.0) =~= all.take(
            i as int,
        ).map_values(|c: (Option<Seq<char>>, Option<Seq<char>>)| c.0).push(all[i as int].0));
        assert(opt_string_views(out@) =~= all.take(i + 1).map_values(
            |c: (Option<Seq<char>>, Option<Seq<char>>)| c.0,
        ));
        i = i + 1;
    }
    assert(all.take(n as int) =~= all);
    out
}

/// The captured runs that are present, in order.
pub open spec fn present_runs(v: Seq<Option<Seq<char>>>) -> Seq<Seq<char>>
    decreases v.len(),
{
    if v.len() == 0 {
        seq![]
    } else {
        match v.last() {
            Some(s) => present_runs(v.drop_last()).push(s),
            None => present_runs(v.drop_last()),
        }
    }
}

/// The text of a DOCX document from its `word/document.xml`: the text runs joined by
/// spaces; an error when the part is missing or empty.
pub fn docx_text_from_xml(xml: &str) -> (r: Result<String, String>)
    ensures
        match r {
            Ok(t) => xml@.len() > 0 && t@ == join(present_runs(docx_text_captures(xml@)), " "@),
            Err(e) => xml@.len() == 0 && e@ == "docx: missing word/document.xml"@,
        },
{
    if xml.is_empty() {
        return Err(owned("docx: missing word/document.xml"));
    }
    let caps = docx_text_runs(xml);
    let ghost cv = opt_string_views(caps@);
    let mut parts: Vec<Vec<char>> = Vec::new();
    let mut i: usize = 0;
    while i < caps.len()
        invariant
            i <= caps@.len(),
            cv == opt_string_views(caps@),
            char_views(parts@) == present_runs(cv.take(i as int)),
        decreases caps.len() - i,
    {
        proof {
            assert(cv.take(i + 1).drop_last() =~= cv.take(i as int));
            assert(cv.take(i + 1).last() == cv[i as int]);
        }
        match &caps[i] {
            Some(s) => {
                let ghost before = char_views(parts@);
                let c = str_chars(s.as_str());
                parts.push(c);
                assert(char_views(parts@) =~= before.push(s@));
            },
            None => {},
        }
        i = i + 1;
    }
    assert(cv.take(caps@.len() as int) =~= cv);
    let j = join_chars_pub(&parts, " ");
    Ok(chars_to_string(j.as_slice()))
}

// ---------------------------------------------------------------------------
// Spreadsheet building
// ---------------------------------------------------------------------------

/// The checks on a spreadsheet request: at least one and at most 32 sheets, written to a
/// path ending in `.xlsx` (ASCII case-insensitive).
pub open spec fn build_request_error(sheet_count: usize, path: Seq<char>) -> Option<Seq<char>> {
    if sheet_count == 0 {
        Some("sheets must contain at least one sheet"@)
    } else if sheet_count > 32 {
        Some("Too many sheets (max 32)"@)
    } else if !ends_with(ascii_lower(path), ".xlsx"@) {
        Some("path must end with .xlsx"@)
    } else {
        None
    }
}

/// The first check a spreadsheet request fails, if any.
pub fn spreadsheet_request_error(sheet_count: usize, path: &str) -> (r: Option<String>)
    ensures
        match r {
            Some(e) => build_request_error(sheet_count, path@) == Some(e@),
            None => build_request_error(sheet_count, path@) is None,
        },
{
    if sheet_count == 0 {
        return Some(owned("sheets must contain at least one sheet"));
    }
    if sheet_count > 32 {
        return Some(owned("Too many sheets (max 32)"));
    }
    let l = lower_chars(str_chars(path).as_slice());
    let suffix = str_chars(".xlsx");
    if !ends_with_chars(l.as_slice(), suffix.as_slice()) {
        return Some(owned("path must end with .xlsx"));
    }
    None
}

/// A sheet's name: the given name, `Sheet1` when none is given, `Sheet{n}` (1-based
/// position) when it is empty.
pub fn sheet_name(name: Option<&str>, idx: usize) -> (r: String)
    requires
        idx < usize::MAX,
    ensures
        r@ == match name {
            Some(n) => if n@.len() == 0 {
                "Sheet"@ + decimal((idx + 1) as nat)
            } else {
                n@
            },
            None => "Sheet1"@,
        },
{
    proof {
        reveal_strlit("");
    }
    let n: &str = match name {
        Some(n) => n,
        None => "Sheet1",
    };
    if n.is_empty() {
        let mut v = str_chars("Sheet");
        append_chars(&mut v, u64_decimal((idx + 1) as u64).as_slice());
        proof {
            reveal_strlit("Sheet1");
        }
        return chars_to_string(v.as_slice());
    }
    owned(n)
}

/// The error for a sheet with too many rows or a row with too many columns, if any.
pub fn sheet_shape_error(rows: usize, max_row_len: usize) -> (r: Option<String>)
    ensures
        match r {
            Some(e) => (rows > 10000 && e@ == "Too many rows (max 10000 per sheet)"@) || (rows <= 10000
                && max_row_len > 512 && e@ == "Too many columns (max 512)"@),
            None => rows <= 10000 && max_row_len <= 512,
        },
{
    if rows > 10000 {
        return Some(owned("Too many rows (max 10000 per sheet)"));
    }
    if max_row_len > 512 {
        return Some(owned("Too many columns (max 512)"));
    }
    None
}

/// How a string cell is written: its trimmed text, as a formula when it starts with `=`.
pub fn string_cell(s: &str) -> (r: (bool, String))
    ensures
        r.0 == starts_with(trim(s@), "="@),
        r.1@ == trim(s@),
{
    let c = str_chars(s);
    let (a, b) = trim_range(c.as_slice(), 0, c.len());
    assert(c@.subrange(0, c@.len() as int) =~= c@);
    let t = sub_vec(c.as_slice(), a, b);
    let f = crate::text::starts_with_str(t.as_slice(), "=");
    (f, chars_to_string(t.as_slice()))
}

/// The message after a spreadsheet was written.
pub fn spreadsheet_written_message(path: &str) -> (r: String)
    ensures
        r@ == "Wrote spreadsheet to "@ + path@,
{
    let mut v = str_chars("Wrote spreadsheet to ");
    append_str(&mut v, path);
    chars_to_string(v.as_slice())
}

// ---------------------------------------------------------------------------
// DOCX archive
// ---------------------------------------------------------------------------

/// Name for what `zip::ZipArchive::new` makes of a byte buffer: the number of entries
/// (`ZipArchive::len`), or the error's text.
pub uninterp spec fn zip_open_outcome(bytes: Seq<u8>) -> Result<nat, Seq<char>>;

/// Name for the name of entry `index` (`ZipArchive::by_index`, then `ZipFile::name`), or the
/// error's text.
pub uninterp spec fn zip_entry_name_outcome(bytes: Seq<u8>, index: nat) -> Result<Seq<char>, Seq<char>>;

/// Name for the text of entry `index` (`ZipArchive::by_index`, then
/// `Read::read_to_string`), or the error's text.
pub uninterp spec fn zip_entry_text_outcome(bytes: Seq<u8>, index: nat) -> Result<Seq<char>, Seq<char>>;

/// Opens `bytes` as a ZIP archive with `zip::ZipArchive::new` and counts its entries.
#[verifier::external_body]
fn zip_entry_count(bytes: &[u8]) -> (r: Result<usize, String>)
    ensures
        match r {
            Ok(n) => zip_open_outcome(bytes@) == Ok::<nat, Seq<char>>(n as nat),
            Err(e) => zip_open_outcome(bytes@) == Err::<nat, Seq<char>>(e@),
        },
{
    match zip::ZipArchive::new(std::io::Cursor::new(bytes)) {
        Ok(a) => Ok(a.len()),
        Err(e) => Err(e.to_string()),
    }
}

/// The name of entry `index` of the archive in `bytes` (`ZipArchive::by_index`).
#[verifier::external_body]
fn zip_entry_name(bytes: &[u8], index: usize) -> (r: Result<String, String>)
    ensures
        match r {
            Ok(s) => zip_entry_name_outcome(bytes@, index as nat) == Ok::<Seq<char>, Seq<char>>(s@),
            Err(e) => zip_entry_name_outcome(bytes@, index as nat) == Err::<Seq<char>, Seq<char>>(e@),
        },
{
    let mut a = zip::ZipArchive::new(std::io::Cursor::new(bytes)).map_err(|e| e.to_string())?;
    let f = a.by_index(index).map_err(|e| e.to_string())?;
    let name = f.name().map_err(|e| e.to_string())?;
    Ok(name.into_owned())
}

/// The text of entry `index` of the archive in `bytes` (`ZipArchive::by_index`, read whole).
#[verifier::external_body]
fn zip_entry_text(bytes: &[u8], index: usize) -> (r: Result<String, String>)
    ensures
        match r {
            Ok(s) => zip_entry_text_outcome(bytes@, index as nat) == Ok::<Seq<char>, Seq<char>>(s@),
            Err(e) => zip_entry_text_outcome(bytes@, index as nat) == Err::<Seq<char>, Seq<char>>(e@),
        },
{
    let mut a = zip::ZipArchive::new(std::io::Cursor::new(bytes)).map_err(|e| e.to_string())?;
    let mut f = a.by_index(index).map_err(|e| e.to_string())?;
    let mut text = String::new();
    std::io::Read::read_to_string(&mut f, &mut text).map_err(|e| e.to_string())?;
    Ok(text)
}

/// The main part's entry name in a DOCX archive.
pub const DOCX_MAIN_PART: &'static str = "word/document.xml";

/// The document XML found from entry `i` on: the first entry named `word/document.xml`
/// is read; an entry whose name cannot be read stops the search; no such entry gives empty
/// XML.
pub open spec fn docx_xml_from(bytes: Seq<u8>, i: nat, n: nat) -> Result<Seq<char>, Seq<char>>
    decreases n - i,
{
    if i >= n {
        Ok(Seq::<char>::empty())
    } else {
        match zip_entry_name_outcome(bytes, i) {
            Err(e) => Err("docx zip entry: "@ + e),
            Ok(name) => if name == DOCX_MAIN_PART@ {
                match zip_entry_text_outcome(bytes, i) {
                    Ok(t) => Ok(t),
                    Err(e) => Err("docx read document.xml: "@ + e),
                }
            } else {
                docx_xml_from(bytes, i + 1, n)
            },
        }
    }
}

/// The main document XML of a DOCX file, or why it could not be read.
pub open spec fn docx_xml(bytes: Seq<u8>) -> Result<Seq<char>, Seq<char>> {
    match zip_open_outcome(bytes) {
        Err(e) => Err("docx zip: "@ + e),
        Ok(n) => docx_xml_from(bytes, 0, n),
    }
}

/// Reads the main document XML out of a DOCX file's bytes.
pub fn docx_document_xml(bytes: &[u8]) -> (r: Result<String, String>)
    ensures
        match r {
            Ok(x) => docx_xml(bytes@) == Ok::<Seq<char>, Seq<char>>(x@),
            Err(e) => docx_xml(bytes@) == Err::<Seq<char>, Seq<char>>(e@),
        },
{
    let n = match zip_entry_count(bytes) {
        Ok(n) => n,
        Err(e) => {
            let mut v = str_chars("docx zip: ");
            append_str(&mut v, e.as_str());
            return Err(chars_to_string(v.as_slice()));
        },
    };
    let mut i: usize = 0;
    while i < n
        invariant
            i <= n,
            zip_open_outcome(bytes@) == Ok::<nat, Seq<char>>(n as nat),
            docx_xml(bytes@) == docx_xml_from(bytes@, i as nat, n as nat),
        decreases n - i,
    {
        let name = match zip_entry_name(bytes, i) {
            Ok(s) => s,
            Err(e) => {
                let mut v = str_chars("docx zip entry: ");
                append_str(&mut v, e.as_str());
                return Err(chars_to_string(v.as_slice()));
            },
        };
        if crate::text::eq_str(str_chars(name.as_str()).as_slice(), DOCX_MAIN_PART) {
            return match zip_entry_text(bytes, i) {
                Ok(t) => Ok(t),
                Err(e) => {
                    let mut v = str_chars("docx read document.xml: ");
                    append_str(&mut v, e.as_str());
                    Err(chars_to_string(v.as_slice()))
                },
            };
        }
        i = i + 1;
    }
    Ok(String::new())
}

/// The text runs of a DOCX file, joined by spaces (see [`docx_text_from_xml`]).
pub fn extract_docx_text(bytes: &[u8]) -> (r: Result<String, String>)
    ensures
        match r {
            Ok(t) => docx_xml(bytes@) matches Ok(x) && x.len() > 0 && t@ == join(
                present_runs(docx_text_captures(x)),
                " "@,
            ),
            Err(e) => match docx_xml(bytes@) {
                Err(m) => e@ == m,
                Ok(x) => x.len() == 0 && e@ == "docx: missing word/document.xml"@,
            },
        },
{
    match docx_document_xml(bytes) {
        Ok(x) => docx_text_from_xml(x.as_str()),
        Err(e) => Err(e),
    }
}

} // verus!
