//! The credential search: matching lines, highlighting, and the HTML
//! report.

use vstd::prelude::*;
use crate::text::{contains_text, decimal, decimal_string, occurs_at, same_text, text_contains};

verus! {

/// Settings of a credential search as the front end hands them over.
pub struct CredGatherConfig {
    pub file_list: String,
    pub string_list: String,
    pub debug_mode: bool,
}

/// A progress event of a credential search.
pub struct ProgressUpdate {
    pub message: String,
    pub current: usize,
    pub total: Option<usize>,
    /// One of `starting`, `scanning`, `complete`, `error`.
    pub stage: String,
}

/// The outcome of a credential search.
pub struct GatherResult {
    pub success: bool,
    pub message: String,
    pub output_file: String,
    pub total_entries: usize,
    pub errors: Vec<String>,
}

/// The HTML text of one character.
pub open spec fn escape_char(c: char) -> Seq<char> {
    if c == '&' {
        "&amp;"@
    } else if c == '<' {
        "&lt;"@
    } else if c == '>' {
        "&gt;"@
    } else if c == '"' {
        "&quot;"@
    } else if c == '\'' {
        "&#39;"@
    } else {
        seq![c]
    }
}

/// The HTML text of the first `n` characters of `s`.
pub open spec fn escaped(s: Seq<char>, n: int) -> Seq<char>
    decreases n,
{
    if n <= 0 {
        Seq::empty()
    } else {
        escaped(s, n - 1) + escape_char(s[n - 1])
    }
}

/// Escapes `&`, `<`, `>`, `"` and `'` for HTML.
pub fn html_escape(text: &str) -> (r: String)
    ensures
        r@ == escaped(text@, text@.len() as int),
{
    let n = text.unicode_len();
    let mut r = String::new();
    let mut i: usize = 0;
    while i < n
        invariant
            i <= n,
            n == text@.len(),
            r@ == escaped(text@, i as int),
        decreases n - i,
    {
        let c = text.get_char(i);
        if c == '&' {
            r.append("&amp;");
        } else if c == '<' {
            r.append("&lt;");
        } else if c == '>' {
            r.append("&gt;");
        } else if c == '"' {
            r.append("&quot;");
        } else if c == '\'' {
            r.append("&#39;");
        } else {
            r.append(text.substring_char(i, i + 1));
        }
        proof {
            assert(r@ =~= escaped(text@, i + 1));
        }
        i = i + 1;
    }
    r
}

/// `t` from index `i` on, with each occurrence of the non-empty `p`, taken
/// from left to right without overlap, written `rep`.
pub open spec fn replaced_from(t: Seq<char>, p: Seq<char>, rep: Seq<char>, i: int) -> Seq<char>
    decreases t.len() - i,
{
    if i < 0 || i >= t.len() {
        Seq::empty()
    } else if p.len() > 0 && occurs_at(t, p, i) {
        rep + replaced_from(t, p, rep, i + p.len())
    } else {
        seq![t[i]] + replaced_from(t, p, rep, i + 1)
    }
}

/// `t` from index `i` on, with `rep` before each character and at the end.
pub open spec fn interleaved_from(t: Seq<char>, rep: Seq<char>, i: int) -> Seq<char>
    decreases t.len() - i,
{
    if i < 0 || i >= t.len() {
        rep
    } else {
        rep + seq![t[i]] + interleaved_from(t, rep, i + 1)
    }
}

/// `t` with every occurrence of `p` written `rep`; an empty `p` occurs before
/// every character and at the end.
pub open spec fn replaced(t: Seq<char>, p: Seq<char>, rep: Seq<char>) -> Seq<char> {
    if p.len() == 0 {
        interleaved_from(t, rep, 0)
    } else {
        replaced_from(t, p, rep, 0)
    }
}

/// The highlighted form of an escaped search string.
pub open spec fn highlight_of(e: Seq<char>) -> Seq<char> {
    "<span class=\"highlight\">"@ + e + "</span>"@
}

/// The escaped line with the escaped form of each of the first `k` search
/// strings highlighted, one string after the other.
pub open spec fn highlighted(line: Seq<char>, strings: Seq<Seq<char>>, k: int) -> Seq<char>
    decreases k,
{
    if k <= 0 {
        escaped(line, line.len() as int)
    } else {
        let e = escaped(strings[k - 1], strings[k - 1].len() as int);
        replaced(highlighted(line, strings, k - 1), e, highlight_of(e))
    }
}


/// Writes `rep` for each occurrence of `p` in `t`, as `str::replace` does.
pub fn replace_all(t: &str, p: &str, rep: &str) -> (r: String)
    ensures
        r@ == replaced(t@, p@, rep@),
{
    let n = t.unicode_len();
    let m = p.unicode_len();
    let mut r = String::new();
    let mut i: usize = 0;
    if m == 0 {
        while i < n
            invariant
                i <= n,
                n == t@.len(),
                r@ + interleaved_from(t@, rep@, i as int) == interleaved_from(t@, rep@, 0),
            decreases n - i,
        {
            let ghost before = r@;
            r.append(rep);
            r.append(t.substring_char(i, i + 1));
            proof {
                assert(r@ + interleaved_from(t@, rep@, i + 1) =~= before + interleaved_from(
                    t@,
                    rep@,
                    i as int,
                ));
            }
            i = i + 1;
        }
        let ghost before = r@;
        r.append(rep);
        proof {
            assert(r@ =~= before + interleaved_from(t@, rep@, i as int));
        }
        return r;
    }
    while i < n
        invariant
            i <= n,
            n == t@.len(),
            m == p@.len(),
            m > 0,
            r@ + replaced_from(t@, p@, rep@, i as int) == replaced_from(t@, p@, rep@, 0),
        decreases n - i,
    {
        let ghost before = r@;
        if m <= n - i && same_text(t.substring_char(i, i + m), p) {
            r.append(rep);
            proof {
                assert(occurs_at(t@, p@, i as int));
                assert(r@ + replaced_from(t@, p@, rep@, i + m) =~= before + replaced_from(
                    t@,
                    p@,
                    rep@,
                    i as int,
                ));
            }
            i = i + m;
        } else {
            r.append(t.substring_char(i, i + 1));
            proof {
                assert(!occurs_at(t@, p@, i as int));
                assert(r@ + replaced_from(t@, p@, rep@, i + 1) =~= before + replaced_from(
                    t@,
                    p@,
                    rep@,
                    i as int,
                ));
            }
            i = i + 1;
        }
    }
    proof {
        assert(r@ + Seq::<char>::empty() =~= r@);
    }
    r
}

/// Escapes a line for HTML and highlights in it every occurrence of each
/// search string, itself escaped.
pub fn highlight_search_strings(line: &str, search_strings: &[String]) -> (r: String)
    ensures
        r@ == highlighted(line@, search_strings@.map_values(|s: String| s@), search_strings@.len() as int),
{
    let ghost strings = search_strings@.map_values(|s: String| s@);
    let mut h = html_escape(line);
    let mut k: usize = 0;
    while k < search_strings.len()
        invariant
            k <= search_strings@.len(),
            strings == search_strings@.map_values(|s: String| s@),
            h@ == highlighted(line@, strings, k as int),
        decreases search_strings@.len() - k,
    {
        let e = html_escape(search_strings[k].as_str());
        let mut span = String::from_str("<span class=\"highlight\">");
        span.append(e.as_str());
        span.append("</span>");
        h = replace_all(h.as_str(), e.as_str(), span.as_str());
        proof {
            assert(strings[k as int] == search_strings@[k as int]@);
        }
        k = k + 1;
    }
    h
}

/// Whether a line holds one of the first `n` search strings.
pub open spec fn holds_any(line: Seq<char>, strings: Seq<Seq<char>>, n: int) -> bool {
    exists|j: int| 0 <= j < n && contains_text(line, #[trigger] strings[j])
}

/// One line of a hit's context: its class, its number and its highlighted
/// text, with a marker after the text of the hit itself.
pub open spec fn context_line(class: Seq<char>, number: nat, body: Seq<char>, marker: bool) -> Seq<char> {
    "<div class=\"line "@ + class + "\"><span class=\"line-number\">"@ + decimal(number) + "</span>"@
        + body + (if marker {
        " <span class=\"hit-marker\"></span>"@
    } else {
        Seq::empty()
    }) + "</div>"@
}

/// The context of a hit on line `k` (counted from 0): the line before, if
/// any, the hit, and the line after, if any, each highlighted and numbered
/// from 1.
pub open spec fn hit_context(lines: Seq<Seq<char>>, strings: Seq<Seq<char>>, k: int) -> Seq<char> {
    let hl = |i: int| highlighted(lines[i], strings, strings.len() as int);
    (if k > 0 {
        context_line("line-before"@, k as nat, hl(k - 1), false)
    } else {
        Seq::empty()
    }) + context_line("line-hit"@, (k + 1) as nat, hl(k), true) + (if k + 1 < lines.len() {
        context_line("line-after"@, (k + 2) as nat, hl(k + 1), false)
    } else {
        Seq::empty()
    })
}

/// The contexts of the hits among the first `n` lines, in line order.
pub open spec fn hits_upto(lines: Seq<Seq<char>>, strings: Seq<Seq<char>>, n: int) -> Seq<Seq<char>>
    decreases n,
{
    if n <= 0 {
        Seq::empty()
    } else if holds_any(lines[n - 1], strings, strings.len() as int) {
        hits_upto(lines, strings, n - 1).push(hit_context(lines, strings, n - 1))
    } else {
        hits_upto(lines, strings, n - 1)
    }
}

fn any_contained(line: &str, search_strings: &[String]) -> (r: bool)
    ensures
        r == holds_any(line@, search_strings@.map_values(|s: String| s@), search_strings@.len() as int),
{
    let ghost strings = search_strings@.map_values(|s: String| s@);
    let mut j: usize = 0;
    while j < search_strings.len()
        invariant
            j <= search_strings@.len(),
            strings == search_strings@.map_values(|s: String| s@),
            forall|i: int| 0 <= i < j ==> !contains_text(line@, #[trigger] strings[i]),
        decreases search_strings@.len() - j,
    {
        if text_contains(line, search_strings[j].as_str()) {
            proof {
                assert(strings[j as int] == search_strings@[j as int]@);
            }
            return true;
        }
        proof {
            assert(strings[j as int] == search_strings@[j as int]@);
        }
        j = j + 1;
    }
    false
}

fn append_context_line(out: &mut String, class: &str, number: usize, body: &str, marker: bool)
    ensures
        final(out)@ == old(out)@ + context_line(class@, number as nat, body@, marker),
{
    let ghost start = out@;
    out.append("<div class=\"line ");
    out.append(class);
    out.append("\"><span class=\"line-number\">");
    out.append(decimal_string(number as u64).as_str());
    out.append("</span>");
    out.append(body);
    if marker {
        out.append(" <span class=\"hit-marker\"></span>");
    }
    out.append("</div>");
    proof {
        assert(out@ =~= start + context_line(class@, number as nat, body@, marker));
    }
}

/// The highlighted context of every line that holds one of the search
/// strings, in line order.
pub fn search_lines(lines: &[String], search_strings: &[String]) -> (r: Vec<String>)
    ensures
        r.deep_view() == hits_upto(
            lines@.map_values(|s: String| s@),
            search_strings@.map_values(|s: String| s@),
            lines@.len() as int,
        ),
{
    let ghost ls = lines@.map_values(|s: String| s@);
    let ghost strings = search_strings@.map_values(|s: String| s@);
    let mut hits: Vec<String> = Vec::new();
    let mut k: usize = 0;
    while k < lines.len()
        invariant
            k <= lines@.len(),
            ls == lines@.map_values(|s: String| s@),
            strings == search_strings@.map_values(|s: String| s@),
            hits.deep_view() == hits_upto(ls, strings, k as int),
        decreases lines@.len() - k,
    {
        proof {
            assert(ls[k as int] == lines@[k as int]@);
        }
        if any_contained(lines[k].as_str(), search_strings) {
            let mut context = String::new();
            if k > 0 {
                let before = highlight_search_strings(lines[k - 1].as_str(), search_strings);
                append_context_line(&mut context, "line-before", k, before.as_str(), false);
                proof {
                    assert(ls[k - 1] == lines@[k - 1]@);
                }
            }
            let hit = highlight_search_strings(lines[k].as_str(), search_strings);
            append_context_line(&mut context, "line-hit", k + 1, hit.as_str(), true);
            if k + 1 < lines.len() {
                let after = highlight_search_strings(lines[k + 1].as_str(), search_strings);
                append_context_line(&mut context, "line-after", k + 2, after.as_str(), false);
                proof {
                    assert(ls[k + 1] == lines@[k + 1]@);
                }
            }
            proof {
                assert(context@ =~= hit_context(ls, strings, k as int));
            }
            let ghost before_hits = hits.deep_view();
            hits.push(context);
            proof {
                assert(hits.deep_view() =~= before_hits.push(hit_context(ls, strings, k as int)));
            }
        }
        k = k + 1;
    }
    hits
}

/// The page a report fills in.
pub const REPORT_TEMPLATE: &'static str = r#"<!DOCTYPE html>
<html lang='en'>
<head>
    <meta charset='UTF-8'>
    <meta name='viewport' content='width=device-width, initial-scale=1.0'>
    <title>Pillage Suite - Credential Gathering Results</title>
    <style>
        body {
            font-family: 'Segoe UI', Tahoma, Geneva, Verdana, sans-serif;
            margin: 20px;
            background-color: #f5f5f5;
        }
        .container {
            max-width: 1200px;
            margin: 0 auto;
            background-color: white;
            padding: 20px;
            border-radius: 8px;
            box-shadow: 0 2px 10px rgba(0,0,0,0.1);
        }
        h1 {
            color: #333;
            text-align: center;
            margin-bottom: 30px;
        }
        .summary {
            background-color: #e8f4fd;
            padding: 15px;
            border-radius: 5px;
            margin-bottom: 20px;
        }
        .file-entry {
            margin-bottom: 30px;
            border: 1px solid #ddd;
            border-radius: 5px;
            overflow: hidden;
        }
        .file-header {
            background-color: #f8f9fa;
            padding: 10px 15px;
            border-bottom: 1px solid #ddd;
            font-weight: bold;
            color: #495057;
            cursor: pointer;
        }
        .file-content {
            padding: 15px;
            background-color: #fafafa;
        }
        .line {
            font-family: 'Courier New', monospace;
            margin: 2px 0;
            padding: 2px 5px;
            border-radius: 3px;
        }
        .line-hit {
            background-color: #fff3cd;
            border-left: 4px solid #ffc107;
        }
        .line-before, .line-after {
            background-color: #f8f9fa;
            color: #6c757d;
        }
        .highlight {
            background-color: #ffeb3b;
            padding: 1px 2px;
            border-radius: 2px;
            font-weight: bold;
        }
        .line-number {
            color: #6c757d;
            font-weight: normal;
            margin-right: 10px;
        }
        .hit-marker {
            color: #dc3545;
            font-weight: bold;
        }
        .app-logo {
            width: 48px;
            height: 48px;
            margin-right: 15px;
            color: #1e293b;
        }
        .title-container {
            display: flex;
            align-items: center;
            justify-content: center;
            margin-bottom: 30px;
        }
        .footer {
            margin-top: 40px;
            padding: 20px;
            background-color: #f8f9fa;
            border-top: 1px solid #dee2e6;
            text-align: center;
            color: #6c757d;
            font-size: 14px;
        }
        .footer a {
            color: #495057;
            text-decoration: none;
        }
        .footer a:hover {
            text-decoration: underline;
        }
    </style>
</head>
<body>
    <div class='container'>
        <div class='title-container'>
            <svg class='app-logo' viewBox='0 0 24 24' fill='none' xmlns='http://www.w3.org/2000/svg'>
                <path d='M22 5h-9l-2-2H3c-1.1 0-2 .9-2 2v14c0 1.1.9 2 2 2h19c1.1 0 2-.9 2-2V7c0-1.1-.9-2-2-2z' transform='scale(0.92) translate(1, 1)' fill='currentColor'/>
                <g transform='translate(6.5, 7) scale(0.025)' fill='#e8f4fd' fill-opacity='0.8'>
                    <path d='M339.588,314.529c-14.215,0-27.456,4.133-38.621,11.239l-112.682-78.67c1.809-6.315,2.798-12.976,2.798-19.871    c0-6.896-0.989-13.557-2.798-19.871l109.64-76.547c11.764,8.356,26.133,13.286,41.662,13.286c39.79,0,72.047-32.257,72.047-72.047    C411.634,32.258,379.378,0,339.588,0c-39.79,0-72.047,32.257-72.047,72.047c0,5.255,0.578,10.373,1.646,15.308l-112.424,78.491    c-10.974-6.759-23.892-10.666-37.727-10.666c-39.79,0-72.047,32.257-72.047,72.047s32.256,72.047,72.047,72.047    c13.834,0,26.753-3.907,37.727-10.666l113.292,79.097c-1.629,6.017-2.514,12.34-2.514,18.872c0,39.79,32.257,72.047,72.047,72.047    c39.79,0,72.047-32.257,72.047-72.047C411.635,346.787,379.378,314.529,339.588,314.529z'/>
                </g>
            </svg>
            <h1>Pillage Suite - Credential Gathering Results</h1>
        </div>
        <div class='summary'>
            <h3>Summary</h3>
            <p><strong>Total files processed:</strong> {{TOTAL_FILES_PROCESSED}}</p>
            <p><strong>Files with hits:</strong> {{FILES_WITH_HITS}}</p>
            <p><strong>Search strings:</strong> {{SEARCH_STRINGS}}</p>
            <p><strong>Generated:</strong> {{GENERATED_TIMESTAMP}}</p>
        </div>
        {{FILE_ENTRIES}}
    </div>
    <div class='footer'>This report was created with <strong>Pillage Suite</strong> - <a href='https://github.com/m0xr4/PillageSuite' target='_blank'>https://github.com/m0xr4/PillageSuite</a></div>
    </body>
    </html>
"#;

/// The items of `s` from `0` to `n`, each followed but the last by `sep`.
pub open spec fn joined(s: Seq<Seq<char>>, sep: Seq<char>, n: int) -> Seq<char>
    decreases n,
{
    if n <= 0 {
        Seq::empty()
    } else if n == 1 {
        s[0]
    } else {
        joined(s, sep, n - 1) + sep + s[n - 1]
    }
}

/// The first `n` items of `s`, one after the other.
pub open spec fn concatenated(s: Seq<Seq<char>>, n: int) -> Seq<char>
    decreases n,
{
    if n <= 0 {
        Seq::empty()
    } else {
        concatenated(s, n - 1) + s[n - 1]
    }
}

/// The block of one file of a report: its escaped path and its hits.
pub open spec fn file_block(path: Seq<char>, hits: Seq<Seq<char>>) -> Seq<char> {
    "<div class=\"file-entry\">\n    <details open>\n      <summary class=\"file-header\">"@
        + escaped(path, path.len() as int) + "</summary>\n                <div class=\"file-content\">"@
        + concatenated(hits, hits.len() as int) + "</div></details></div>"@
}

/// The blocks of the first `n` files.
pub open spec fn file_blocks(results: Seq<(String, Vec<String>)>, n: int) -> Seq<char>
    decreases n,
{
    if n <= 0 {
        Seq::empty()
    } else {
        file_blocks(results, n - 1) + file_block(
            results[n - 1].0@,
            results[n - 1].1@.map_values(|h: String| h@),
        )
    }
}

/// The report page: the template with its counts, search strings,
/// generation time and file blocks filled in, in that order.
pub open spec fn report_page(
    results: Seq<(String, Vec<String>)>,
    strings: Seq<Seq<char>>,
    processed: nat,
    with_hits: nat,
    generated: Seq<char>,
) -> Seq<char> {
    let t1 = replaced(REPORT_TEMPLATE@, "{{TOTAL_FILES_PROCESSED}}"@, decimal(processed));
    let t2 = replaced(t1, "{{FILES_WITH_HITS}}"@, decimal(with_hits));
    let t3 = replaced(t2, "{{SEARCH_STRINGS}}"@, joined(strings, ", "@, strings.len() as int));
    let t4 = replaced(t3, "{{GENERATED_TIMESTAMP}}"@, generated);
    replaced(t4, "{{FILE_ENTRIES}}"@, file_blocks(results, results.len() as int))
}

fn join_strings(strings: &[String], sep: &str) -> (r: String)
    ensures
        r@ == joined(strings@.map_values(|s: String| s@), sep@, strings@.len() as int),
{
    let ghost ss = strings@.map_values(|s: String| s@);
    let mut r = String::new();
    let mut i: usize = 0;
    while i < strings.len()
        invariant
            i <= strings@.len(),
            ss == strings@.map_values(|s: String| s@),
            r@ == joined(ss, sep@, i as int),
        decreases strings@.len() - i,
    {
        if i > 0 {
            r.append(sep);
        }
        r.append(strings[i].as_str());
        proof {
            assert(ss[i as int] == strings@[i as int]@);
            assert(r@ =~= joined(ss, sep@, i + 1));
        }
        i = i + 1;
    }
    r
}

fn file_entries(file_results: &[(String, Vec<String>)]) -> (r: String)
    ensures
        r@ == file_blocks(file_results@, file_results@.len() as int),
{
    let mut r = String::new();
    let mut i: usize = 0;
    while i < file_results.len()
        invariant
            i <= file_results@.len(),
            r@ == file_blocks(file_results@, i as int),
        decreases file_results@.len() - i,
    {
        let ghost start = r@;
        let path = &file_results[i].0;
        let hits = &file_results[i].1;
        let ghost hs = hits@.map_values(|h: String| h@);
        r.append("<div class=\"file-entry\">\n    <details open>\n      <summary class=\"file-header\">");
        r.append(html_escape(path.as_str()).as_str());
        r.append("</summary>\n                <div class=\"file-content\">");
        let ghost before_hits = r@;
        let mut k: usize = 0;
        while k < hits.len()
            invariant
                k <= hits@.len(),
                hs == hits@.map_values(|h: String| h@),
                r@ == before_hits + concatenated(hs, k as int),
            decreases hits@.len() - k,
        {
            r.append(hits[k].as_str());
            proof {
                assert(hs[k as int] == hits@[k as int]@);
                assert(r@ =~= before_hits + concatenated(hs, k + 1));
            }
            k = k + 1;
        }
        r.append("</div></details></div>");
        proof {
            assert(r@ =~= start + file_block(path@, hs));
            assert(file_results@[i as int].0 == *path);
            assert(file_results@[i as int].1 == *hits);
        }
        i = i + 1;
    }
    r
}

/// The HTML report of a credential search: counts, search strings, the time
/// it was made and the hits of each file.
pub fn render_report(
    file_results: &[(String, Vec<String>)],
    search_strings: &[String],
    total_files_processed: usize,
    total_files_with_hits: usize,
    generated: &str,
) -> (r: String)
    ensures
        r@ == report_page(
            file_results@,
            search_strings@.map_values(|s: String| s@),
            total_files_processed as nat,
            total_files_with_hits as nat,
            generated@,
        ),
{
    let t1 = replace_all(
        REPORT_TEMPLATE,
        "{{TOTAL_FILES_PROCESSED}}",
        decimal_string(total_files_processed as u64).as_str(),
    );
    let t2 = replace_all(
        t1.as_str(),
        "{{FILES_WITH_HITS}}",
        decimal_string(total_files_with_hits as u64).as_str(),
    );
    let t3 = replace_all(t2.as_str(), "{{SEARCH_STRINGS}}", join_strings(search_strings, ", ").as_str());
    let t4 = replace_all(t3.as_str(), "{{GENERATED_TIMESTAMP}}", generated);
    replace_all(t4.as_str(), "{{FILE_ENTRIES}}", file_entries(file_results).as_str())
}

/// The first `n` items of `s` with each later repeat of an item left out.
pub open spec fn first_occurrences(s: Seq<Seq<char>>, n: int) -> Seq<Seq<char>>
    decreases n,
{
    if n <= 0 {
        Seq::empty()
    } else if first_occurrences(s, n - 1).contains(s[n - 1]) {
        first_occurrences(s, n - 1)
    } else {
        first_occurrences(s, n - 1).push(s[n - 1])
    }
}

/// The search strings without repeats, each kept where it first occurs.
pub fn dedup_search_strings(strings: Vec<String>) -> (r: Vec<String>)
    ensures
        r.deep_view() == first_occurrences(strings.deep_view(), strings@.len() as int),
{
    let ghost all = strings.deep_view();
    let mut kept: Vec<String> = Vec::new();
    let mut i: usize = 0;
    while i < strings.len()
        invariant
            i <= strings@.len(),
            all == strings.deep_view(),
            kept.deep_view() == first_occurrences(all, i as int),
        decreases strings@.len() - i,
    {
        let mut seen = false;
        let mut k: usize = 0;
        while k < kept.len()
            invariant
                k <= kept@.len(),
                i < strings@.len(),
                seen == (exists|j: int| 0 <= j < k && kept.deep_view()[j] == strings@[i as int]@),
            decreases kept@.len() - k,
        {
            proof {
                assert(kept.deep_view()[k as int] == kept@[k as int]@);
            }
            if same_text(kept[k].as_str(), strings[i].as_str()) {
                seen = true;
            }
            k = k + 1;
        }
        proof {
            assert(all[i as int] == strings@[i as int]@);
            if seen {
                let j = choose|j: int| 0 <= j < k && kept.deep_view()[j] == strings@[i as int]@;
                assert(kept.deep_view().contains(all[i as int]));
            } else {
                assert(!kept.deep_view().contains(all[i as int]));
            }
        }
        if !seen {
            let ghost before = kept.deep_view();
            kept.push(strings[i].clone());
            proof {
                assert(kept.deep_view() =~= before.push(all[i as int]));
            }
        }
        i = i + 1;
    }
    kept
}

} // verus!
