//! The App Store Connect endpoints: request paths, the query of a sales report download and
//! the body that starts a build.

use vstd::prelude::*;

use crate::client::ApiError;
use crate::models::sales::{
    delimited_read, gunzip, parse_sales_tsv, parsed_sales_rows, rows_view, table_error_text, SalesReportRow,
};

verus! {

/// Base URL of the App Store Connect API v1.
pub const DEFAULT_BASE_URL: &'static str = "https://api.appstoreconnect.apple.com/v1";

/// `Accept` header of a sales report download (gzip-compressed TSV).
pub const SALES_REPORT_ACCEPT: &'static str = "application/a-gzip";

/// An App Store Connect endpoint.
pub enum Endpoint {
    /// All Xcode Cloud CI products.
    CiProducts,
    /// One CI product, by id.
    CiProduct(String),
    /// The workflows of a CI product, by product id.
    CiProductWorkflows(String),
    /// One CI workflow, by id.
    CiWorkflow(String),
    /// The build runs of a workflow, by workflow id.
    CiWorkflowBuildRuns(String),
    /// One build run, by id.
    CiBuildRun(String),
    /// The collection of build runs (a POST here starts a build).
    CiBuildRuns,
    /// The actions of a build run, by build run id.
    CiBuildRunActions(String),
    /// All apps.
    Apps,
    /// One app, by id.
    App(String),
    /// The customer reviews of an app, by app id.
    AppCustomerReviews(String),
    /// Sales report downloads.
    SalesReports,
}

impl Endpoint {
    /// The path of the endpoint, relative to the API base URL.
    pub open spec fn path_spec(&self) -> Seq<char> {
        match self {
            Endpoint::CiProducts => "/ciProducts"@,
            Endpoint::CiProduct(id) => "/ciProducts/"@ + id@,
            Endpoint::CiProductWorkflows(id) => "/ciProducts/"@ + id@ + "/workflows"@,
            Endpoint::CiWorkflow(id) => "/ciWorkflows/"@ + id@,
            Endpoint::CiWorkflowBuildRuns(id) => "/ciWorkflows/"@ + id@ + "/buildRuns"@,
            Endpoint::CiBuildRun(id) => "/ciBuildRuns/"@ + id@,
            Endpoint::CiBuildRuns => "/ciBuildRuns"@,
            Endpoint::CiBuildRunActions(id) => "/ciBuildRuns/"@ + id@ + "/actions"@,
            Endpoint::Apps => "/apps"@,
            Endpoint::App(id) => "/apps/"@ + id@,
            Endpoint::AppCustomerReviews(id) => "/apps/"@ + id@ + "/customerReviews"@,
            Endpoint::SalesReports => "/salesReports"@,
        }
    }

    /// The path of the endpoint, relative to the API base URL; ids are inserted verbatim.
    pub fn path(&self) -> (res: String)
        ensures
            res@ == self.path_spec(),
    {
        match self {
            Endpoint::CiProducts => String::from_str("/ciProducts"),
            Endpoint::CiProduct(id) => String::from_str("/ciProducts/").concat(id.as_str()),
            Endpoint::CiProductWorkflows(id) => String::from_str("/ciProducts/").concat(id.as_str()).concat("/workflows"),
            Endpoint::CiWorkflow(id) => String::from_str("/ciWorkflows/").concat(id.as_str()),
            Endpoint::CiWorkflowBuildRuns(id) => String::from_str("/ciWorkflows/").concat(id.as_str()).concat("/buildRuns"),
            Endpoint::CiBuildRun(id) => String::from_str("/ciBuildRuns/").concat(id.as_str()),
            Endpoint::CiBuildRuns => String::from_str("/ciBuildRuns"),
            Endpoint::CiBuildRunActions(id) => String::from_str("/ciBuildRuns/").concat(id.as_str()).concat("/actions"),
            Endpoint::Apps => String::from_str("/apps"),
            Endpoint::App(id) => String::from_str("/apps/").concat(id.as_str()),
            Endpoint::AppCustomerReviews(id) => String::from_str("/apps/").concat(id.as_str()).concat("/customerReviews"),
            Endpoint::SalesReports => String::from_str("/salesReports"),
        }
    }
}

/// Every endpoint's path is the resource collection named in the API, followed by the id
/// and the related collection where the endpoint has them.
pub proof fn lemma_endpoint_paths(id: String)
    ensures
        Endpoint::CiProducts.path_spec() == "/ciProducts"@,
        Endpoint::CiProduct(id).path_spec() == "/ciProducts/"@ + id@,
        Endpoint::CiProductWorkflows(id).path_spec() == "/ciProducts/"@ + id@ + "/workflows"@,
        Endpoint::CiWorkflow(id).path_spec() == "/ciWorkflows/"@ + id@,
        Endpoint::CiWorkflowBuildRuns(id).path_spec() == "/ciWorkflows/"@ + id@ + "/buildRuns"@,
        Endpoint::CiBuildRun(id).path_spec() == "/ciBuildRuns/"@ + id@,
        Endpoint::CiBuildRuns.path_spec() == "/ciBuildRuns"@,
        Endpoint::CiBuildRunActions(id).path_spec() == "/ciBuildRuns/"@ + id@ + "/actions"@,
        Endpoint::Apps.path_spec() == "/apps"@,
        Endpoint::App(id).path_spec() == "/apps/"@ + id@,
        Endpoint::AppCustomerReviews(id).path_spec() == "/apps/"@ + id@ + "/customerReviews"@,
        Endpoint::SalesReports.path_spec() == "/salesReports"@,
{
}

/// The URL of a request: the base URL followed by the path.
pub fn api_url(base_url: &str, path: &str) -> (res: String)
    ensures
        res@ == base_url@ + path@,
{
    String::from_str(base_url).concat(path)
}

/// The view of query parameters.
pub open spec fn query_view(q: Seq<(String, String)>) -> Seq<(Seq<char>, Seq<char>)> {
    q.map_values(|p: (String, String)| (p.0@, p.1@))
}

/// The query of a sales report download.
pub open spec fn sales_report_query_spec(
    vendor_number: Seq<char>,
    report_type: Seq<char>,
    report_sub_type: Seq<char>,
    frequency: Seq<char>,
    report_date: Seq<char>,
) -> Seq<(Seq<char>, Seq<char>)> {
    seq![
        ("filter[vendorNumber]"@, vendor_number),
        ("filter[reportType]"@, report_type),
        ("filter[reportSubType]"@, report_sub_type),
        ("filter[frequency]"@, frequency),
        ("filter[reportDate]"@, report_date),
    ]
}

/// The sales report query carries five filters, in this order: vendor number, report type,
/// report sub-type, frequency and report date, each with the value given for it.
pub proof fn lemma_sales_report_query_filters(v: Seq<char>, t: Seq<char>, st: Seq<char>, f: Seq<char>, d: Seq<char>)
    ensures
        sales_report_query_spec(v, t, st, f, d).len() == 5,
        sales_report_query_spec(v, t, st, f, d)[0] == ("filter[vendorNumber]"@, v),
        sales_report_query_spec(v, t, st, f, d)[1] == ("filter[reportType]"@, t),
        sales_report_query_spec(v, t, st, f, d)[2] == ("filter[reportSubType]"@, st),
        sales_report_query_spec(v, t, st, f, d)[3] == ("filter[frequency]"@, f),
        sales_report_query_spec(v, t, st, f, d)[4] == ("filter[reportDate]"@, d),
{
}

/// The query parameters of a sales report download, in order.
pub fn sales_report_query(
    vendor_number: &str,
    report_type: &str,
    report_sub_type: &str,
    frequency: &str,
    report_date: &str,
) -> (res: Vec<(String, String)>)
    ensures
        query_view(res@) == sales_report_query_spec(
            vendor_number@,
            report_type@,
            report_sub_type@,
            frequency@,
            report_date@,
        ),
{
    let mut q: Vec<(String, String)> = Vec::new();
    q.push((String::from_str("filter[vendorNumber]"), String::from_str(vendor_number)));
    q.push((String::from_str("filter[reportType]"), String::from_str(report_type)));
    q.push((String::from_str("filter[reportSubType]"), String::from_str(report_sub_type)));
    q.push((String::from_str("filter[frequency]"), String::from_str(frequency)));
    q.push((String::from_str("filter[reportDate]"), String::from_str(report_date)));
    assert(query_view(q@) =~= sales_report_query_spec(
        vendor_number@,
        report_type@,
        report_sub_type@,
        frequency@,
        report_date@,
    ));
    q
}

/// The lowercase hexadecimal digit of `d` (for `0 <= d < 16`).
pub open spec fn hex_digit(d: int) -> char {
    "0123456789abcdef"@[d]
}

/// How one character is written inside a JSON string literal: `"` and `\` are escaped with a
/// backslash; backspace, form feed, newline, carriage return and tab by their short escapes;
/// the other control characters (below U+0020) as `\u00` and two lowercase hex digits; every
/// other character is written as it is.
pub open spec fn json_escape_char(c: char) -> Seq<char> {
    if c == '"' {
        seq!['\\', '"']
    } else if c == '\\' {
        seq!['\\', '\\']
    } else if c == '\u{8}' {
        seq!['\\', 'b']
    } else if c == '\u{c}' {
        seq!['\\', 'f']
    } else if c == '\n' {
        seq!['\\', 'n']
    } else if c == '\r' {
        seq!['\\', 'r']
    } else if c == '\t' {
        seq!['\\', 't']
    } else if (c as int) < 0x20 {
        seq!['\\', 'u', '0', '0', hex_digit((c as int) / 16), hex_digit((c as int) % 16)]
    } else {
        seq![c]
    }
}

/// The characters of `s`, each written as [`json_escape_char`] writes it.
pub open spec fn json_escaped(s: Seq<char>) -> Seq<char>
    decreases s.len(),
{
    if s.len() == 0 {
        Seq::empty()
    } else {
        json_escaped(s.drop_last()) + json_escape_char(s.last())
    }
}

/// The JSON string literal of `s`: its escaped characters between double quotes.
pub open spec fn json_string_literal(s: Seq<char>) -> Seq<char> {
    seq!['"'] + json_escaped(s) + seq!['"']
}

/// The value of a hexadecimal digit (either case), or -1 for any other character.
pub open spec fn hex_value(c: char) -> int {
    if '0' <= c <= '9' {
        c as int - '0' as int
    } else if 'a' <= c <= 'f' {
        c as int - 'a' as int + 10
    } else if 'A' <= c <= 'F' {
        c as int - 'A' as int + 10
    } else {
        -1
    }
}

/// The character that the two-character JSON escape `\e` stands for, if `e` names one.
pub open spec fn json_short_escape(e: char) -> Option<char> {
    if e == '"' {
        Some('"')
    } else if e == '\\' {
        Some('\\')
    } else if e == '/' {
        Some('/')
    } else if e == 'b' {
        Some('\u{8}')
    } else if e == 'f' {
        Some('\u{c}')
    } else if e == 'n' {
        Some('\n')
    } else if e == 'r' {
        Some('\r')
    } else if e == 't' {
        Some('\t')
    } else {
        None
    }
}

/// The code point that the four hexadecimal digits after `\u` at the start of `t` write.
pub open spec fn json_u_escape_value(t: Seq<char>) -> int {
    hex_value(t[2]) * 4096 + hex_value(t[3]) * 256 + hex_value(t[4]) * 16 + hex_value(t[5])
}

/// Decodes the text between the quotes of a JSON string literal, as RFC 8259 reads it: a
/// backslash starts an escape (`\"`, `\\`, `\/`, `\b`, `\f`, `\n`, `\r`, `\t`, or `\u` and four
/// hex digits); an unescaped `"` or control character (below U+0020) makes the text invalid
/// (`None`); every other character stands for itself. Surrogate `\u` escapes are not decoded.
pub open spec fn json_unescape(t: Seq<char>) -> Option<Seq<char>>
    decreases t.len(),
{
    if t.len() == 0 {
        Some(Seq::empty())
    } else if t[0] == '\\' {
        if t.len() >= 2 && json_short_escape(t[1]) is Some {
            match json_unescape(t.skip(2)) {
                Some(rest) => Some(seq![json_short_escape(t[1])->Some_0] + rest),
                None => None,
            }
        } else if t.len() >= 6 && t[1] == 'u' && hex_value(t[2]) >= 0 && hex_value(t[3]) >= 0
            && hex_value(t[4]) >= 0 && hex_value(t[5]) >= 0 && (json_u_escape_value(t) < 0xD800
            || 0xE000 <= json_u_escape_value(t)) {
            match json_unescape(t.skip(6)) {
                Some(rest) => Some(seq![json_u_escape_value(t) as char] + rest),
                None => None,
            }
        } else {
            None
        }
    } else if t[0] == '"' || (t[0] as int) < 0x20 {
        None
    } else {
        match json_unescape(t.skip(1)) {
            Some(rest) => Some(seq![t[0]] + rest),
            None => None,
        }
    }
}

/// Decoding reads escapes left to right, so a text that decodes can be followed by more text.
proof fn lemma_json_unescape_append(x: Seq<char>, y: Seq<char>)
    requires
        json_unescape(x) is Some,
    ensures
        json_unescape(x + y) == match json_unescape(y) {
            Some(b) => Some(json_unescape(x)->Some_0 + b),
            None => None::<Seq<char>>,
        },
    decreases x.len(),
{
    if x.len() == 0 {
        assert(x + y =~= y);
        assert(json_unescape(x)->Some_0 + json_unescape(y)->Some_0 =~= json_unescape(y)->Some_0);
    } else {
        let t = x + y;
        assert(t[0] == x[0]);
        let k: int = if x[0] == '\\' {
            if json_short_escape(x[1]) is Some { 2 } else { 6 }
        } else {
            1
        };
        assert(x.len() >= k);
        assert forall|i: int| 0 <= i < k implies t[i] == x[i] by {}
        assert(t.skip(k) =~= x.skip(k) + y);
        lemma_json_unescape_append(x.skip(k), y);
        if k == 6 {
            assert(json_u_escape_value(t) == json_u_escape_value(x));
        }
        match json_unescape(y) {
            Some(b) => {
                let head = if k == 2 {
                    seq![json_short_escape(x[1])->Some_0]
                } else if k == 6 {
                    seq![json_u_escape_value(x) as char]
                } else {
                    seq![x[0]]
                };
                assert(head + (json_unescape(x.skip(k))->Some_0 + b) =~= (head + json_unescape(x.skip(k))->Some_0) + b);
            },
            None => {},
        }
    }
}

/// The hexadecimal digit written for `d` reads back as `d`.
proof fn lemma_hex_digit_value(d: int)
    requires
        0 <= d < 16,
    ensures
        hex_value(hex_digit(d)) == d,
{
    reveal_strlit("0123456789abcdef");
    if d == 0 {
        assert(hex_digit(0) == '0');
    }
    if d == 1 {
        assert(hex_digit(1) == '1');
    }
    if d == 2 {
        assert(hex_digit(2) == '2');
    }
    if d == 3 {
        assert(hex_digit(3) == '3');
    }
    if d == 4 {
        assert(hex_digit(4) == '4');
    }
    if d == 5 {
        assert(hex_digit(5) == '5');
    }
    if d == 6 {
        assert(hex_digit(6) == '6');
    }
    if d == 7 {
        assert(hex_digit(7) == '7');
    }
    if d == 8 {
        assert(hex_digit(8) == '8');
    }
    if d == 9 {
        assert(hex_digit(9) == '9');
    }
    if d == 10 {
        assert(hex_digit(10) == 'a');
    }
    if d == 11 {
        assert(hex_digit(11) == 'b');
    }
    if d == 12 {
        assert(hex_digit(12) == 'c');
    }
    if d == 13 {
        assert(hex_digit(13) == 'd');
    }
    if d == 14 {
        assert(hex_digit(14) == 'e');
    }
    if d == 15 {
        assert(hex_digit(15) == 'f');
    }
}

/// The escape of a character decodes back to that character.
proof fn lemma_json_escape_char_decodes(c: char)
    ensures
        json_unescape(json_escape_char(c)) == Some(seq![c]),
{
    let t = json_escape_char(c);
    if c == '"' || c == '\\' || c == '\u{8}' || c == '\u{c}' || c == '\n' || c == '\r' || c == '\t' {
        assert(t.skip(2) =~= Seq::<char>::empty());
        assert(json_unescape(t.skip(2)) == Some(Seq::<char>::empty()));
        assert(seq![json_short_escape(t[1])->Some_0] + Seq::<char>::empty() =~= seq![c]);
    } else if (c as int) < 0x20 {
        lemma_hex_digit_value((c as int) / 16);
        lemma_hex_digit_value((c as int) % 16);
        assert(json_u_escape_value(t) == c as int);
        assert(t.skip(6) =~= Seq::<char>::empty());
        assert(json_unescape(t.skip(6)) == Some(Seq::<char>::empty()));
        assert((c as int) as char == c);
        assert(seq![json_u_escape_value(t) as char] + Seq::<char>::empty() =~= seq![c]);
    } else {
        assert(t.skip(1) =~= Seq::<char>::empty());
        assert(json_unescape(t.skip(1)) == Some(Seq::<char>::empty()));
        assert(seq![t[0]] + Seq::<char>::empty() =~= seq![c]);
    }
}

/// Escaping loses nothing: the escaped text of `s` decodes back to `s`, for every `s`.
pub proof fn lemma_json_escaped_round_trip(s: Seq<char>)
    ensures
        json_unescape(json_escaped(s)) == Some(s),
    decreases s.len(),
{
    if s.len() == 0 {
    } else {
        lemma_json_escaped_round_trip(s.drop_last());
        lemma_json_escape_char_decodes(s.last());
        lemma_json_unescape_append(json_escaped(s.drop_last()), json_escape_char(s.last()));
        assert(s.drop_last() + seq![s.last()] =~= s);
    }
}

/// The JSON string literal of `s` is `s`'s escaped text between double quotes, and that text
/// decodes back to `s`: a JSON reader gives back exactly the string that was written.
pub proof fn lemma_json_string_literal_round_trip(s: Seq<char>)
    ensures
        json_string_literal(s).len() >= 2,
        json_string_literal(s)[0] == '"',
        json_string_literal(s).last() == '"',
        json_unescape(json_string_literal(s).subrange(1, json_string_literal(s).len() - 1)) == Some(s),
{
    let l = json_string_literal(s);
    assert(l.subrange(1, l.len() - 1) =~= json_escaped(s));
    lemma_json_escaped_round_trip(s);
}

/// Escaping a prefix one character longer appends the escape of that character.
proof fn lemma_json_escaped_take(s: Seq<char>, i: int)
    requires
        0 <= i < s.len(),
    ensures
        json_escaped(s.take(i + 1)) == json_escaped(s.take(i)) + json_escape_char(s[i]),
{
    assert(s.take(i + 1).drop_last() =~= s.take(i));
}

/// The escape of a character that is not written as it is, as a string.
fn escape_of(c: char) -> (res: Option<String>)
    ensures
        match res {
            Some(e) => e@ == json_escape_char(c),
            None => json_escape_char(c) == seq![c],
        },
{
    proof {
        reveal_strlit("\\\"");
        reveal_strlit("\\\\");
        reveal_strlit("\\b");
        reveal_strlit("\\f");
        reveal_strlit("\\n");
        reveal_strlit("\\r");
        reveal_strlit("\\t");
        reveal_strlit("\\u00");
        reveal_strlit("0123456789abcdef");
    }
    if c == '"' {
        Some(String::from_str("\\\""))
    } else if c == '\\' {
        Some(String::from_str("\\\\"))
    } else if c == '\u{8}' {
        Some(String::from_str("\\b"))
    } else if c == '\u{c}' {
        Some(String::from_str("\\f"))
    } else if c == '\n' {
        Some(String::from_str("\\n"))
    } else if c == '\r' {
        Some(String::from_str("\\r"))
    } else if c == '\t' {
        Some(String::from_str("\\t"))
    } else {
        let code: u32 = c as u32;
        if code < 0x20 {
            let digits = "0123456789abcdef";
            let hi: usize = (code / 16) as usize;
            let lo: usize = (code % 16) as usize;
            let e = String::from_str("\\u00").concat(digits.substring_char(hi, hi + 1)).concat(
                digits.substring_char(lo, lo + 1),
            );
            assert(e@ =~= json_escape_char(c));
            Some(e)
        } else {
            None
        }
    }
}

/// The JSON string literal of `s`, as `serde_json` writes a string.
pub fn json_quote(s: &str) -> (res: String)
    ensures
        res@ == json_string_literal(s@),
{
    proof {
        reveal_strlit("\"");
    }
    let n = s.unicode_len();
    let mut out = String::from_str("\"");
    let mut start: usize = 0;
    let mut i: usize = 0;
    while i < n
        invariant
            n == s@.len(),
            start <= i <= n,
            out@ + s@.subrange(start as int, i as int) == seq!['"'] + json_escaped(s@.take(i as int)),
        decreases n - i,
    {
        let c = s.get_char(i);
        proof {
            lemma_json_escaped_take(s@, i as int);
        }
        match escape_of(c) {
            Some(e) => {
                out.append(s.substring_char(start, i));
                out.append(e.as_str());
                start = i + 1;
                assert(s@.subrange(start as int, i + 1) =~= Seq::<char>::empty());
                assert(out@ + s@.subrange(start as int, i + 1) =~= seq!['"'] + json_escaped(s@.take(i + 1)));
            },
            None => {
                let ghost run = s@.subrange(start as int, i as int);
                assert(s@.subrange(start as int, i + 1) =~= run + seq![c]);
                assert(out@ + (run + seq![c]) =~= (out@ + run) + seq![c]);
                assert(json_escape_char(c) == seq![c]);
                assert(out@ + s@.subrange(start as int, i + 1) =~= seq!['"'] + json_escaped(s@.take(i + 1)));
            },
        }
        i = i + 1;
    }
    out.append(s.substring_char(start, n));
    out.append("\"");
    assert(s@.take(n as int) =~= s@);
    assert(out@ =~= json_string_literal(s@));
    out
}

/// The JSON:API document that creates a build run of `workflow_id` from the git reference
/// `git_reference_id`, as compact JSON with the keys of each object in sorted order.
pub open spec fn start_build_body_spec(workflow_id: Seq<char>, git_reference_id: Seq<char>) -> Seq<char> {
    "{\"data\":{\"relationships\":{\"sourceBranchOrTag\":{\"data\":{\"id\":"@
        + json_string_literal(git_reference_id)
        + ",\"type\":\"scmGitReferences\"}},\"workflow\":{\"data\":{\"id\":"@
        + json_string_literal(workflow_id)
        + ",\"type\":\"ciWorkflows\"}}},\"type\":\"ciBuildRuns\"}}"@
}

/// The request body that starts a build run of a workflow from a git reference (branch or
/// tag), as compact JSON.
pub fn start_build_body(workflow_id: &str, git_reference_id: &str) -> (res: String)
    ensures
        res@ == start_build_body_spec(workflow_id@, git_reference_id@),
{
    let w = json_quote(workflow_id);
    let g = json_quote(git_reference_id);
    String::from_str("{\"data\":{\"relationships\":{\"sourceBranchOrTag\":{\"data\":{\"id\":")
        .concat(g.as_str())
        .concat(",\"type\":\"scmGitReferences\"}},\"workflow\":{\"data\":{\"id\":")
        .concat(w.as_str())
        .concat(",\"type\":\"ciWorkflows\"}}},\"type\":\"ciBuildRuns\"}}")
}

/// The description of the error of a downloaded sales report that does not parse: the
/// decompression error, or the parse error of the table that the decompressed text holds.
pub open spec fn sales_report_error_text(data: Seq<u8>) -> Seq<char> {
    match gunzip(data) {
        Err(msg) => "gzip decompression failed: "@ + msg,
        Ok(text) => "TSV parse error: "@ + table_error_text(delimited_read(text, 9u8, true)),
    }
}

/// Parses a downloaded sales report into rows; a report that does not parse becomes
/// [`ApiError::SalesReport`] with the description of the parse error.
pub fn sales_report_rows(data: &[u8]) -> (res: Result<Vec<SalesReportRow>, ApiError>)
    ensures
        res is Ok <==> parsed_sales_rows(data@) is Some,
        res matches Ok(rows) ==> parsed_sales_rows(data@) == Some(rows_view(rows@)),
        res matches Err(e) ==> e matches ApiError::SalesReport(m) && m@ == sales_report_error_text(data@),
{
    match parse_sales_tsv(data) {
        Ok(rows) => Ok(rows),
        Err(e) => Err(ApiError::from_sales_error(&e)),
    }
}

} // verus!
