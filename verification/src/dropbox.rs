//! The Dropbox account: paths, requests and answers of its API.

use vstd::prelude::*;
use vstd::slice::slice_subrange;
use crate::entry::Entry;
use crate::listing::{entry_views, parse_rfc3339, rfc3339_instant, time_of, EntryView};
use crate::text::{chars_of, concat3, contains_text, decimal, decimal_text, digit_char, find_last};
use crate::text::{last_index, parse_number, parse_number_chars, same_text};
use crate::text::{string_from, string_of, text_contains, trim, trim_chars, trim_text};

verus! {

/// What a JSON text holds under a key at its top: the text that is there, if
/// any; or the error that `serde_json` reports where the text is no JSON.
pub uninterp spec fn json_field(json: Seq<char>, key: Seq<char>) -> Result<
    Option<Seq<char>>,
    Seq<char>,
>;

/// A digit of the hexadecimal system.
pub open spec fn hex_digit(n: int) -> char {
    if n < 10 {
        digit_char(n as nat)
    } else {
        (n + 87) as char
    }
}

/// A character inside a JSON string: quotes, backslashes and the control
/// characters are escaped.
pub open spec fn json_escaped(c: char) -> Seq<char> {
    if c == '"' || c == '\\' {
        seq!['\\', c]
    } else if c == '\u{8}' {
        seq!['\\', 'b']
    } else if c == '\t' {
        seq!['\\', 't']
    } else if c == '\n' {
        seq!['\\', 'n']
    } else if c == '\u{c}' {
        seq!['\\', 'f']
    } else if c == '\r' {
        seq!['\\', 'r']
    } else if (c as int) < 32 {
        seq!['\\', 'u', '0', '0', hex_digit(c as int / 16), hex_digit(c as int % 16)]
    } else {
        seq![c]
    }
}

/// The characters of a text, each escaped.
pub open spec fn json_contents(s: Seq<char>) -> Seq<char>
    decreases s.len(),
{
    if s.len() == 0 {
        seq![]
    } else {
        json_escaped(s[0]) + json_contents(s.skip(1))
    }
}

/// A text as a JSON string.
pub open spec fn json_quoted(s: Seq<char>) -> Seq<char> {
    seq!['"'] + json_contents(s) + seq!['"']
}

/// A looked-up field as plain values.
pub open spec fn field_view(r: Result<Option<String>, String>) -> Result<
    Option<Seq<char>>,
    Seq<char>,
> {
    match r {
        Ok(Some(t)) => Ok(Some(t@)),
        Ok(None) => Ok(None),
        Err(e) => Err(e@),
    }
}

/// `serde_json::from_str` to a `Value`, and `Value::get` and `Value::as_str` of
/// it: a function of the text and the key.
#[verifier::external_body]
fn json_text_field(json: &str, key: &str) -> (r: Result<Option<String>, String>)
    ensures
        field_view(r) == json_field(json@, key@),
{
    match serde_json::from_str::<serde_json::Value>(json) {
        Ok(v) => Ok(v.get(key).and_then(|f| f.as_str()).map(|s| s.to_string())),
        Err(e) => Err(e.to_string()),
    }
}

/// `serde_json::Value::to_string` of a string: the text between quotes, with
/// quotes, backslashes and control characters escaped and the rest as it is.
#[verifier::external_body]
fn json_string(s: &str) -> (r: String)
    ensures
        r@ == json_quoted(s@),
{
    serde_json::Value::String(s.to_string()).to_string()
}

proof fn lemma_escapes_differ(c: char, d: char, x: Seq<char>, y: Seq<char>)
    requires
        json_escaped(c) + x == json_escaped(d) + y,
    ensures
        c == d,
        x == y,
{
    let u = json_escaped(c) + x;
    let v = json_escaped(d) + y;
    assert(u[0] == json_escaped(c)[0] && v[0] == json_escaped(d)[0]);
    if json_escaped(c).len() > 1 {
        assert(u[1] == json_escaped(c)[1] && v[1] == json_escaped(d)[1]);
    }
    if json_escaped(c).len() == 6 {
        assert(u[4] == json_escaped(c)[4] && v[4] == json_escaped(d)[4]);
        assert(u[5] == json_escaped(c)[5] && v[5] == json_escaped(d)[5]);
    }
    assert(c == d);
    assert(x =~= u.skip(json_escaped(c).len() as int));
    assert(y =~= v.skip(json_escaped(c).len() as int));
}

proof fn lemma_contents_differ(s: Seq<char>, t: Seq<char>)
    requires
        json_contents(s) == json_contents(t),
    ensures
        s == t,
    decreases s.len(),
{
    if s.len() > 0 && t.len() > 0 {
        lemma_escapes_differ(s[0], t[0], json_contents(s.skip(1)), json_contents(t.skip(1)));
        lemma_contents_differ(s.skip(1), t.skip(1));
        assert(s =~= seq![s[0]] + s.skip(1));
        assert(t =~= seq![t[0]] + t.skip(1));
    } else if s.len() > 0 {
        assert(json_contents(t).len() == 0);
        assert(json_contents(s).len() >= json_escaped(s[0]).len());
    } else if t.len() > 0 {
        assert(json_contents(s).len() == 0);
        assert(json_contents(t).len() >= json_escaped(t[0]).len());
    } else {
        assert(s =~= t);
    }
}

/// Different texts are different JSON strings: a request names one path alone.
pub proof fn json_strings_are_distinct(s: Seq<char>, t: Seq<char>)
    requires
        json_quoted(s) == json_quoted(t),
    ensures
        s == t,
{
    let u = json_quoted(s);
    assert(json_contents(s) =~= u.subrange(1, u.len() - 1));
    assert(json_contents(t) =~= u.subrange(1, u.len() - 1));
    lemma_contents_differ(s, t);
}

/// The text without the characters at its end that are `a` or `b`.
pub open spec fn trim_end_of(s: Seq<char>, a: char, b: char) -> Seq<char>
    decreases s.len(),
{
    if s.len() > 0 && (s.last() == a || s.last() == b) {
        trim_end_of(s.drop_last(), a, b)
    } else {
        s
    }
}

fn trim_end_chars_of(s: &[char], a: char, b: char) -> (r: &[char])
    ensures
        r@ == trim_end_of(s@, a, b),
{
    let mut n: usize = s.len();
    assert(s@.take(s@.len() as int) =~= s@);
    while n > 0 && (s[n - 1] == a || s[n - 1] == b)
        invariant
            n <= s@.len(),
            trim_end_of(s@, a, b) == trim_end_of(s@.take(n as int), a, b),
        decreases n,
    {
        assert(s@.take(n as int).drop_last() =~= s@.take(n as int - 1));
        n -= 1;
    }
    assert(s@.subrange(0, n as int) =~= s@.take(n as int));
    slice_subrange(s, 0, n)
}

/// The text with `/` for `\`.
pub open spec fn forward_slashes(s: Seq<char>) -> Seq<char> {
    Seq::new(
        s.len(),
        |i: int|
            if s[i] == '\\' {
                '/'
            } else {
                s[i]
            },
    )
}

/// A pane's path as the API writes it: the root is empty, every other path
/// starts with `/` and ends in none.
pub open spec fn api_path(p: Seq<char>) -> Seq<char> {
    let t = trim_end_of(forward_slashes(p), '/', '/');
    if t.len() == 0 || t[0] == '/' {
        t
    } else {
        seq!['/'] + t
    }
}

/// The path that the API takes for a pane's path.
pub fn dropbox_api_path(path: &str) -> (r: String)
    ensures
        r@ == api_path(path@),
{
    let v = chars_of(path);
    let mut f: Vec<char> = Vec::new();
    let mut i: usize = 0;
    while i < v.len()
        invariant
            i <= v@.len(),
            f@ == forward_slashes(v@).take(i as int),
        decreases v.len() - i,
    {
        let c = v[i];
        f.push(
            if c == '\\' {
                '/'
            } else {
                c
            },
        );
        i += 1;
        assert(f@ =~= forward_slashes(v@).take(i as int));
    }
    assert(forward_slashes(v@).take(v@.len() as int) =~= forward_slashes(v@));
    let t = trim_end_chars_of(f.as_slice(), '/', '/');
    if t.len() == 0 || t[0] == '/' {
        string_of(t)
    } else {
        let rest = string_of(t);
        let mut r = String::new();
        r.push('/');
        r.push_str(rest.as_str());
        assert(r@ =~= api_path(path@));
        r
    }
}

/// An API path never ends in `/`, and is empty or starts with one.
pub proof fn api_path_is_anchored(p: Seq<char>)
    ensures
        api_path(p).len() > 0 ==> api_path(p)[0] == '/' && api_path(p).last() != '/',
{
    lemma_trim_end_of(forward_slashes(p), '/', '/');
}

proof fn lemma_trim_end_of(s: Seq<char>, a: char, b: char)
    ensures
        trim_end_of(s, a, b).len() > 0 ==> trim_end_of(s, a, b).last() != a && trim_end_of(
            s,
            a,
            b,
        ).last() != b,
    decreases s.len(),
{
    if s.len() > 0 && (s.last() == a || s.last() == b) {
        lemma_trim_end_of(s.drop_last(), a, b);
    }
}

/// The API path of a child of a folder.
pub open spec fn child_path(dir: Seq<char>, name: Seq<char>) -> Seq<char> {
    trim_end_of(dir, '/', '/') + seq!['/'] + name
}

/// The API path of a child of a folder.
pub fn join_dropbox(dir_api: &str, name: &str) -> (r: String)
    ensures
        r@ == child_path(dir_api@, name@),
{
    let v = chars_of(dir_api);
    let mut r = string_of(trim_end_chars_of(v.as_slice(), '/', '/'));
    r.push('/');
    r.push_str(name);
    assert(r@ =~= child_path(dir_api@, name@));
    r
}

/// One page of a folder's listing, with the cursor of the next page.
#[derive(Debug, PartialEq)]
pub struct DropboxListing {
    pub entries: Vec<Entry>,
    pub cursor: Option<String>,
}

/// An item of a listing as the API sends it.
#[derive(Debug)]
pub struct RawEntry {
    pub tag: String,
    pub name: String,
    pub size: Option<u64>,
    pub server_modified: Option<String>,
}

/// A page of a listing as the API sends it, or its error.
#[derive(Debug)]
pub struct RawListing {
    pub entries: Vec<RawEntry>,
    pub cursor: Option<String>,
    pub has_more: bool,
    pub error_summary: Option<String>,
}

/// The entry that an item stands for: folders and files only.
pub open spec fn raw_entry(raw: RawEntry) -> Option<EntryView> {
    if raw.tag@ == "folder"@ {
        Some(EntryView { name: raw.name@, is_dir: true, size: None, modified: None })
    } else if raw.tag@ == "file"@ {
        Some(
            EntryView {
                name: raw.name@,
                is_dir: false,
                size: match raw.size {
                    Some(n) => Some(n as nat),
                    None => None,
                },
                modified: match raw.server_modified {
                    Some(t) => time_of(rfc3339_instant(t@)),
                    None => None,
                },
            },
        )
    } else {
        None
    }
}

fn entry_of_raw(raw: &RawEntry) -> (r: Option<Entry>)
    ensures
        match r {
            Some(e) => raw_entry(*raw) == Some(e@),
            None => raw_entry(*raw) is None,
        },
{
    if same_text(raw.tag.as_str(), "folder") {
        return Some(Entry { name: raw.name.clone(), is_dir: true, size: None, modified: None });
    }
    if same_text(raw.tag.as_str(), "file") {
        let modified = match &raw.server_modified {
            Some(t) => parse_rfc3339(t.as_str()),
            None => None,
        };
        return Some(Entry { name: raw.name.clone(), is_dir: false, size: raw.size, modified });
    }
    None
}

/// The page that an answer holds. Other items than folders and files are passed
/// over; an error is returned as it is; there is a cursor only where there is
/// more to come.
pub open spec fn page_read(raw: RawListing, r: Result<DropboxListing, String>) -> bool {
    match raw.error_summary {
        Some(e) => r == Err::<DropboxListing, String>(e),
        None => {
            &&& r matches Ok(l)
            &&& entry_views(l.entries@) == crate::filtering::mapped_some(
                raw.entries@,
                |x: RawEntry| raw_entry(x),
            )
            &&& l.cursor == (if raw.has_more {
                raw.cursor
            } else {
                None::<String>
            })
        },
    }
}

/// The page that an answer holds.
pub fn dropbox_listing(raw: RawListing) -> (r: Result<DropboxListing, String>)
    ensures
        page_read(raw, r),
{
    match raw.error_summary {
        Some(e) => return Err(e),
        None => {},
    }
    let ghost all = raw.entries@;
    let ghost f = |x: RawEntry| raw_entry(x);
    let mut entries: Vec<Entry> = Vec::new();
    let mut i: usize = 0;
    assert(entry_views(entries@) =~= crate::filtering::mapped_some(all.take(0), f));
    while i < raw.entries.len()
        invariant
            i <= all.len(),
            all == raw.entries@,
            f == (|x: RawEntry| raw_entry(x)),
            entry_views(entries@) == crate::filtering::mapped_some(all.take(i as int), f),
        decreases raw.entries.len() - i,
    {
        proof {
            crate::filtering::lemma_mapped_step(all, i as int, f);
        }
        match entry_of_raw(&raw.entries[i]) {
            Some(e) => {
                let ghost done = entry_views(entries@);
                let ghost ev = e@;
                entries.push(e);
                assert(entry_views(entries@) =~= done.push(ev));
            },
            None => {},
        }
        i += 1;
    }
    assert(all.take(all.len() as int) =~= all);
    let cursor = if raw.has_more {
        raw.cursor
    } else {
        None
    };
    Ok(DropboxListing { entries, cursor })
}

/// An answer of the token endpoint.
#[derive(Debug)]
pub struct RawToken {
    pub access_token: Option<String>,
    pub expires_in: Option<u64>,
    pub error_description: Option<String>,
    pub error: Option<String>,
}

/// The token that an answer holds and how many seconds it lasts, four hours
/// where it does not say; or its error, the longer form first.
pub open spec fn token_read(raw: RawToken, r: Result<(String, u64), String>) -> bool {
    match raw.access_token {
        Some(t) => r == Ok::<(String, u64), String>(
            (
                t,
                match raw.expires_in {
                    Some(n) => n,
                    None => 14400,
                },
            ),
        ),
        None => r matches Err(e) && match (raw.error_description, raw.error) {
            (Some(d), _) => e == d,
            (None, Some(s)) => e == s,
            (None, None) => e@ == "token exchange failed"@,
        },
    }
}

/// The token that an answer holds and how long it lasts, or its error.
pub fn dropbox_token(raw: RawToken) -> (r: Result<(String, u64), String>)
    ensures
        token_read(raw, r),
{
    match raw.access_token {
        Some(t) => Ok(
            (
                t,
                match raw.expires_in {
                    Some(n) => n,
                    None => 14400,
                },
            ),
        ),
        None => Err(
            match (raw.error_description, raw.error) {
                (Some(d), _) => d,
                (None, Some(s)) => s,
                (None, None) => string_from("token exchange failed"),
            },
        ),
    }
}

/// An error summary without the dots and slashes at its end.
pub fn tidy_summary(s: &str) -> (r: String)
    ensures
        r@ == trim_end_of(s@, '.', '/'),
{
    let v = chars_of(s);
    string_of(trim_end_chars_of(v.as_slice(), '.', '/'))
}

/// The summary of an error answer, if it has one.
pub open spec fn error_summary(json: Seq<char>) -> Option<Seq<char>> {
    match json_field(json, "error_summary"@) {
        Ok(Some(s)) => Some(trim_end_of(s, '.', '/')),
        _ => None,
    }
}

/// The summary of an error answer, if it has one.
pub fn dropbox_error_summary(json: &str) -> (r: Option<String>)
    ensures
        match r {
            Some(s) => error_summary(json@) == Some(s@),
            None => error_summary(json@) is None,
        },
{
    match json_text_field(json, "error_summary") {
        Ok(Some(s)) => Some(tidy_summary(s.as_str())),
        _ => None,
    }
}

/// What is said of an answer that is no success, given its summary.
pub open spec fn error_text(summary: Option<Seq<char>>, body: Seq<char>, status: nat) -> Seq<char> {
    match summary {
        Some(s) => s,
        None => if trim(body).len() == 0 {
            "Dropbox API error (HTTP "@ + decimal(status) + ")"@
        } else {
            "Dropbox API error (HTTP "@ + decimal(status) + "): "@ + trim(body)
        },
    }
}

/// What is said of an answer that is no success, given its summary.
pub fn error_message_with(summary: Option<String>, body: &str, status: u16) -> (r: String)
    ensures
        r@ == error_text(
            match summary {
                Some(s) => Some(s@),
                None => None,
            },
            body@,
            status as nat,
        ),
{
    match summary {
        Some(s) => s,
        None => {
            let t = trim_text(body);
            let n = decimal_text(status as u64);
            if t.as_str().is_empty() {
                concat3("Dropbox API error (HTTP ", n.as_str(), ")")
            } else {
                let mut r = concat3("Dropbox API error (HTTP ", n.as_str(), "): ");
                r.push_str(t.as_str());
                r
            }
        },
    }
}

/// What is said of an answer that is no success.
pub fn dropbox_error_message(body: &str, status: u16) -> (r: String)
    ensures
        r@ == error_text(error_summary(body@), body@, status as nat),
{
    error_message_with(dropbox_error_summary(body), body, status)
}

/// An answer of the API: its HTTP status and its body.
#[derive(Debug)]
pub struct CurlResult {
    pub status: u16,
    pub body: String,
}

/// The status that follows the last line break of what curl printed; 0 where
/// there is none.
pub open spec fn printed_status(out: Seq<char>) -> nat {
    let i = last_index(out, '\n');
    if i >= 0 {
        match parse_number(trim(out.skip(i + 1)), u16::MAX as nat) {
            Some(n) => n,
            None => 0,
        }
    } else {
        0
    }
}

/// Reads what curl printed: the body, and on a line of its own the status. No
/// status means that there was no answer; then what curl complained of is the
/// error.
pub open spec fn curl_read(
    stdout: Seq<char>,
    stderr: Seq<char>,
    r: Result<CurlResult, String>,
) -> bool {
    if printed_status(stdout) > 0 {
        &&& r matches Ok(c)
        &&& c.status == printed_status(stdout)
        &&& c.body@ == stdout.take(last_index(stdout, '\n'))
    } else {
        &&& r matches Err(e)
        &&& e@ == (if trim(stderr).len() == 0 {
            "curl request failed"@
        } else {
            trim(stderr)
        })
    }
}

/// Reads what curl printed: the body and the status, or what curl complained
/// of.
pub fn read_curl_output(stdout: &str, stderr: &str) -> (r: Result<CurlResult, String>)
    ensures
        curl_read(stdout@, stderr@, r),
{
    let v = chars_of(stdout);
    let n: usize = v.len();
    let mut status: u16 = 0;
    let mut body: Option<String> = None;
    match find_last(v.as_slice(), '\n') {
        Some(i) => {
            let line = slice_subrange(v.as_slice(), i + 1, n);
            assert(line@ =~= stdout@.skip(i + 1));
            match parse_number_chars(trim_chars(line), u16::MAX as u64) {
                Some(s) => {
                    status = s as u16;
                },
                None => {},
            }
            let head = slice_subrange(v.as_slice(), 0, i);
            assert(head@ =~= stdout@.take(i as int));
            body = Some(string_of(head));
        },
        None => {},
    }
    match body {
        Some(b) => {
            if status > 0 {
                return Ok(CurlResult { status, body: b });
            }
        },
        None => {},
    }
    let t = trim_text(stderr);
    Err(
        if t.as_str().is_empty() {
            string_from("curl request failed")
        } else {
            t
        },
    )
}

/// Whether a request with this HTTP status was answered as asked.
pub fn is_success(status: u16) -> (r: bool)
    ensures
        r == (200 <= status < 300),
{
    200 <= status && status < 300
}

/// The body of a successful answer, or what is said of any other.
pub open spec fn answered(result: CurlResult, r: Result<String, String>) -> bool {
    if 200 <= result.status < 300 {
        r == Ok::<String, String>(result.body)
    } else {
        &&& r matches Err(e)
        &&& e@ == error_text(error_summary(result.body@), result.body@, result.status as nat)
    }
}

/// The body of a successful answer, or what is said of any other.
pub fn rpc_result(result: CurlResult) -> (r: Result<String, String>)
    ensures
        answered(result, r),
{
    if is_success(result.status) {
        Ok(result.body)
    } else {
        Err(dropbox_error_message(result.body.as_str(), result.status))
    }
}

/// The message for a download that was refused. The answer was saved in place
/// of the file; `saved` is what was read back of it.
pub fn download_error(saved: Option<&str>, status: u16) -> (r: String)
    ensures
        ({
            let summary = match saved {
                Some(b) => error_summary(b@),
                None => None,
            };
            r@ == match summary {
                Some(t) => t,
                None => "download failed (HTTP "@ + decimal(status as nat) + ")"@,
            }
        }),
{
    let summary = match saved {
        Some(b) => dropbox_error_summary(b),
        None => None,
    };
    match summary {
        Some(t) => t,
        None => {
            let n = decimal_text(status as u64);
            concat3("download failed (HTTP ", n.as_str(), ")")
        },
    }
}

/// The message where the account is not set up.
pub const NO_CREDENTIALS: &'static str = "Dropbox credentials not configured in ~/.rho.yaml";

/// Whether metadata describe a folder: their `.tag` says so.
pub fn metadata_is_folder(json: &str) -> (r: Result<bool, String>)
    ensures
        match json_field(json@, ".tag"@) {
            Ok(t) => r == Ok::<bool, String>(t == Some("folder"@)),
            Err(e) => r matches Err(x) && x@ == e,
        },
{
    match json_text_field(json, ".tag") {
        Ok(Some(t)) => Ok(same_text(t.as_str(), "folder")),
        Ok(None) => Ok(false),
        Err(e) => Err(e),
    }
}

/// A folder that is there already counts as made.
pub open spec fn folder_made(r: Result<String, String>) -> Result<(), String> {
    match r {
        Ok(_) => Ok(()),
        Err(e) => if contains_text(e@, "conflict"@) {
            Ok(())
        } else {
            Err(e)
        },
    }
}

/// A folder that is there already counts as made.
pub fn create_folder_result(r: Result<String, String>) -> (q: Result<(), String>)
    ensures
        q == folder_made(r),
{
    match r {
        Ok(_) => Ok(()),
        Err(e) => if text_contains(e.as_str(), "conflict") {
            Ok(())
        } else {
            Err(e)
        },
    }
}

/// The request body `{"path":…,"recursive":false}`.
pub fn list_folder_body(api: &str) -> (r: String)
    ensures
        r@ == "{\"path\":"@ + json_quoted(api@) + ",\"recursive\":false}"@,
{
    let q = json_string(api);
    concat3("{\"path\":", q.as_str(), ",\"recursive\":false}")
}

/// The request body `{"cursor":…}`.
pub fn continue_body(cursor: &str) -> (r: String)
    ensures
        r@ == "{\"cursor\":"@ + json_quoted(cursor@) + "}"@,
{
    let q = json_string(cursor);
    concat3("{\"cursor\":", q.as_str(), "}")
}

/// The request body `{"path":…}`.
pub fn path_body(api: &str) -> (r: String)
    ensures
        r@ == path_json(api@),
{
    let q = json_string(api);
    concat3("{\"path\":", q.as_str(), "}")
}

/// The request body `{"path":…}`.
pub open spec fn path_json(api: Seq<char>) -> Seq<char> {
    "{\"path\":"@ + json_quoted(api) + "}"@
}

/// The request body `{"autorename":false,"path":…}`.
pub fn create_folder_body(api: &str) -> (r: String)
    ensures
        r@ == "{\"autorename\":false,\"path\":"@ + json_quoted(api@) + "}"@,
{
    let q = json_string(api);
    concat3("{\"autorename\":false,\"path\":", q.as_str(), "}")
}

/// The argument of an upload.
pub open spec fn upload_json(api: Seq<char>) -> Seq<char> {
    "{\"mode\":\"overwrite\",\"mute\":true,\"path\":"@ + json_quoted(api) + "}"@
}

/// The argument of an upload.
pub fn upload_arg(api: &str) -> (r: String)
    ensures
        r@ == upload_json(api@),
{
    let q = json_string(api);
    concat3("{\"mode\":\"overwrite\",\"mute\":true,\"path\":", q.as_str(), "}")
}

/// The request body `{"from_path":…,"to_path":…}`.
pub open spec fn transfer_json(from: Seq<char>, to: Seq<char>) -> Seq<char> {
    "{\"from_path\":"@ + json_quoted(from) + ",\"to_path\":"@ + json_quoted(to) + "}"@
}

/// The request body `{"from_path":…,"to_path":…}`.
pub fn transfer_body(from: &str, to: &str) -> (r: String)
    ensures
        r@ == transfer_json(from@, to@),
{
    let f = json_string(from);
    let t = json_string(to);
    let mut r = concat3("{\"from_path\":", f.as_str(), ",\"to_path\":");
    r.push_str(t.as_str());
    r.push_str("}");
    r
}

/// A listing that is fetched page by page.
pub struct Paging {
    /// The entries of the pages that have arrived.
    pub entries: Vec<Entry>,
    /// The cursor of the next page, if there is one.
    pub cursor: Option<String>,
}

impl Paging {
    /// The listing after its first page.
    pub fn start(page: DropboxListing) -> (r: Paging)
        ensures
            r.entries == page.entries,
            r.cursor == page.cursor,
    {
        Paging { entries: page.entries, cursor: page.cursor }
    }

    /// Takes up the next page.
    pub fn absorb(&mut self, page: DropboxListing)
        ensures
            final(self).entries@ == old(self).entries@ + page.entries@,
            final(self).cursor == page.cursor,
    {
        let mut more = page.entries;
        self.entries.append(&mut more);
        self.cursor = page.cursor;
    }

    /// The body of the request for the next page; none when all have arrived.
    pub fn next_body(&self) -> (r: Option<String>)
        ensures
            match self.cursor {
                Some(c) => r matches Some(b) && b@ == "{\"cursor\":"@ + json_quoted(c@) + "}"@,
                None => r is None,
            },
    {
        match &self.cursor {
            Some(c) => Some(continue_body(c.as_str())),
            None => None,
        }
    }
}

/// An access token with the time, in milliseconds, at which it expires.
pub struct CachedToken {
    pub token: String,
    pub expires_at: u64,
}

/// The cached token, where it lasts for more than another minute.
pub open spec fn usable(cache: Option<CachedToken>, now: u64) -> Option<String> {
    match cache {
        Some(c) => if c.expires_at > now + 60_000 {
            Some(c.token)
        } else {
            None
        },
        None => None,
    }
}

/// The cached token, where it lasts for more than another minute.
pub fn usable_token(cache: &Option<CachedToken>, now: u64) -> (r: Option<String>)
    ensures
        r == usable(*cache, now),
{
    match cache {
        Some(c) => if c.expires_at > now && c.expires_at - now > 60_000 {
            Some(c.token.clone())
        } else {
            None
        },
        None => None,
    }
}

/// When a token expires that lasts for `expires_in` seconds from now.
pub open spec fn expiry(expires_in: u64, now: u64) -> int {
    if now + expires_in * 1000 <= u64::MAX {
        now + expires_in * 1000
    } else {
        u64::MAX as int
    }
}

/// The token to be cached: it expires `expires_in` seconds from now.
pub fn cache_token(token: String, expires_in: u64, now: u64) -> (r: CachedToken)
    ensures
        r.token == token,
        r.expires_at == expiry(expires_in, now),
{
    let wide: u128 = now as u128 + expires_in as u128 * 1000;
    let expires_at: u64 = if wide <= u64::MAX as u128 {
        wide as u64
    } else {
        u64::MAX
    };
    CachedToken { token, expires_at }
}

/// A path that is written as the API does is kept; separators at its end and
/// the kind of its separators make no difference, and the root is empty.
pub proof fn api_paths_are_kept(p: Seq<char>)
    requires
        p.len() > 0,
        p[0] == '/',
        p.last() != '/',
        forall|i: int| 0 <= i < p.len() ==> #[trigger] p[i] != '\\',
    ensures
        api_path(p) == p,
        api_path(p + seq!['/']) == p,
        p[1] != '/' ==> api_path(p.skip(1)) == p,
        api_path(seq!['/']) == Seq::<char>::empty(),
        forall|name: Seq<char>| #[trigger] child_path(p, name) == p + seq!['/'] + name,
        forall|name: Seq<char>| #[trigger] child_path(seq![], name) == seq!['/'] + name,
{
    assert(forward_slashes(p) =~= p);
    let q = p + seq!['/'];
    assert(forward_slashes(q) =~= q);
    assert(q.drop_last() =~= p);
    let r = p.skip(1);
    assert(r.len() > 0);
    assert(forward_slashes(r) =~= r) by {
        assert forall|i: int| 0 <= i < r.len() implies r[i] != '\\' by {
            assert(p[i + 1] != '\\');
        }
    }
    assert(r.last() == p.last());
    assert(r[0] == p[1]);
    assert(seq!['/'] + r =~= p);
    let root = seq!['/'];
    assert(forward_slashes(root) =~= root);
    assert(root.drop_last() =~= seq![]);
    reveal_with_fuel(trim_end_of, 2);
    assert forall|name: Seq<char>| #[trigger] child_path(seq![], name) == seq!['/'] + name by {
        assert(child_path(seq![], name) =~= seq!['/'] + name);
    }
}

/// A page lists each of its folders and each of its files under its own name,
/// files with their size and time, in the order in which they come, and nothing
/// else. More is to come exactly where the answer says so. An error is handed on.
pub proof fn pages_list_files_and_folders(
    before: Seq<RawEntry>,
    x: RawEntry,
    after: Seq<RawEntry>,
    raw: RawListing,
    r: Result<DropboxListing, String>,
)
    requires
        page_read(raw, r),
        raw.entries@ == before + seq![x] + after,
    ensures
        raw.error_summary matches Some(e) ==> r == Err::<DropboxListing, String>(e),
        raw.error_summary is None ==> {
            let f = |x: RawEntry| raw_entry(x);
            &&& r matches Ok(l)
            &&& l.cursor is Some <==> raw.has_more && raw.cursor is Some
            &&& raw.has_more ==> l.cursor == raw.cursor
            &&& entry_views(l.entries@) == crate::filtering::mapped_some(before, f) + (if x.tag@
                == "folder"@ {
                seq![EntryView { name: x.name@, is_dir: true, size: None, modified: None }]
            } else if x.tag@ == "file"@ {
                seq![
                    EntryView {
                        name: x.name@,
                        is_dir: false,
                        size: match x.size {
                            Some(n) => Some(n as nat),
                            None => None,
                        },
                        modified: match x.server_modified {
                            Some(t) => time_of(rfc3339_instant(t@)),
                            None => None,
                        },
                    },
                ]
            } else {
                seq![]
            }) + crate::filtering::mapped_some(after, f)
        },
{
    let f = |x: RawEntry| raw_entry(x);
    crate::filtering::every_readable_item_is_read(before, x, after, f);
    reveal_strlit("folder");
    reveal_strlit("file");
    assert("folder"@.len() == 6 && "file"@.len() == 4);
}

/// A token that was given for some seconds is used from then on as long as more
/// than a minute of them is left, and not after.
pub proof fn tokens_are_used_until_they_run_out(c: CachedToken, expires_in: u64, then: u64, now: u64)
    requires
        c.expires_at == expiry(expires_in, then),
        then + expires_in * 1000 <= u64::MAX,
    ensures
        usable(Some(c), now) == (if now + 60_000 < then + expires_in * 1000 {
            Some(c.token)
        } else {
            None
        }),
        usable(None, now) is None,
{
}

/// An answer with a token gives that token, whatever else it holds; one without
/// is an error.
pub proof fn tokens_are_read(raw: RawToken, r: Result<(String, u64), String>)
    requires
        token_read(raw, r),
    ensures
        r is Ok <==> raw.access_token is Some,
        raw.access_token matches Some(t) ==> r->Ok_0.0 == t,
        raw.expires_in matches Some(n) ==> (r matches Ok(p) ==> p.1 == n),
        raw.expires_in is None ==> (r matches Ok(p) ==> p.1 == 4 * 60 * 60),
        raw.error_description matches Some(d) ==> (r matches Err(e) ==> e == d),
        raw.error_description is None && raw.error is Some ==> (r matches Err(e) ==> Some(e)
            == raw.error),
{
}

/// A failure to make a folder is one, unless it tells of a conflict.
pub proof fn only_conflicts_are_forgiven(e: String, pre: Seq<char>, post: Seq<char>)
    ensures
        folder_made(Err(e)) is Ok <==> contains_text(e@, "conflict"@),
        folder_made(Err(e)) is Err ==> folder_made(Err(e)) == Err::<(), String>(e),
        e@ == pre + "conflict"@ + post ==> folder_made(Err(e)) is Ok,
        forall|s: String| #[trigger] folder_made(Ok(s)) is Ok,
{
    if e@ == pre + "conflict"@ + post {
        let n = "conflict"@;
        assert(e@.subrange(pre.len() as int, pre.len() as int + n.len()) =~= n);
        assert(crate::text::occurs_at(e@, n, pre.len() as int));
    }
}

/// The status that is printed on the last line is the status of the answer, and
/// what stands above that line is its body.
pub proof fn answers_are_body_and_status(body: Seq<char>, status: nat)
    requires
        status <= u16::MAX,
    ensures
        printed_status(body + seq!['\n'] + decimal(status)) == status,
        (body + seq!['\n'] + decimal(status)).take(
            last_index(body + seq!['\n'] + decimal(status), '\n'),
        ) == body,
        !body.contains('\n') ==> printed_status(body) == 0,
{
    let d = decimal(status);
    let s = body + seq!['\n'] + d;
    crate::text::decimals_are_digits(status);
    assert forall|k: int| body.len() < k < s.len() implies s[k] != '\n' by {
        assert(crate::text::is_digit(d[k - body.len() - 1]));
    }
    crate::text::lemma_last_index_unique(s, '\n', body.len() as int);
    assert(s.skip(body.len() as int + 1) =~= d);
    assert(s.take(body.len() as int) =~= body);
    assert(crate::text::is_digit(d[0]));
    assert(crate::text::is_digit(d[d.len() - 1]));
    assert(d =~= Seq::<char>::empty() + d + Seq::<char>::empty());
    crate::text::trimming_takes_white_ends_only(seq![], d, seq![]);
    crate::text::numbers_are_read_back(status, u16::MAX as nat);
    if !body.contains('\n') {
        assert forall|k: int| 0 <= k < body.len() implies body[k] != '\n' by {
            assert(body.contains(body[k]));
        }
        crate::text::lemma_last_index_unique(body, '\n', -1);
    }
}

/// The requests name the paths that they are about, each under its own key.
pub proof fn requests_name_their_paths(a: Seq<char>, b: Seq<char>)
    ensures
        path_json(a) == "{\"path\":"@ + json_quoted(a) + "}"@,
        transfer_json(a, b) == "{\"from_path\":"@ + json_quoted(a) + ",\"to_path\":"@ + json_quoted(b)
            + "}"@,
        upload_json(a) == "{\"mode\":\"overwrite\",\"mute\":true,\"path\":"@ + json_quoted(a) + "}"@,
{
}

/// What a request gave back is the body that was printed above its status, where
/// that status is one of success; any other status is an error, and so is none.
pub proof fn answers_are_taken_whole(
    body: Seq<char>,
    status: nat,
    stderr: Seq<char>,
    c: Result<CurlResult, String>,
    r: Result<String, String>,
)
    requires
        0 < status <= u16::MAX,
        curl_read(body + seq!['\n'] + decimal(status), stderr, c),
        c is Ok ==> answered(c->Ok_0, r),
    ensures
        c matches Ok(x) && x.status == status && x.body@ == body,
        200 <= status < 300 ==> (r matches Ok(text) && text@ == body),
        status < 200 || status >= 300 ==> r is Err,
{
    answers_are_body_and_status(body, status);
}

} // verus!
