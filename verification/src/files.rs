//! unpkg-style serving of single files out of stored artifacts: which entry
//! a request names, finding it in a zip or tar.gz artifact, the size and
//! decompression limits (a tar.gz scan reads through a budgeted reader, so a
//! gzip bomb stops at the budget), and the content type and headers a file
//! is served with. Author-published markup and scripts
//! are never served as active content.

use vstd::prelude::*;
use crate::auth::{trim, trim_chars, trim_end, trim_start};
use crate::text::{chars_eq, chars_of, contains_str, contains_text, owned, parse_u64, parse_u64_spec};
use std::io::Read;

verus! {

/// Largest single file served out of an artifact, in bytes (25 MiB). Also
/// the allocation cap: archive headers declare sizes and are untrusted.
pub const MAX_SERVED_FILE_BYTES: u64 = 26214400;

/// Default aggregate cap on bytes inflated out of one artifact while
/// locating a single entry (512 MiB).
pub const DEFAULT_MAX_INFLATED_BYTES: u64 = 536870912;

/// Cache policy for served package files: content is sha-addressed and
/// immutable.
pub const IMMUTABLE_CACHE: &'static str = "public, max-age=31536000, immutable";

/// The top-level directory every artifact's files live under.
pub const ARCHIVE_ROOT: &'static str = "pkg";

/// Carried on the I/O error that stops a scan at the inflation budget, so
/// the stop can be told apart from a corrupt archive.
pub const INFLATION_BUDGET_MSG: &'static str = "zed: archive exceeded the decompression budget";

/// Why one file could not be extracted from an artifact.
#[derive(Debug)]
pub enum ExtractError {
    /// The entry is larger than [`MAX_SERVED_FILE_BYTES`] (declared or actual).
    TooLarge,
    /// The archive inflates past the decompression budget.
    InflationBudgetExceeded,
    /// The archive could not be read; the reader's message.
    Archive(String),
}

/// The inflation budget in force: the configured value when it is a
/// positive number, the default otherwise.
pub open spec fn inflation_budget_spec(configured: Option<Seq<char>>) -> u64 {
    match configured {
        Some(t) => match parse_u64_spec(t) {
            Some(v) => if v > 0 { v } else { DEFAULT_MAX_INFLATED_BYTES },
            None => DEFAULT_MAX_INFLATED_BYTES,
        },
        None => DEFAULT_MAX_INFLATED_BYTES,
    }
}

/// The inflation budget given the `ZED_MAX_INFLATED_BYTES` setting, if set.
pub fn max_inflated_bytes(configured: Option<&str>) -> (r: u64)
    ensures
        r == inflation_budget_spec(match configured { Some(t) => Some(t@), None => None }),
{
    match configured {
        Some(t) => {
            let cs = chars_of(t);
            match parse_u64(cs.as_slice()) {
                Some(v) => if v > 0 { v } else { DEFAULT_MAX_INFLATED_BYTES },
                None => DEFAULT_MAX_INFLATED_BYTES,
            }
        },
        None => DEFAULT_MAX_INFLATED_BYTES,
    }
}

/// The bytes a scan may inflate: one past the budget, so an archive of
/// exactly the budget still scans cleanly.
pub fn scan_allowance(budget: u64) -> (r: u64)
    ensures
        r == if budget == u64::MAX { u64::MAX } else { (budget + 1) as u64 },
{
    budget.saturating_add(1)
}

/// How much one read may take from the remaining allowance: nothing is left
/// to read when it is spent (`None`, the budget stop), otherwise as much of
/// the buffer as the allowance covers.
pub fn budget_read_len(remaining: u64, buf_len: usize) -> (r: Option<usize>)
    ensures
        remaining == 0 ==> r is None,
        remaining > 0 ==> r == Some(if (buf_len as int) < (remaining as int) { buf_len } else { remaining as usize }),
{
    if remaining == 0 {
        None
    } else if (buf_len as u64) < remaining {
        Some(buf_len)
    } else {
        Some(remaining as usize)
    }
}

/// The path of a package file inside its artifact.
pub open spec fn entry_path_spec(rel_path: Seq<char>) -> Seq<char> {
    ARCHIVE_ROOT@ + "/"@ + rel_path
}

/// Name the artifact entry of `pkg/<rel_path>`.
pub fn entry_path(rel_path: &str) -> (r: String)
    ensures
        r@ == entry_path_spec(rel_path@),
{
    let mut s = owned(ARCHIVE_ROOT);
    s.append("/");
    s.append(rel_path);
    s
}

/// Reject an entry whose declared size exceeds the single-file limit
/// before reading any of it.
pub fn check_declared_size(size: u64) -> (r: Result<(), ExtractError>)
    ensures
        size > MAX_SERVED_FILE_BYTES <==> (r matches Err(e) && e is TooLarge),
        size <= MAX_SERVED_FILE_BYTES <==> r is Ok,
{
    if size > MAX_SERVED_FILE_BYTES { Err(ExtractError::TooLarge) } else { Ok(()) }
}

/// How many bytes to read from an entry at most: one past the limit, so an
/// entry that lied about its size is caught.
pub fn read_cap() -> (r: u64)
    ensures
        r == MAX_SERVED_FILE_BYTES + 1,
{
    MAX_SERVED_FILE_BYTES + 1
}

/// Accept the bytes actually read from an entry only within the limit.
pub fn check_read_bytes(bytes: Vec<u8>) -> (r: Result<Vec<u8>, ExtractError>)
    ensures
        bytes@.len() > MAX_SERVED_FILE_BYTES ==> (r matches Err(e) && e is TooLarge),
        bytes@.len() <= MAX_SERVED_FILE_BYTES ==> (r matches Ok(b) && b@ == bytes@),
{
    if bytes.len() as u64 > MAX_SERVED_FILE_BYTES { Err(ExtractError::TooLarge) } else { Ok(bytes) }
}

/// Classify a failed archive read from the messages of its error chain: the
/// budget stop when any carries the budget sentinel, a corrupt archive
/// otherwise (with the outermost message).
pub fn classify_archive_error(messages: &[String]) -> (r: ExtractError)
    requires
        messages@.len() > 0,
    ensures
        (exists|i: int| 0 <= i < messages@.len() && contains_text(#[trigger] messages@[i]@, INFLATION_BUDGET_MSG@))
            ==> r is InflationBudgetExceeded,
        !(exists|i: int| 0 <= i < messages@.len() && contains_text(#[trigger] messages@[i]@, INFLATION_BUDGET_MSG@))
            ==> (r matches ExtractError::Archive(m) && m@ == messages@[0]@),
        classified(r, messages_view(messages@)),
{
    let ghost mv = messages_view(messages@);
    assert forall|j: int| 0 <= j < messages@.len() implies #[trigger] mv[j] == messages@[j]@ by {}

    let mut i: usize = 0;
    while i < messages.len()
        invariant
            i <= messages@.len(),
            mv == messages_view(messages@),
            forall|j: int| 0 <= j < i ==> !contains_text(#[trigger] messages@[j]@, INFLATION_BUDGET_MSG@),
        decreases messages.len() - i,
    {
        let cs = chars_of(messages[i].as_str());
        if contains_str(cs.as_slice(), INFLATION_BUDGET_MSG) {
            assert(mv[i as int] == messages@[i as int]@);
            return ExtractError::InflationBudgetExceeded;
        }
        i = i + 1;
    }
    proof {
        assert forall|j: int| 0 <= j < mv.len() implies !contains_text(#[trigger] mv[j], INFLATION_BUDGET_MSG@) by {
            assert(mv[j] == messages@[j]@);
        }
    }
    ExtractError::Archive(messages[0].clone())
}

/// The text after the last `.` of a path (the whole path when it has none).
pub open spec fn extension_of(s: Seq<char>) -> Seq<char>
    decreases s.len(),
{
    if s.len() == 0 {
        s
    } else if s.last() == '.' {
        Seq::empty()
    } else {
        extension_of(s.drop_last()).push(s.last())
    }
}

/// The raw content-type guess for a file extension.
pub open spec fn mime_of_extension(e: Seq<char>) -> Seq<char> {
    if e == "css"@ { "text/css; charset=utf-8"@ }
    else if e == "js"@ || e == "mjs"@ || e == "cjs"@ { "text/javascript; charset=utf-8"@ }
    else if e == "json"@ || e == "map"@ { "application/json"@ }
    else if e == "html"@ || e == "htm"@ { "text/html; charset=utf-8"@ }
    else if e == "svg"@ { "image/svg+xml"@ }
    else if e == "png"@ { "image/png"@ }
    else if e == "jpg"@ || e == "jpeg"@ { "image/jpeg"@ }
    else if e == "gif"@ { "image/gif"@ }
    else if e == "wasm"@ { "application/wasm"@ }
    else if e == "toml"@ { "application/toml"@ }
    else if e == "md"@ || e == "txt"@ { "text/plain; charset=utf-8"@ }
    else if e == "woff2"@ { "font/woff2"@ }
    else { "application/octet-stream"@ }
}

pub open spec fn mime_for_spec(path: Seq<char>) -> Seq<char> {
    mime_of_extension(extension_of(path))
}

/// The text after the last `.` of `q.ext`, for an extension with no
/// `.`, is the extension.
pub proof fn lemma_extension_after_last_dot(q: Seq<char>, ext: Seq<char>)
    requires
        forall|i: int| 0 <= i < ext.len() ==> #[trigger] ext[i] != '.',
    ensures
        extension_of(q + seq!['.'] + ext) == ext,
    decreases ext.len(),
{
    let s = q + seq!['.'] + ext;
    if ext.len() == 0 {
        assert(s.last() == '.');
    } else {
        let d = ext.drop_last();
        assert forall|i: int| 0 <= i < d.len() implies #[trigger] d[i] != '.' by {
            assert(d[i] == ext[i]);
        }
        lemma_extension_after_last_dot(q, d);
        assert(s.drop_last() =~= q + seq!['.'] + d);
        assert(s.last() == ext.last());
        assert(d.push(ext.last()) =~= ext);
    }
}

/// Files are typed by the table of extensions: a path ending in `.json`
/// (after whatever precedes the dot) is served as `application/json`, and
/// likewise for every other listed extension.
pub proof fn lemma_content_type_table(q: Seq<char>)
    ensures
        mime_for_spec(q + "."@ + "css"@) == "text/css; charset=utf-8"@,
        mime_for_spec(q + "."@ + "js"@) == "text/javascript; charset=utf-8"@,
        mime_for_spec(q + "."@ + "mjs"@) == "text/javascript; charset=utf-8"@,
        mime_for_spec(q + "."@ + "cjs"@) == "text/javascript; charset=utf-8"@,
        mime_for_spec(q + "."@ + "json"@) == "application/json"@,
        mime_for_spec(q + "."@ + "map"@) == "application/json"@,
        mime_for_spec(q + "."@ + "html"@) == "text/html; charset=utf-8"@,
        mime_for_spec(q + "."@ + "htm"@) == "text/html; charset=utf-8"@,
        mime_for_spec(q + "."@ + "svg"@) == "image/svg+xml"@,
        mime_for_spec(q + "."@ + "png"@) == "image/png"@,
        mime_for_spec(q + "."@ + "jpg"@) == "image/jpeg"@,
        mime_for_spec(q + "."@ + "jpeg"@) == "image/jpeg"@,
        mime_for_spec(q + "."@ + "gif"@) == "image/gif"@,
        mime_for_spec(q + "."@ + "wasm"@) == "application/wasm"@,
        mime_for_spec(q + "."@ + "toml"@) == "application/toml"@,
        mime_for_spec(q + "."@ + "md"@) == "text/plain; charset=utf-8"@,
        mime_for_spec(q + "."@ + "txt"@) == "text/plain; charset=utf-8"@,
        mime_for_spec(q + "."@ + "woff2"@) == "font/woff2"@,
{
    reveal_strlit("cjs");
    assert("cjs"@.len() == 3);
    assert("cjs"@[0] == 'c');
    assert("cjs"@[1] == 'j');
    assert("cjs"@[2] == 's');
    reveal_strlit("css");
    assert("css"@.len() == 3);
    assert("css"@[0] == 'c');
    assert("css"@[1] == 's');
    assert("css"@[2] == 's');
    reveal_strlit("gif");
    assert("gif"@.len() == 3);
    assert("gif"@[0] == 'g');
    assert("gif"@[1] == 'i');
    assert("gif"@[2] == 'f');
    reveal_strlit("htm");
    assert("htm"@.len() == 3);
    assert("htm"@[0] == 'h');
    assert("htm"@[1] == 't');
    assert("htm"@[2] == 'm');
    reveal_strlit("html");
    assert("html"@.len() == 4);
    assert("html"@[0] == 'h');
    assert("html"@[1] == 't');
    assert("html"@[2] == 'm');
    assert("html"@[3] == 'l');
    reveal_strlit("jpeg");
    assert("jpeg"@.len() == 4);
    assert("jpeg"@[0] == 'j');
    assert("jpeg"@[1] == 'p');
    assert("jpeg"@[2] == 'e');
    assert("jpeg"@[3] == 'g');
    reveal_strlit("jpg");
    assert("jpg"@.len() == 3);
    assert("jpg"@[0] == 'j');
    assert("jpg"@[1] == 'p');
    assert("jpg"@[2] == 'g');
    reveal_strlit("js");
    assert("js"@.len() == 2);
    assert("js"@[0] == 'j');
    assert("js"@[1] == 's');
    reveal_strlit("json");
    assert("json"@.len() == 4);
    assert("json"@[0] == 'j');
    assert("json"@[1] == 's');
    assert("json"@[2] == 'o');
    assert("json"@[3] == 'n');
    reveal_strlit("map");
    assert("map"@.len() == 3);
    assert("map"@[0] == 'm');
    assert("map"@[1] == 'a');
    assert("map"@[2] == 'p');
    reveal_strlit("md");
    assert("md"@.len() == 2);
    assert("md"@[0] == 'm');
    assert("md"@[1] == 'd');
    reveal_strlit("mjs");
    assert("mjs"@.len() == 3);
    assert("mjs"@[0] == 'm');
    assert("mjs"@[1] == 'j');
    assert("mjs"@[2] == 's');
    reveal_strlit("png");
    assert("png"@.len() == 3);
    assert("png"@[0] == 'p');
    assert("png"@[1] == 'n');
    assert("png"@[2] == 'g');
    reveal_strlit("svg");
    assert("svg"@.len() == 3);
    assert("svg"@[0] == 's');
    assert("svg"@[1] == 'v');
    assert("svg"@[2] == 'g');
    reveal_strlit("toml");
    assert("toml"@.len() == 4);
    assert("toml"@[0] == 't');
    assert("toml"@[1] == 'o');
    assert("toml"@[2] == 'm');
    assert("toml"@[3] == 'l');
    reveal_strlit("txt");
    assert("txt"@.len() == 3);
    assert("txt"@[0] == 't');
    assert("txt"@[1] == 'x');
    assert("txt"@[2] == 't');
    reveal_strlit("wasm");
    assert("wasm"@.len() == 4);
    assert("wasm"@[0] == 'w');
    assert("wasm"@[1] == 'a');
    assert("wasm"@[2] == 's');
    assert("wasm"@[3] == 'm');
    reveal_strlit("woff2");
    assert("woff2"@.len() == 5);
    assert("woff2"@[0] == 'w');
    assert("woff2"@[1] == 'o');
    assert("woff2"@[2] == 'f');
    assert("woff2"@[3] == 'f');
    assert("woff2"@[4] == '2');
    reveal_strlit(".");
    assert("."@ =~= seq!['.']);
    lemma_extension_after_last_dot(q, "cjs"@);
    assert(q + "."@ + "cjs"@ == q + seq!['.'] + "cjs"@);
    lemma_extension_after_last_dot(q, "css"@);
    assert(q + "."@ + "css"@ == q + seq!['.'] + "css"@);
    lemma_extension_after_last_dot(q, "gif"@);
    assert(q + "."@ + "gif"@ == q + seq!['.'] + "gif"@);
    lemma_extension_after_last_dot(q, "htm"@);
    assert(q + "."@ + "htm"@ == q + seq!['.'] + "htm"@);
    lemma_extension_after_last_dot(q, "html"@);
    assert(q + "."@ + "html"@ == q + seq!['.'] + "html"@);
    lemma_extension_after_last_dot(q, "jpeg"@);
    assert(q + "."@ + "jpeg"@ == q + seq!['.'] + "jpeg"@);
    lemma_extension_after_last_dot(q, "jpg"@);
    assert(q + "."@ + "jpg"@ == q + seq!['.'] + "jpg"@);
    lemma_extension_after_last_dot(q, "js"@);
    assert(q + "."@ + "js"@ == q + seq!['.'] + "js"@);
    lemma_extension_after_last_dot(q, "json"@);
    assert(q + "."@ + "json"@ == q + seq!['.'] + "json"@);
    lemma_extension_after_last_dot(q, "map"@);
    assert(q + "."@ + "map"@ == q + seq!['.'] + "map"@);
    lemma_extension_after_last_dot(q, "md"@);
    assert(q + "."@ + "md"@ == q + seq!['.'] + "md"@);
    lemma_extension_after_last_dot(q, "mjs"@);
    assert(q + "."@ + "mjs"@ == q + seq!['.'] + "mjs"@);
    lemma_extension_after_last_dot(q, "png"@);
    assert(q + "."@ + "png"@ == q + seq!['.'] + "png"@);
    lemma_extension_after_last_dot(q, "svg"@);
    assert(q + "."@ + "svg"@ == q + seq!['.'] + "svg"@);
    lemma_extension_after_last_dot(q, "toml"@);
    assert(q + "."@ + "toml"@ == q + seq!['.'] + "toml"@);
    lemma_extension_after_last_dot(q, "txt"@);
    assert(q + "."@ + "txt"@ == q + seq!['.'] + "txt"@);
    lemma_extension_after_last_dot(q, "wasm"@);
    assert(q + "."@ + "wasm"@ == q + seq!['.'] + "wasm"@);
    lemma_extension_after_last_dot(q, "woff2"@);
    assert(q + "."@ + "woff2"@ == q + seq!['.'] + "woff2"@);
}

fn extension_chars(p: &[char]) -> (r: Vec<char>)
    ensures
        r@ == extension_of(p@),
{
    let n = p.len();
    let mut start: usize = n;
    assert(p@.subrange(0, n as int) =~= p@);
    assert(p@.subrange(n as int, n as int) =~= Seq::<char>::empty());
    assert(extension_of(p@) =~= extension_of(p@.subrange(0, n as int)) + p@.subrange(n as int, n as int));
    while start > 0 && p[start - 1] != '.'
        invariant
            n == p@.len(),
            start <= n,
            extension_of(p@) == extension_of(p@.subrange(0, start as int)) + p@.subrange(start as int, n as int),
        decreases start,
    {
        proof {
            let pre = p@.subrange(0, start as int);
            assert(pre.drop_last() =~= p@.subrange(0, start - 1));
            assert(pre.last() == p@[start - 1]);
            assert(extension_of(pre) == extension_of(p@.subrange(0, start - 1)).push(p@[start - 1]));
            assert(extension_of(p@.subrange(0, start - 1)).push(p@[start - 1]) + p@.subrange(start as int, n as int)
                =~= extension_of(p@.subrange(0, start - 1)) + p@.subrange(start - 1, n as int));
        }
        start = start - 1;
    }
    proof {
        let pre = p@.subrange(0, start as int);
        if start > 0 {
            assert(pre.last() == '.');
        }
        assert(extension_of(pre) =~= Seq::<char>::empty());
        assert(extension_of(p@) =~= p@.subrange(start as int, n as int));
        assert(p@.subrange(0, n as int) =~= p@);
    }
    crate::text::sub_chars(p, start, n)
}

/// Best-effort content-type guess from a file extension. This is the raw
/// guess; files are served through [`served_mime`].
pub fn mime_for(path: &str) -> (r: &'static str)
    ensures
        r@ == mime_for_spec(path@),
{
    let pc = chars_of(path);
    let ec = extension_chars(pc.as_slice());
    let e = ec.as_slice();
    if chars_eq(e, "css") { "text/css; charset=utf-8" }
    else if chars_eq(e, "js") || chars_eq(e, "mjs") || chars_eq(e, "cjs") { "text/javascript; charset=utf-8" }
    else if chars_eq(e, "json") || chars_eq(e, "map") { "application/json" }
    else if chars_eq(e, "html") || chars_eq(e, "htm") { "text/html; charset=utf-8" }
    else if chars_eq(e, "svg") { "image/svg+xml" }
    else if chars_eq(e, "png") { "image/png" }
    else if chars_eq(e, "jpg") || chars_eq(e, "jpeg") { "image/jpeg" }
    else if chars_eq(e, "gif") { "image/gif" }
    else if chars_eq(e, "wasm") { "application/wasm" }
    else if chars_eq(e, "toml") { "application/toml" }
    else if chars_eq(e, "md") || chars_eq(e, "txt") { "text/plain; charset=utf-8" }
    else if chars_eq(e, "woff2") { "font/woff2" }
    else { "application/octet-stream" }
}

/// The text before the first `;` (the whole text when it has none).
pub open spec fn before_semicolon(s: Seq<char>) -> Seq<char>
    decreases s.len(),
{
    if s.len() == 0 {
        s
    } else if s[0] == ';' {
        Seq::empty()
    } else {
        seq![s[0]] + before_semicolon(s.drop_first())
    }
}

/// Whether a content type is executed by a browser in the page's origin:
/// HTML, SVG, XHTML, or anything JavaScript.
pub open spec fn is_active_spec(mime: Seq<char>) -> bool {
    let base = trim(before_semicolon(mime));
    base == "text/html"@ || base == "image/svg+xml"@ || base == "application/xhtml+xml"@
        || contains_text(base, "javascript"@)
}

fn before_semicolon_chars(m: &[char]) -> (r: Vec<char>)
    ensures
        r@ == before_semicolon(m@),
{
    let n = m.len();
    let mut i: usize = 0;
    assert(m@.subrange(0, n as int) =~= m@);
    assert(m@.subrange(0, 0) =~= Seq::<char>::empty());
    assert(before_semicolon(m@) =~= m@.subrange(0, 0) + before_semicolon(m@.subrange(0, n as int)));
    while i < n && m[i] != ';'
        invariant
            n == m@.len(),
            i <= n,
            forall|j: int| 0 <= j < i ==> m@[j] != ';',
            before_semicolon(m@) == m@.subrange(0, i as int) + before_semicolon(m@.subrange(i as int, n as int)),
        decreases n - i,
    {
        proof {
            let rest = m@.subrange(i as int, n as int);
            assert(rest.drop_first() =~= m@.subrange(i + 1, n as int));
            assert(rest[0] == m@[i as int]);
            assert(m@.subrange(0, i as int) + seq![m@[i as int]] =~= m@.subrange(0, i + 1));
        }
        i = i + 1;
    }
    proof {
        assert(m@.subrange(0, 0) + before_semicolon(m@.subrange(0, n as int)) =~= before_semicolon(m@)) by {
            assert(m@.subrange(0, n as int) =~= m@);
        }
        let rest = m@.subrange(i as int, n as int);
        assert(before_semicolon(rest) =~= Seq::<char>::empty());
    }
    crate::text::sub_chars(m, 0, i)
}

/// Whether a content type is active content (see [`is_active_spec`]).
pub fn is_active_content(mime: &str) -> (r: bool)
    ensures
        r == is_active_spec(mime@),
{
    let mc = chars_of(mime);
    let head = before_semicolon_chars(mc.as_slice());
    let base = trim_chars(head.as_slice());
    let b = base.as_slice();
    chars_eq(b, "text/html") || chars_eq(b, "image/svg+xml") || chars_eq(b, "application/xhtml+xml")
        || contains_str(b, "javascript")
}

/// The content type a package file is served with: the raw guess, except
/// that active content is downgraded to plain text.
pub open spec fn served_mime_spec(path: Seq<char>) -> Seq<char> {
    if is_active_spec(mime_for_spec(path)) { "text/plain; charset=utf-8"@ } else { mime_for_spec(path) }
}

/// The content type a single package file is served with.
pub fn served_mime(path: &str) -> (r: &'static str)
    ensures
        r@ == served_mime_spec(path@),
{
    let guessed = mime_for(path);
    if is_active_content(guessed) { "text/plain; charset=utf-8" } else { guessed }
}

/// The response headers for every served package file: the neutralized
/// content type, immutable caching, inline disposition, and a `sandbox`
/// content-security policy. Header names are in lowercase wire form.
pub fn served_file_headers(path: &str) -> (r: [(&'static str, &'static str); 4])
    ensures
        r[0].0@ == "content-type"@ && r[0].1@ == served_mime_spec(path@),
        r[1].0@ == "cache-control"@ && r[1].1@ == IMMUTABLE_CACHE@,
        r[2].0@ == "content-disposition"@ && r[2].1@ == "inline"@,
        r[3].0@ == "content-security-policy"@ && r[3].1@ == "sandbox"@,
{
    [
        ("content-type", served_mime(path)),
        ("cache-control", IMMUTABLE_CACHE),
        ("content-disposition", "inline"),
        ("content-security-policy", "sandbox"),
    ]
}

/// Plain text is not active content.
proof fn lemma_plain_text_is_inert()
    ensures
        !is_active_spec("text/plain; charset=utf-8"@),
{
    reveal_strlit("text/plain; charset=utf-8");
    reveal_strlit("text/plain");
    reveal_strlit("text/html");
    reveal_strlit("image/svg+xml");
    reveal_strlit("application/xhtml+xml");
    reveal_strlit("javascript");
    let full = "text/plain; charset=utf-8"@;
    let base = "text/plain"@;
    assert(before_semicolon(full.subrange(10, full.len() as int)) =~= Seq::<char>::empty());
    assert forall|k: int| 0 <= k <= 10 implies #[trigger] before_semicolon(full.subrange(k, full.len() as int))
        =~= base.subrange(k, 10) by {
        lemma_before_semicolon_suffix(full, base, k);
    }
    assert(full.subrange(0, full.len() as int) =~= full);
    assert(before_semicolon(full) =~= base);
    assert(trim_start(base) =~= base);
    assert(trim_end(base) =~= base);
    assert(trim(base) =~= base);
    assert(base != "text/html"@);
    assert(base != "image/svg+xml"@);
    assert(base != "application/xhtml+xml"@);
    assert forall|i: int| !crate::text::occurs_at(base, "javascript"@, i) by {
        if crate::text::occurs_at(base, "javascript"@, i) {
            assert(i == 0);
            assert(base.subrange(0, 10)[0] == 't');
        }
    }
}

proof fn lemma_before_semicolon_suffix(full: Seq<char>, base: Seq<char>, k: int)
    requires
        full == "text/plain; charset=utf-8"@,
        base == "text/plain"@,
        full.len() == 25,
        base.len() == 10,
        forall|j: int| 0 <= j < 10 ==> full[j] == base[j] && full[j] != ';',
        full[10] == ';',
        0 <= k <= 10,
    ensures
        before_semicolon(full.subrange(k, full.len() as int)) =~= base.subrange(k, 10),
    decreases 10 - k,
{
    let rest = full.subrange(k, full.len() as int);
    if k == 10 {
        assert(rest[0] == ';');
    } else {
        lemma_before_semicolon_suffix(full, base, k + 1);
        assert(rest.drop_first() =~= full.subrange(k + 1, full.len() as int));
        assert(rest[0] == base[k]);
        assert(seq![base[k]] + base.subrange(k + 1, 10) =~= base.subrange(k, 10));
    }
}

/// Author-published files are never served as active content: whatever the
/// path, the served content type is inert.
pub proof fn lemma_served_type_is_inert(path: Seq<char>)
    ensures
        !is_active_spec(served_mime_spec(path)),
{
    lemma_plain_text_is_inert();
}


/// Whether `e` is how a failed archive read with the error-chain messages
/// `ms` is classified (see `classify_archive_error`).
pub open spec fn classified(e: ExtractError, ms: Seq<Seq<char>>) -> bool {
    if exists|i: int| 0 <= i < ms.len() && contains_text(#[trigger] ms[i], INFLATION_BUDGET_MSG@) {
        e is InflationBudgetExceeded
    } else {
        e matches ExtractError::Archive(m) && m@ == ms[0]
    }
}

/// The texts of a list of messages.
pub open spec fn messages_view(ms: Seq<String>) -> Seq<Seq<char>> {
    ms.map_values(|m: String| m@)
}

/// What `zip` reports for the entry `name` of a zip archive: its declared
/// size, `None` when the archive has no such entry, or the messages of the
/// error chain when the archive cannot be read.
pub uninterp spec fn zip_entry_size_spec(archive: Seq<u8>, name: Seq<char>) -> Result<Option<u64>, Seq<Seq<char>>>;

/// What `zip` reads of the entry `name` of a zip archive, at most `cap`
/// bytes, or the messages of the error chain when the read fails.
pub uninterp spec fn zip_entry_bytes_spec(archive: Seq<u8>, name: Seq<char>, cap: u64) -> Result<Seq<u8>, Seq<Seq<char>>>;

pub open spec fn size_lookup_view(r: Result<Option<u64>, Vec<String>>) -> Result<Option<u64>, Seq<Seq<char>>> {
    match r {
        Ok(n) => Ok(n),
        Err(ms) => Err(messages_view(ms@)),
    }
}

pub open spec fn bytes_read_view(r: Result<Vec<u8>, Vec<String>>) -> Result<Seq<u8>, Seq<Seq<char>>> {
    match r {
        Ok(b) => Ok(b@),
        Err(ms) => Err(messages_view(ms@)),
    }
}

/// A failed read reports at least one message; a read gives at most `cap`
/// bytes.
pub open spec fn read_within(r: Result<Vec<u8>, Vec<String>>, cap: u64) -> bool {
    match r {
        Ok(b) => b@.len() <= cap,
        Err(ms) => ms@.len() > 0,
    }
}

pub open spec fn lookup_reports(r: Result<Option<u64>, Vec<String>>) -> bool {
    match r {
        Ok(_) => true,
        Err(ms) => ms@.len() > 0,
    }
}

/// Calls `zip::ZipArchive::new` on the bytes and `by_name(name)`, and takes
/// the entry's `size()`; `ZipError::FileNotFound` becomes `Ok(None)`, any
/// other error the messages of its `source()` chain, outermost first. The
/// contract names the outcome and states that an error carries a message.
#[verifier::external_body]
fn zip_entry_size(archive: &[u8], name: &str) -> (r: Result<Option<u64>, Vec<String>>)
    ensures
        size_lookup_view(r) == zip_entry_size_spec(archive@, name@),
        lookup_reports(r),
{
    match zip::ZipArchive::new(std::io::Cursor::new(archive)).and_then(|mut z| z.by_name(name).map(|f| f.size())) {
        Ok(n) => Ok(Some(n)),
        Err(zip::result::ZipError::FileNotFound) => Ok(None),
        Err(e) => Err(std::iter::successors(Some(&e as &(dyn std::error::Error + 'static)), |c| c.source())
            .map(|c| c.to_string()).collect()),
    }
}

/// Opens the archive with `zip::ZipArchive::new`, finds the entry with
/// `by_name` and copies at most `cap` bytes of it (`Read::take`, then
/// `std::io::copy`); an error becomes the messages of its `source()` chain.
/// The contract names the outcome and states the cap, which `take` enforces.
#[verifier::external_body]
fn zip_entry_bytes(archive: &[u8], name: &str, cap: u64) -> (r: Result<Vec<u8>, Vec<String>>)
    ensures
        bytes_read_view(r) == zip_entry_bytes_spec(archive@, name@, cap),
        read_within(r, cap),
{
    let mut buf: Vec<u8> = Vec::new();
    let read = zip::ZipArchive::new(std::io::Cursor::new(archive)).map_err(std::io::Error::from)
        .and_then(|mut z| std::io::copy(&mut z.by_name(name)?.take(cap), &mut buf));
    match read {
        Ok(_) => Ok(buf),
        Err(e) => Err(std::iter::successors(Some(&e as &(dyn std::error::Error + 'static)), |c| c.source())
            .map(|c| c.to_string()).collect()),
    }
}

/// What extracting `pkg/<rel_path>` from a zip artifact gives (see
/// `extract_zip_file`).
pub open spec fn zip_extract_ok(archive: Seq<u8>, rel_path: Seq<char>, r: Result<Option<Vec<u8>>, ExtractError>) -> bool {
    match zip_entry_size_spec(archive, entry_path_spec(rel_path)) {
        Err(ms) => r matches Err(e) && classified(e, ms),
        Ok(None) => r matches Ok(None),
        Ok(Some(n)) => if n > MAX_SERVED_FILE_BYTES {
            r matches Err(e) && e is TooLarge
        } else {
            match zip_entry_bytes_spec(archive, entry_path_spec(rel_path), (MAX_SERVED_FILE_BYTES + 1) as u64) {
                Err(ms) => r matches Err(e) && classified(e, ms),
                Ok(b) => if b.len() > MAX_SERVED_FILE_BYTES {
                    r matches Err(e) && e is TooLarge
                } else {
                    r matches Ok(Some(v)) && v@ == b
                },
            }
        },
    }
}

/// Find `pkg/<rel_path>` in a zip artifact: `None` when it has no such
/// entry; refused as too large when its declared size, or the bytes actually
/// read (at most one past the limit), exceed the single-file limit; an
/// unreadable archive is classified by its error messages.
pub fn extract_zip_file(archive: &[u8], rel_path: &str) -> (r: Result<Option<Vec<u8>>, ExtractError>)
    ensures
        zip_extract_ok(archive@, rel_path@, r),
{
    let want = entry_path(rel_path);
    match zip_entry_size(archive, want.as_str()) {
        Err(ms) => {
            assert(messages_view(ms@).len() == ms@.len());
            Err(classify_archive_error(ms.as_slice()))
        },
        Ok(None) => Ok(None),
        Ok(Some(n)) => {
            match check_declared_size(n) {
                Err(e) => Err(e),
                Ok(()) => match zip_entry_bytes(archive, want.as_str(), read_cap()) {
                    Err(ms) => Err(classify_archive_error(ms.as_slice())),
                    Ok(bytes) => match check_read_bytes(bytes) {
                        Err(e) => Err(e),
                        Ok(b) => Ok(Some(b)),
                    },
                },
            }
        },
    }
}


/// Declares `flate2`'s gzip decoder, which a scan reads inflated bytes from.
#[verifier::external_type_specification]
#[verifier::external_body]
#[verifier::reject_recursive_types(R)]
pub struct ExGzDecoder<R>(flate2::read::GzDecoder<R>);

/// Declares std's I/O error, which a budget stop is reported as.
#[verifier::external_type_specification]
#[verifier::external_body]
pub struct ExIoError(std::io::Error);

/// An inflating reader over a gzip stream that hands out at most
/// `remaining` bytes in all; a read once it is spent fails with the
/// budget sentinel [`INFLATION_BUDGET_MSG`].
pub struct BudgetReader<'a> {
    inner: flate2::read::GzDecoder<&'a [u8]>,
    remaining: u64,
}

/// A read hands out at most what it was asked for.
pub open spec fn read_at_most(r: Result<usize, std::io::Error>, want: usize) -> bool {
    r matches Ok(n) ==> n <= want
}

/// Calls `std::io::Read::read` on the gzip decoder with the first `want`
/// bytes of `buf`; the contract states what `Read::read` documents: the
/// count it returns is at most the length of the buffer it was given.
#[verifier::external_body]
fn gz_read(inner: &mut flate2::read::GzDecoder<&[u8]>, buf: &mut [u8], want: usize) -> (r: Result<usize, std::io::Error>)
    requires
        want <= old(buf)@.len(),
    ensures
        read_at_most(r, want),
{
    inner.read(&mut buf[..want])
}

/// Calls `std::io::Error::new` with `ErrorKind::InvalidData` and `message`.
#[verifier::external_body]
fn invalid_data(message: &str) -> (r: std::io::Error) {
    std::io::Error::new(std::io::ErrorKind::InvalidData, message.to_owned())
}

impl<'a> BudgetReader<'a> {
    /// The bytes the reader may still hand out.
    pub closed spec fn allowance(&self) -> u64 {
        self.remaining
    }

    /// One read: refused with the budget sentinel once the allowance is
    /// spent; otherwise at most as many bytes as both the buffer and the
    /// allowance hold, each taken off the allowance.
    pub fn read_budgeted(&mut self, buf: &mut [u8]) -> (r: Result<usize, std::io::Error>)
        ensures
            old(self).allowance() == 0 ==> r is Err,
            r matches Ok(n) ==> n <= old(self).allowance() && n <= old(buf)@.len()
                && final(self).allowance() == old(self).allowance() - n,
    {
        match budget_read_len(self.remaining, buf.len()) {
            None => Err(invalid_data(INFLATION_BUDGET_MSG)),
            Some(want) => match gz_read(&mut self.inner, buf, want) {
                Ok(n) => {
                    self.remaining = self.remaining - n as u64;
                    Ok(n)
                },
                Err(e) => Err(e),
            },
        }
    }
}

impl<'a> std::io::Read for BudgetReader<'a> {
    fn read(&mut self, buf: &mut [u8]) -> std::io::Result<usize> {
        self.read_budgeted(buf)
    }
}

/// The entries `tar` lists when scanning a gzip-compressed tarball through
/// a [`BudgetReader`] with the given allowance: each entry's path (lossily
/// decoded) and declared size, in archive order, and the messages of the
/// error chain when the scan stopped on an error (the budget stop among
/// them) rather than at the end of the archive.
pub uninterp spec fn tar_gz_listing_spec(archive: Seq<u8>, allowance: u64) -> (
    Seq<(Seq<char>, u64)>,
    Option<Seq<Seq<char>>>,
);

/// What `tar` reads, through a fresh [`BudgetReader`] with the given
/// allowance, of the entry at position `index` of a gzip-compressed
/// tarball: at most `cap` bytes of it, `None` when the scan ends before that
/// position, or the messages of the error chain.
pub uninterp spec fn tar_gz_entry_bytes_spec(archive: Seq<u8>, index: usize, allowance: u64, cap: u64) -> Result<
    Option<Seq<u8>>,
    Seq<Seq<char>>,
>;

pub open spec fn listing_view(r: (Vec<(String, u64)>, Option<Vec<String>>)) -> (
    Seq<(Seq<char>, u64)>,
    Option<Seq<Seq<char>>>,
) {
    (
        r.0@.map_values(|e: (String, u64)| (e.0@, e.1)),
        match r.1 {
            Some(ms) => Some(messages_view(ms@)),
            None => None,
        },
    )
}

/// A scan stopped on an error reports at least one message.
pub open spec fn listing_reports(r: (Vec<(String, u64)>, Option<Vec<String>>)) -> bool {
    r.1 matches Some(ms) ==> ms@.len() > 0
}

pub open spec fn entry_read_view(r: Result<Option<Vec<u8>>, Vec<String>>) -> Result<Option<Seq<u8>>, Seq<Seq<char>>> {
    match r {
        Ok(Some(b)) => Ok(Some(b@)),
        Ok(None) => Ok(None),
        Err(ms) => Err(messages_view(ms@)),
    }
}

/// A failed read reports at least one message; a read gives at most `cap`
/// bytes.
pub open spec fn entry_read_within(r: Result<Option<Vec<u8>>, Vec<String>>, cap: u64) -> bool {
    match r {
        Ok(Some(b)) => b@.len() <= cap,
        Ok(None) => true,
        Err(ms) => ms@.len() > 0,
    }
}

/// Runs `tar::Archive::entries` over `flate2::read::GzDecoder` through a
/// [`BudgetReader`] with `allowance`, and records each entry's `path()`
/// (lossily decoded) and `size()` until the iterator ends or fails; an error
/// becomes the messages of its `source()` chain. The contract names the
/// outcome and states that an error carries a message.
#[verifier::external_body]
fn tar_gz_listing(archive: &[u8], allowance: u64) -> (r: (Vec<(String, u64)>, Option<Vec<String>>))
    ensures
        listing_view(r) == tar_gz_listing_spec(archive@, allowance),
        listing_reports(r),
{
    let mut listed: Vec<(String, u64)> = Vec::new();
    let mut tar = tar::Archive::new(BudgetReader { inner: flate2::read::GzDecoder::new(archive), remaining: allowance });
    let scan = tar.entries().and_then(|entries| {
        for entry in entries {
            let entry = entry?;
            listed.push((entry.path()?.to_string_lossy().into_owned(), entry.size()));
        }
        Ok(())
    });
    (listed, scan.err().map(|e| std::iter::successors(Some(&e as &(dyn std::error::Error + 'static)), |c| c.source())
        .map(|c| c.to_string()).collect()))
}

/// Runs `tar::Archive::entries` over `flate2::read::GzDecoder` through a
/// fresh [`BudgetReader`] with `allowance`, takes the entry at `index`
/// (`Iterator::nth`) and copies at most `cap` bytes of it (`Read::take`,
/// `std::io::copy`); an error becomes the messages of its `source()` chain.
/// The contract names the outcome and states the cap, which `take` enforces.
#[verifier::external_body]
fn tar_gz_entry_bytes(archive: &[u8], index: usize, allowance: u64, cap: u64) -> (r: Result<Option<Vec<u8>>, Vec<String>>)
    ensures
        entry_read_view(r) == tar_gz_entry_bytes_spec(archive@, index, allowance, cap),
        entry_read_within(r, cap),
{
    let mut tar = tar::Archive::new(BudgetReader { inner: flate2::read::GzDecoder::new(archive), remaining: allowance });
    let read = tar.entries().and_then(|mut entries| entries.nth(index).map(|entry| {
        let mut buf: Vec<u8> = Vec::new();
        std::io::copy(&mut entry?.take(cap), &mut buf).map(|_| buf)
    }).transpose());
    read.map_err(|e| std::iter::successors(Some(&e as &(dyn std::error::Error + 'static)), |c| c.source())
        .map(|c| c.to_string()).collect())
}

/// The position of the first listed entry named `name`.
pub open spec fn first_named(listed: Seq<(Seq<char>, u64)>, name: Seq<char>) -> Option<int> {
    if exists|i: int| 0 <= i < listed.len() && listed[i].0 == name {
        Some(choose|i: int| 0 <= i < listed.len() && listed[i].0 == name
            && forall|j: int| 0 <= j < i ==> listed[j].0 != name)
    } else {
        None
    }
}

/// What extracting `name` from a tar.gz artifact gives, with the scan
/// allowance `allowance` and the read cap `cap`: the first entry with that
/// path, refused when its declared size or the bytes read exceed the
/// single-file limit; a miss when the scan ends without it; a classified
/// error when the scan or the read stops on one first.
pub open spec fn tar_gz_extract_ok(archive: Seq<u8>, name: Seq<char>, allowance: u64, cap: u64,
    r: Result<Option<Vec<u8>>, ExtractError>) -> bool
{
    let (listed, stopped) = tar_gz_listing_spec(archive, allowance);
    match first_named(listed, name) {
        None => match stopped {
            Some(ms) => r matches Err(e) && classified(e, ms),
            None => r matches Ok(None),
        },
        Some(i) => if listed[i].1 > MAX_SERVED_FILE_BYTES {
            r matches Err(e) && e is TooLarge
        } else {
            match tar_gz_entry_bytes_spec(archive, i as usize, allowance, cap) {
                Err(ms) => r matches Err(e) && classified(e, ms),
                Ok(None) => r matches Ok(None),
                Ok(Some(b)) => if b.len() > MAX_SERVED_FILE_BYTES {
                    r matches Err(e) && e is TooLarge
                } else {
                    r matches Ok(Some(v)) && v@ == b
                },
            }
        },
    }
}

/// Find `pkg/<rel_path>` in a tar.gz artifact, inflating at most one byte
/// past `budget` while scanning (so an archive of exactly the budget still
/// scans cleanly, and a gzip bomb is stopped at it).
pub fn extract_tar_gz_file(archive: &[u8], rel_path: &str, budget: u64) -> (r: Result<Option<Vec<u8>>, ExtractError>)
    ensures
        tar_gz_extract_ok(archive@, entry_path_spec(rel_path@),
            if budget == u64::MAX { u64::MAX } else { (budget + 1) as u64 }, (MAX_SERVED_FILE_BYTES + 1) as u64, r),
{
    let want = entry_path(rel_path);
    let allowance = scan_allowance(budget);
    let (listed, stopped) = tar_gz_listing(archive, allowance);
    let ghost lv = listing_view((listed, stopped)).0;
    let mut i: usize = 0;
    let mut found = false;
    while i < listed.len() && !found
        invariant
            i <= listed@.len(),
            lv == listed@.map_values(|e: (String, u64)| (e.0@, e.1)),
            found ==> i < listed@.len() && lv[i as int].0 == want@,
            forall|j: int| 0 <= j < i ==> lv[j].0 != want@,
        decreases listed.len() - i + (if found { 0int } else { 1int }),
    {
        assert(lv[i as int] == (listed@[i as int].0@, listed@[i as int].1));
        if crate::text::str_eq(listed[i].0.as_str(), want.as_str()) {
            found = true;
        } else {
            i = i + 1;
        }
    }
    if !found {
        assert(first_named(lv, want@) is None);
        match stopped {
            Some(ms) => Err(classify_archive_error(ms.as_slice())),
            None => Ok(None),
        }
    } else {
        assert(lv[i as int].0 == want@);
        assert(first_named(lv, want@) == Some(i as int)) by {
            let k = choose|k: int| 0 <= k < lv.len() && lv[k].0 == want@
                && forall|j: int| 0 <= j < k ==> lv[j].0 != want@;
            assert(lv[k].0 == want@);
            if k < i {
            } else if k > i {
                assert(lv[i as int].0 != want@);
            }
        }
        match check_declared_size(listed[i].1) {
            Err(e) => Err(e),
            Ok(()) => match tar_gz_entry_bytes(archive, i, allowance, read_cap()) {
                Err(ms) => Err(classify_archive_error(ms.as_slice())),
                Ok(None) => Ok(None),
                Ok(Some(bytes)) => match check_read_bytes(bytes) {
                    Err(e) => Err(e),
                    Ok(b) => Ok(Some(b)),
                },
            },
        }
    }
}

/// Find `pkg/<rel_path>` inside a stored artifact; `budget` bounds the bytes
/// inflated while scanning a tar.gz.
pub fn extract_file(archive: &[u8], format: crate::publish::ArtifactFormat, rel_path: &str, budget: u64) -> (r:
    Result<Option<Vec<u8>>, ExtractError>)
    ensures
        format == crate::publish::ArtifactFormat::TarGz ==> tar_gz_extract_ok(archive@, entry_path_spec(rel_path@),
            if budget == u64::MAX { u64::MAX } else { (budget + 1) as u64 }, (MAX_SERVED_FILE_BYTES + 1) as u64, r),
        format == crate::publish::ArtifactFormat::Zip ==> zip_extract_ok(archive@, rel_path@, r),
{
    match format {
        crate::publish::ArtifactFormat::TarGz => extract_tar_gz_file(archive, rel_path, budget),
        crate::publish::ArtifactFormat::Zip => extract_zip_file(archive, rel_path),
    }
}

} // verus!
