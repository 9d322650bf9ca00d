//! The tools' decision logic: the workspace boundary, the memory filename
//! rules, allowlists, media types and result composition. File, process and
//! network effects happen in the caller; every rule lives here.

use vstd::prelude::*;

use crate::config::PythonConfig;
use crate::gateway::{Attachment, ChannelContext};
use crate::text::{chars_eq, chars_to_string, contains_seq, is_space, str_chars};

verus! {

/// The result of one tool execution.
#[derive(Debug, Clone)]
pub struct ToolResult {
    pub output: String,
    pub is_error: bool,
}

impl ToolResult {
    /// A successful result.
    pub fn success(output: String) -> (r: Self)
        ensures
            r.output == output,
            !r.is_error,
    {
        ToolResult { output, is_error: false }
    }

    /// An error result.
    pub fn error(output: String) -> (r: Self)
        ensures
            r.output == output,
            r.is_error,
    {
        ToolResult { output, is_error: true }
    }
}

/// The context every tool sees: the workspace root (the security boundary),
/// the shared working directory, the attachment queue and the originating
/// channel.
pub struct ToolContext {
    pub workspace: String,
    pub cwd: String,
    pub pending_attachments: Vec<Attachment>,
    pub channel: Option<ChannelContext>,
}

// ---------------------------------------------------------------------------
// The workspace boundary
// ---------------------------------------------------------------------------
/// True when a canonical path lies within the canonical workspace: it is the
/// workspace itself, or extends it at a component boundary.
pub open spec fn within_workspace(path: Seq<char>, ws: Seq<char>) -> bool {
    path == ws || (path.len() > ws.len() && path.take(ws.len() as int) == ws && path[ws.len() as int]
        == '/')
}

/// Decide the workspace boundary for a canonical path.
pub fn path_within_workspace(canonical: &str, workspace_canonical: &str) -> (r: bool)
    ensures
        r == within_workspace(canonical@, workspace_canonical@),
{
    let p = str_chars(canonical);
    let w = str_chars(workspace_canonical);
    if chars_eq(&p, &w) {
        return true;
    }
    if p.len() <= w.len() {
        return false;
    }
    let mut k: usize = 0;
    while k < w.len()
        invariant
            p@ == canonical@,
            w@ == workspace_canonical@,
            w@.len() < p@.len(),
            0 <= k <= w@.len(),
            forall|i: int| 0 <= i < k ==> p@[i] == w@[i],
        decreases w@.len() - k,
    {
        if p[k] != w[k] {
            proof {
                assert(p@.take(w@.len() as int)[k as int] != w@[k as int]);
            }
            return false;
        }
        k += 1;
    }
    proof {
        assert(p@.take(w@.len() as int) =~= w@);
    }
    p[w.len()] == '/'
}

/// The error text for a path that escapes the workspace.
pub fn outside_workspace_error() -> (r: String)
    ensures
        r@ == "Path is outside workspace boundary"@,
{
    "Path is outside workspace boundary".to_owned()
}

// ---------------------------------------------------------------------------
// Memory filenames
// ---------------------------------------------------------------------------
/// True for filenames the memory tools accept: no parent references and no
/// path separators.
pub open spec fn valid_memory_filename(s: Seq<char>) -> bool {
    &&& !contains_seq(s, seq!['.', '.'])
    &&& forall|i: int| 0 <= i < s.len() ==> s[i] != '/' && (#[trigger] s[i]) != '\\'
}

/// Check a memory filename.
pub fn check_memory_filename(file: &str) -> (r: bool)
    ensures
        r == valid_memory_filename(file@),
{
    let cs = str_chars(file);
    let mut dd: Vec<char> = Vec::new();
    dd.push('.');
    dd.push('.');
    assert(dd@ =~= seq!['.', '.']);
    match crate::text::find_first(&cs, &dd) {
        Some(_) => {
            return false;
        },
        None => {},
    }
    let mut k: usize = 0;
    while k < cs.len()
        invariant
            cs@ == file@,
            0 <= k <= cs@.len(),
            forall|i: int| 0 <= i < k ==> cs@[i] != '/' && (#[trigger] cs@[i]) != '\\',
            !contains_seq(cs@, seq!['.', '.']),
        decreases cs@.len() - k,
    {
        if cs[k] == '/' || cs[k] == '\\' {
            return false;
        }
        k += 1;
    }
    true
}

/// The error text for an invalid memory filename.
pub fn invalid_filename_error() -> (r: String)
    ensures
        r@ == "Invalid filename: must not contain path separators or '..'"@,
{
    "Invalid filename: must not contain path separators or '..'".to_owned()
}

/// Replace the first occurrence of `old_text` in a memory file's content;
/// `None` when it does not occur.
pub fn memory_replace_apply(content: &str, old_text: &str, new_text: &str) -> (r: Option<String>)
    ensures
        match r {
            Some(out) => contains_seq(content@, old_text@) && (crate::text::first_match(
                content@,
                old_text@,
            ) matches Some(i) && out@ == content@.take(i) + new_text@ + content@.skip(
                i + old_text@.len(),
            )),
            None => !contains_seq(content@, old_text@),
        },
{
    let c = str_chars(content);
    let o = str_chars(old_text);
    let n = str_chars(new_text);
    match crate::text::replace_first(&c, &o, &n) {
        Some(out) => Some(chars_to_string(&out)),
        None => None,
    }
}

// ---------------------------------------------------------------------------
// Memory search
// ---------------------------------------------------------------------------
/// The case fold of a text: the lowercase form an outside routine computes,
/// a function of the characters alone.
pub uninterp spec fn lower_of(s: Seq<char>) -> Seq<char>;

/// Relies on `str::to_lowercase`: the lowercase form of the text, a function
/// of its characters alone; an empty string stays empty.
#[verifier::external_body]
pub fn to_lowercase(s: &str) -> (r: String)
    ensures
        r@ == lower_of(s@),
        s@.len() == 0 ==> r@.len() == 0,
{
    s.to_lowercase()
}

/// True when `s` contains `pat`.
fn contains_chars(s: &Vec<char>, pat: &Vec<char>) -> (r: bool)
    ensures
        r == contains_seq(s@, pat@),
{
    match crate::text::find_first(s, pat) {
        Some(_) => true,
        None => false,
    }
}

/// The indices of the lines whose case-folded text contains the folded
/// query, in order.
pub open spec fn match_indices(lines: Seq<Seq<char>>, q: Seq<char>) -> Seq<int>
    decreases lines.len(),
{
    if lines.len() == 0 {
        Seq::empty()
    } else {
        match_indices(lines.drop_last(), q) + (if contains_seq(lower_of(lines.last()), q) {
            seq![lines.len() - 1]
        } else {
            Seq::empty()
        })
    }
}

/// The texts of a list of lines.
pub open spec fn line_views(ls: Seq<String>) -> Seq<Seq<char>> {
    ls.map_values(|l: String| l@)
}

/// How many results a cap leaves of a list of match indices.
pub open spec fn capped_len(idx: Seq<int>, max: nat) -> int {
    if idx.len() <= max {
        idx.len() as int
    } else {
        max as int
    }
}

/// Search lines for a case-insensitive literal occurrence of the folded
/// query: the matching lines in order, capped at `max`, each with its
/// zero-based line number and its text unchanged.
pub fn search_lines(lines: &Vec<String>, folded_query: &String, max: usize) -> (r: Vec<
    (usize, String),
>)
    ensures
        r@.len() == capped_len(match_indices(line_views(lines@), folded_query@), max as nat),
        forall|t: int|
            0 <= t < r@.len() ==> (#[trigger] r@[t]).0 as int == match_indices(
                line_views(lines@),
                folded_query@,
            )[t],
        forall|t: int|
            0 <= t < r@.len() ==> (#[trigger] r@[t]).0 < lines@.len() && r@[t].1@
                == lines@[r@[t].0 as int]@,
{
    let ghost lv = line_views(lines@);
    let q = str_chars(folded_query.as_str());
    let mut out: Vec<(usize, String)> = Vec::new();
    let mut k: usize = 0;
    proof {
        assert(lv.take(0) =~= Seq::<Seq<char>>::empty());
    }
    while k < lines.len()
        invariant
            0 <= k <= lines@.len(),
            lv == line_views(lines@),
            q@ == folded_query@,
            out@.len() == capped_len(match_indices(lv.take(k as int), folded_query@), max as nat),
            forall|t: int|
                0 <= t < out@.len() ==> (#[trigger] out@[t]).0 as int == match_indices(
                    lv.take(k as int),
                    folded_query@,
                )[t],
            forall|t: int|
                0 <= t < out@.len() ==> (#[trigger] out@[t]).0 < lines@.len() && out@[t].1@
                    == lines@[out@[t].0 as int]@,
        decreases lines@.len() - k,
    {
        let ghost idx0 = match_indices(lv.take(k as int), folded_query@);
        let ghost out0 = out@;
        if out.len() < max {
            let folded = to_lowercase(lines[k].as_str());
            let fc = str_chars(folded.as_str());
            if contains_chars(&fc, &q) {
                let line = lines[k].clone();
                out.push((k, line));
            }
            proof {
                assert(fc@ == lower_of(lines@[k as int]@));
            }
        }
        proof {
            assert(lv.take(k + 1).drop_last() =~= lv.take(k as int));
            assert(lv.take(k + 1).last() == lv[k as int]);
            assert(lv[k as int] == lines@[k as int]@);
            let idx1 = match_indices(lv.take(k + 1), folded_query@);
            if contains_seq(lower_of(lines@[k as int]@), folded_query@) {
                assert(idx1 =~= idx0 + seq![k as int]);
                assert(forall|t: int| 0 <= t < idx0.len() ==> idx1[t] == idx0[t]);
                assert(idx1[idx0.len() as int] == k as int);
            } else {
                assert(idx1 =~= idx0);
            }
            assert(forall|t: int| 0 <= t < out0.len() ==> out@[t] == out0[t]);
        }
        k += 1;
    }
    proof {
        assert(lv.take(lines@.len() as int) =~= lv);
    }
    out
}

// ---------------------------------------------------------------------------
// Allowlists
// ---------------------------------------------------------------------------
/// The characters before the first whitespace, after leading whitespace.
pub open spec fn first_word(s: Seq<char>) -> Seq<char> {
    until_space(skip_spaces(s))
}

/// Drop leading whitespace.
pub open spec fn skip_spaces(s: Seq<char>) -> Seq<char>
    decreases s.len(),
{
    if s.len() > 0 && is_space(s[0]) {
        skip_spaces(s.skip(1))
    } else {
        s
    }
}

/// Take until the first whitespace.
pub open spec fn until_space(s: Seq<char>) -> Seq<char>
    decreases s.len(),
{
    if s.len() > 0 && !is_space(s[0]) {
        seq![s[0]] + until_space(s.skip(1))
    } else {
        Seq::empty()
    }
}

/// The first whitespace-delimited word of a command line.
pub fn command_name(command: &str) -> (r: Vec<char>)
    ensures
        r@ == first_word(command@),
{
    let cs = str_chars(command);
    assert(cs@.skip(0) =~= cs@);
    let mut a: usize = 0;
    while a < cs.len() && (cs[a] == ' ' || cs[a] == '\t' || cs[a] == '\n' || cs[a] == '\r')
        invariant
            cs@ == command@,
            0 <= a <= cs@.len(),
            skip_spaces(cs@) == skip_spaces(cs@.skip(a as int)),
        decreases cs@.len() - a,
    {
        proof {
            assert(cs@.skip(a as int).skip(1) =~= cs@.skip(a + 1));
        }
        a += 1;
    }
    proof {
        assert(skip_spaces(cs@.skip(a as int)) =~= cs@.skip(a as int));
    }
    let mut out: Vec<char> = Vec::new();
    let mut b: usize = a;
    while b < cs.len() && !(cs[b] == ' ' || cs[b] == '\t' || cs[b] == '\n' || cs[b] == '\r')
        invariant
            cs@ == command@,
            0 <= a <= b <= cs@.len(),
            skip_spaces(cs@) == cs@.skip(a as int),
            out@ + until_space(cs@.skip(b as int)) == until_space(cs@.skip(a as int)),
        decreases cs@.len() - b,
    {
        let ghost o0 = out@;
        out.push(cs[b]);
        proof {
            assert(cs@.skip(b as int).skip(1) =~= cs@.skip(b + 1));
            assert(cs@.skip(b as int)[0] == cs@[b as int]);
            assert(out@ + until_space(cs@.skip(b + 1)) =~= o0 + until_space(cs@.skip(b as int)));
        }
        b += 1;
    }
    proof {
        assert(until_space(cs@.skip(b as int)) =~= Seq::<char>::empty());
        assert(out@ =~= out@ + until_space(cs@.skip(b as int)));
    }
    out
}

/// An empty allowlist allows everything; otherwise the command's first word
/// must be listed.
pub open spec fn spec_command_allowed(allowlist: Seq<String>, command: Seq<char>) -> bool {
    allowlist.len() == 0 || exists|i: int|
        0 <= i < allowlist.len() && (#[trigger] allowlist[i])@ == first_word(command)
}

/// Decide the exec allowlist.
pub fn command_allowed(allowlist: &Vec<String>, command: &str) -> (r: bool)
    ensures
        r == spec_command_allowed(allowlist@, command@),
{
    if allowlist.len() == 0 {
        return true;
    }
    let name = command_name(command);
    let mut k: usize = 0;
    while k < allowlist.len()
        invariant
            name@ == first_word(command@),
            0 <= k <= allowlist@.len(),
            forall|i: int| 0 <= i < k ==> (#[trigger] allowlist@[i])@ != first_word(command@),
        decreases allowlist@.len() - k,
    {
        let a = str_chars(allowlist[k].as_str());
        if chars_eq(&a, &name) {
            return true;
        }
        k += 1;
    }
    false
}

/// True when the host ends with the allowed domain suffix.
pub open spec fn ends_with(h: Seq<char>, d: Seq<char>) -> bool {
    h.len() >= d.len() && h.skip(h.len() - d.len()) == d
}

/// An empty allowlist allows every domain; otherwise the host must end with
/// one of the listed suffixes.
pub open spec fn spec_domain_allowed(allowed: Seq<String>, host: Seq<char>) -> bool {
    allowed.len() == 0 || exists|i: int|
        0 <= i < allowed.len() && ends_with(host, (#[trigger] allowed[i])@)
}

fn ends_with_exec(h: &Vec<char>, d: &Vec<char>) -> (r: bool)
    ensures
        r == ends_with(h@, d@),
{
    if h.len() < d.len() {
        return false;
    }
    let n = h.len();
    let off = n - d.len();
    let mut k: usize = 0;
    while k < d.len()
        invariant
            d@.len() <= n == h@.len(),
            off == h@.len() - d@.len(),
            0 <= k <= d@.len(),
            forall|i: int| 0 <= i < k ==> h@[off + i] == d@[i],
        decreases d@.len() - k,
    {
        if h[off + k] != d[k] {
            proof {
                assert(h@.skip(off as int)[k as int] != d@[k as int]);
            }
            return false;
        }
        k += 1;
    }
    proof {
        assert(h@.skip(off as int) =~= d@);
    }
    true
}

/// Decide the HTTP domain allowlist.
pub fn domain_allowed(allowed: &Vec<String>, host: &str) -> (r: bool)
    ensures
        r == spec_domain_allowed(allowed@, host@),
{
    if allowed.len() == 0 {
        return true;
    }
    let h = str_chars(host);
    let mut k: usize = 0;
    while k < allowed.len()
        invariant
            h@ == host@,
            0 <= k <= allowed@.len(),
            forall|i: int| 0 <= i < k ==> !ends_with(host@, (#[trigger] allowed@[i])@),
        decreases allowed@.len() - k,
    {
        let d = str_chars(allowed[k].as_str());
        if ends_with_exec(&h, &d) {
            return true;
        }
        k += 1;
    }
    false
}

/// Relies on `url::Url::parse` and `url::Url::host_str`: the host part of a
/// URL, when it parses and has one.
#[verifier::external_body]
pub fn url_host(raw: &str) -> (r: Option<String>) {
    url::Url::parse(raw).ok().and_then(|u| u.host_str().map(|s| s.to_string()))
}

// ---------------------------------------------------------------------------
// Media types
// ---------------------------------------------------------------------------
/// The media type for a lowercase file extension, if known.
pub open spec fn spec_mime(e: Seq<char>) -> Option<Seq<char>> {
    if e == "png"@ { Some("image/png"@) }
    else if e == "jpg"@ || e == "jpeg"@ { Some("image/jpeg"@) }
    else if e == "gif"@ { Some("image/gif"@) }
    else if e == "webp"@ { Some("image/webp"@) }
    else if e == "svg"@ { Some("image/svg+xml"@) }
    else if e == "bmp"@ { Some("image/bmp"@) }
    else if e == "mp3"@ { Some("audio/mpeg"@) }
    else if e == "ogg"@ || e == "oga"@ { Some("audio/ogg"@) }
    else if e == "wav"@ { Some("audio/wav"@) }
    else if e == "flac"@ { Some("audio/flac"@) }
    else if e == "mp4"@ { Some("video/mp4"@) }
    else if e == "webm"@ { Some("video/webm"@) }
    else if e == "avi"@ { Some("video/x-msvideo"@) }
    else if e == "mkv"@ { Some("video/x-matroska"@) }
    else if e == "pdf"@ { Some("application/pdf"@) }
    else if e == "zip"@ { Some("application/zip"@) }
    else if e == "tar"@ { Some("application/x-tar"@) }
    else if e == "gz"@ { Some("application/gzip"@) }
    else if e == "json"@ { Some("application/json"@) }
    else if e == "csv"@ { Some("text/csv"@) }
    else if e == "txt"@ { Some("text/plain"@) }
    else if e == "html"@ || e == "htm"@ { Some("text/html"@) }
    else if e == "xml"@ { Some("application/xml"@) }
    else if e == "doc"@ { Some("application/msword"@) }
    else if e == "docx"@ {
        Some("application/vnd.openxmlformats-officedocument.wordprocessingml.document"@)
    }
    else { None }
}

fn ext_is(e: &Vec<char>, lit: &str) -> (r: bool)
    ensures
        r == (e@ == lit@),
{
    let l = str_chars(lit);
    chars_eq(e, &l)
}

/// The media type guessed from a lowercase file extension.
pub fn guess_mime(ext: &str) -> (r: Option<&'static str>)
    ensures
        match r {
            Some(m) => spec_mime(ext@) == Some(m@),
            None => spec_mime(ext@) is None,
        },
{
    let e = str_chars(ext);
    if ext_is(&e, "png") { Some("image/png") }
    else if ext_is(&e, "jpg") || ext_is(&e, "jpeg") { Some("image/jpeg") }
    else if ext_is(&e, "gif") { Some("image/gif") }
    else if ext_is(&e, "webp") { Some("image/webp") }
    else if ext_is(&e, "svg") { Some("image/svg+xml") }
    else if ext_is(&e, "bmp") { Some("image/bmp") }
    else if ext_is(&e, "mp3") { Some("audio/mpeg") }
    else if ext_is(&e, "ogg") || ext_is(&e, "oga") { Some("audio/ogg") }
    else if ext_is(&e, "wav") { Some("audio/wav") }
    else if ext_is(&e, "flac") { Some("audio/flac") }
    else if ext_is(&e, "mp4") { Some("video/mp4") }
    else if ext_is(&e, "webm") { Some("video/webm") }
    else if ext_is(&e, "avi") { Some("video/x-msvideo") }
    else if ext_is(&e, "mkv") { Some("video/x-matroska") }
    else if ext_is(&e, "pdf") { Some("application/pdf") }
    else if ext_is(&e, "zip") { Some("application/zip") }
    else if ext_is(&e, "tar") { Some("application/x-tar") }
    else if ext_is(&e, "gz") { Some("application/gzip") }
    else if ext_is(&e, "json") { Some("application/json") }
    else if ext_is(&e, "csv") { Some("text/csv") }
    else if ext_is(&e, "txt") { Some("text/plain") }
    else if ext_is(&e, "html") || ext_is(&e, "htm") { Some("text/html") }
    else if ext_is(&e, "xml") { Some("application/xml") }
    else if ext_is(&e, "doc") { Some("application/msword") }
    else if ext_is(&e, "docx") {
        Some("application/vnd.openxmlformats-officedocument.wordprocessingml.document")
    }
    else { None }
}

/// The fallback media type when no extension matches.
pub fn default_mime() -> (r: &'static str)
    ensures
        r@ == "application/octet-stream"@,
{
    "application/octet-stream"
}

// ---------------------------------------------------------------------------
// Tool handles
// ---------------------------------------------------------------------------
/// Reads a file within the workspace.
pub struct ReadFileTool {
    pub workspace: String,
}

impl ReadFileTool {
    /// A reader rooted at the workspace.
    pub fn new(workspace: String) -> (r: Self)
        ensures
            r.workspace == workspace,
    {
        ReadFileTool { workspace }
    }
}

/// Writes a file within the workspace.
pub struct WriteFileTool {
    pub workspace: String,
}

impl WriteFileTool {
    /// A writer rooted at the workspace.
    pub fn new(workspace: String) -> (r: Self)
        ensures
            r.workspace == workspace,
    {
        WriteFileTool { workspace }
    }
}

/// Lists a directory within the workspace.
pub struct ListFilesTool;

/// Runs a shell command, backgrounding it past the yield budget.
pub struct ExecTool {
    pub allowlist: Vec<String>,
    pub timeout_secs: u64,
}

impl ExecTool {
    /// An exec tool with its allowlist and default timeout.
    pub fn new(allowlist: Vec<String>, timeout_secs: u64) -> (r: Self)
        ensures
            r.allowlist == allowlist,
            r.timeout_secs == timeout_secs,
    {
        ExecTool { allowlist, timeout_secs }
    }
}

/// Manages backgrounded commands.
pub struct ProcessTool;

/// Makes an outbound HTTP request, limited to allowed domains.
pub struct HttpRequestTool {
    pub allowed_domains: Vec<String>,
}

impl HttpRequestTool {
    /// An HTTP tool with its domain allowlist.
    pub fn new(allowed_domains: Vec<String>) -> (r: Self)
        ensures
            r.allowed_domains == allowed_domains,
    {
        HttpRequestTool { allowed_domains }
    }
}

/// Changes the shared working directory, within the workspace.
pub struct CdTool;

/// Writes or appends to a memory file.
pub struct MemoryFlushTool;

/// Replaces text in a memory file.
pub struct MemoryReplaceTool;

/// Searches the memory files.
pub struct MemorySearchTool;

/// Queues a file as a media attachment.
pub struct SendFileTool;

/// Manages scheduled jobs.
pub struct CronManageTool;

/// Runs a sandboxed script.
pub struct RunPythonTool {
    pub config: PythonConfig,
    pub http_allowed_domains: Vec<String>,
}

impl RunPythonTool {
    /// A script tool with its limits and the HTTP domain allowlist its
    /// outcalls obey.
    pub fn new(config: PythonConfig, http_allowed_domains: Vec<String>) -> (r: Self)
        ensures
            r.http_allowed_domains == http_allowed_domains,
    {
        RunPythonTool { config, http_allowed_domains }
    }
}

} // verus!
