//! The downloader's decisions: where files come from, how a share code is
//! read from a redirect, how responses are judged, and when to fall back to
//! the mirror.

use crate::consolidate::{ends_with_text, starts_with_text};
use crate::model::VersionInfo;
use vstd::prelude::*;
use vstd::string::*;

verus! {

/// The mirror's file endpoint; files are addressed by share code and name.
pub const FILE_API: &'static str = "https://file.izakaya.cc/api/public/dl";

/// Redirects to a URL whose last path segment is the current share code.
pub const REDIRECT_URL: &'static str = "https://url.izakaya.cc/getMetaMystia";

/// The version metadata endpoint.
pub const VERSION_API: &'static str = "https://api.izakaya.cc/version/meta-mystia";

/// The framework vendor's build server.
pub const BEPINEX_PRIMARY: &'static str = "https://builds.bepinex.dev/projects/bepinex_be";

/// The plugin's latest release on GitHub.
pub const GITHUB_API_URL: &'static str = "https://api.github.com/repos/MetaMikuAI/MetaMystia/releases/latest";

/// The mirror's bandwidth cap, in bytes per second.
pub const RATE_LIMIT: u64 = 131072;

/// Connect timeout for every request, in seconds.
pub const CONNECT_TIMEOUT_SECS: u64 = 5;

/// At most this many characters of an unparsable response are shown.
pub const SNIPPET_CHARS: usize = 200;

/// `FILE_API/share_code/filename`
pub fn file_api_url(share_code: &str, filename: &str) -> (r: String)
    ensures
        r@ == FILE_API@ + "/"@ + share_code@ + "/"@ + filename@,
{
    let mut r = String::from_str(FILE_API);
    r.append("/");
    r.append(share_code);
    r.append("/");
    r.append(filename);
    r
}

/// `BEPINEX_PRIMARY/version/filename`
pub fn bepinex_primary_url(version: &str, filename: &str) -> (r: String)
    ensures
        r@ == BEPINEX_PRIMARY@ + "/"@ + version@ + "/"@ + filename@,
{
    let mut r = String::from_str(BEPINEX_PRIMARY);
    r.append("/");
    r.append(version);
    r.append("/");
    r.append(filename);
    r
}

// ------------------------------------------------------------- share codes

/// `s` without trailing `/` characters.
pub open spec fn strip_slashes(s: Seq<char>) -> Seq<char>
    decreases s.len(),
{
    if s.len() > 0 && s.last() == '/' {
        strip_slashes(s.drop_last())
    } else {
        s
    }
}

/// The index just after the last `/` of `s`, or 0.
pub open spec fn segment_start(s: Seq<char>) -> int
    decreases s.len(),
{
    if s.len() == 0 {
        0
    } else if s.last() == '/' {
        s.len() as int
    } else {
        segment_start(s.drop_last())
    }
}

/// The length of the part of `s` before the first `?` or `#`.
pub open spec fn query_start(s: Seq<char>) -> int
    decreases s.len(),
{
    if s.len() == 0 {
        0
    } else if s[0] == '?' || s[0] == '#' {
        0
    } else {
        1 + query_start(s.drop_first())
    }
}

/// The last path segment of `url`, without a query or fragment.
pub open spec fn last_segment(url: Seq<char>) -> Seq<char> {
    let t = strip_slashes(url);
    let seg = t.skip(segment_start(t));
    seg.take(query_start(seg))
}

proof fn lemma_segment_start_bounds(s: Seq<char>)
    ensures
        0 <= segment_start(s) <= s.len(),
    decreases s.len(),
{
    if s.len() > 0 && s.last() != '/' {
        lemma_segment_start_bounds(s.drop_last());
    }
}

proof fn lemma_query_start_bounds(s: Seq<char>)
    ensures
        0 <= query_start(s) <= s.len(),
    decreases s.len(),
{
    if s.len() > 0 && s[0] != '?' && s[0] != '#' {
        lemma_query_start_bounds(s.drop_first());
    }
}

/// Reads the share code from the URL a redirect ended at: its last path
/// segment, without query or fragment. `None` when that segment is empty.
pub fn parse_share_code_from_url(url: &str) -> (r: Option<String>)
    ensures
        r is None <==> last_segment(url@).len() == 0,
        r is Some ==> r->Some_0@ == last_segment(url@),
{
    let ghost u = url@;
    let mut end = url.unicode_len();
    assert(u.take(end as int) =~= u);
    while end > 0 && url.get_char(end - 1) == '/'
        invariant
            end <= u.len(),
            u == url@,
            strip_slashes(u) == strip_slashes(u.take(end as int)),
        decreases end,
    {
        assert(u.take(end as int).drop_last() =~= u.take(end - 1));
        end = end - 1;
    }
    let ghost t = u.take(end as int);
    assert(strip_slashes(t) == t);
    let mut start = end;
    assert(t.take(start as int) =~= t);
    while start > 0 && url.get_char(start - 1) != '/'
        invariant
            start <= end,
            end <= u.len(),
            u == url@,
            t == u.take(end as int),
            segment_start(t) == segment_start(t.take(start as int)),
        decreases start,
    {
        assert(t.take(start as int).drop_last() =~= t.take(start - 1));
        start = start - 1;
    }
    proof {
        lemma_segment_start_bounds(t.take(start as int));
        if start > 0 {
            assert(t.take(start as int).last() == '/');
        }
        assert(segment_start(t.take(start as int)) == start);
    }
    let ghost seg = t.skip(start as int);
    let mut stop = start;
    assert(seg =~= u.subrange(start as int, end as int));
    while stop < end && url.get_char(stop) != '?' && url.get_char(stop) != '#'
        invariant
            start <= stop <= end,
            end <= u.len(),
            u == url@,
            seg == u.subrange(start as int, end as int),
            query_start(seg) == (stop - start) + query_start(u.subrange(stop as int, end as int)),
        decreases end - stop,
    {
        assert(u.subrange(stop as int, end as int).drop_first() =~= u.subrange(stop + 1, end as int));
        stop = stop + 1;
    }
    proof {
        lemma_query_start_bounds(seg);
        assert(query_start(u.subrange(stop as int, end as int)) == 0);
        assert(seg.take(query_start(seg)) =~= u.subrange(start as int, stop as int));
    }
    if stop == start {
        None
    } else {
        Some(String::from_str(url.substring_char(start, stop)))
    }
}

// ---------------------------------------------------------- percent encoding

/// What `percent_encoding::utf8_percent_encode` with `NON_ALPHANUMERIC` makes
/// of a text.
pub uninterp spec fn percent_encoded(s: Seq<char>) -> Seq<char>;

pub open spec fn is_ascii_alnum(c: char) -> bool {
    ('0' <= c && c <= '9') || ('A' <= c && c <= 'Z') || ('a' <= c && c <= 'z')
}

pub open spec fn hex_digit(d: nat) -> char {
    if d < 10 { (('0' as nat) + d) as char } else { (('A' as nat) + d - 10) as char }
}

/// The encoding of an ASCII text: letters and digits stay, every other
/// character becomes `%` and two upper-case hex digits.
pub open spec fn ascii_percent(s: Seq<char>) -> Seq<char>
    decreases s.len(),
{
    if s.len() == 0 {
        seq![]
    } else {
        let c = s.last();
        ascii_percent(s.drop_last()) + if is_ascii_alnum(c) {
            seq![c]
        } else {
            seq!['%', hex_digit((c as nat) / 16), hex_digit((c as nat) % 16)]
        }
    }
}

pub open spec fn all_ascii(s: Seq<char>) -> bool {
    forall|i: int| 0 <= i < s.len() ==> (s[i] as nat) < 128
}

/// Relies on `percent_encoding::utf8_percent_encode` with `NON_ALPHANUMERIC`:
/// the result depends on the text alone; for ASCII text every character but
/// a letter or digit becomes `%XX` with upper-case hex digits.
#[verifier::external_body]
fn percent_encode_text(s: &str) -> (r: String)
    ensures
        r@ == percent_encoded(s@),
        all_ascii(s@) ==> r@ == ascii_percent(s@),
{
    percent_encoding::utf8_percent_encode(s, percent_encoding::NON_ALPHANUMERIC).to_string()
}

/// The mirror's key for the framework archive: `version#filename`,
/// percent-encoded.
pub fn bepinex_mirror_key(version: &str, filename: &str) -> (r: String)
    ensures
        r@ == percent_encoded(version@ + "#"@ + filename@),
{
    let mut key = String::from_str(version);
    key.append("#");
    key.append(filename);
    percent_encode_text(key.as_str())
}

// ------------------------------------------------------------- responses

/// At most the first `SNIPPET_CHARS` characters of a response body.
pub fn body_snippet(text: &str) -> (r: &str)
    ensures
        r@ == text@.take(if text@.len() < SNIPPET_CHARS { text@.len() as int } else { SNIPPET_CHARS as int }),
{
    let n = text.unicode_len();
    let k = if n < SNIPPET_CHARS { n } else { SNIPPET_CHARS };
    text.substring_char(0, k)
}

/// How a response status is judged.
#[derive(Debug, Clone, Copy, PartialEq, Eq, Structural)]
pub enum StatusVerdict {
    Success,
    /// 429: wait `wait_secs` (when the server asked for at most 30 s) and
    /// report a rate-limit error, which is retried.
    RateLimited { wait_secs: Option<u64> },
    /// Any other failure status.
    HttpError,
}

/// The longest server-requested wait honoured before retrying.
pub const MAX_RETRY_AFTER_SECS: u64 = 30;

pub fn classify_status(status: u16, retry_after_secs: Option<u64>) -> (r: StatusVerdict)
    ensures
        200 <= status <= 299 ==> r == StatusVerdict::Success,
        status == 429 ==> r == (StatusVerdict::RateLimited {
            wait_secs: match retry_after_secs {
                Some(s) => if s <= MAX_RETRY_AFTER_SECS { Some(s) } else { None },
                None => None,
            },
        }),
        !(200 <= status <= 299) && status != 429 ==> r == StatusVerdict::HttpError,
{
    if 200 <= status && status <= 299 {
        StatusVerdict::Success
    } else if status == 429 {
        let wait_secs = match retry_after_secs {
            Some(s) => if s <= MAX_RETRY_AFTER_SECS { Some(s) } else { None },
            None => None,
        };
        StatusVerdict::RateLimited { wait_secs }
    } else {
        StatusVerdict::HttpError
    }
}

/// A release asset that is the plugin: `MetaMystia-v*.dll`.
pub open spec fn is_plugin_asset(name: Seq<char>) -> bool {
    &&& "MetaMystia-v"@.len() <= name.len() && name.take("MetaMystia-v"@.len() as int) == "MetaMystia-v"@
    &&& ".dll"@.len() <= name.len() && name.skip(name.len() - ".dll"@.len()) == ".dll"@
}

/// The first release asset (by name) that is the plugin.
pub fn select_plugin_asset(names: &Vec<String>) -> (r: Option<usize>)
    ensures
        r is Some ==> r->Some_0 < names@.len() && is_plugin_asset(names@[r->Some_0 as int]@)
            && forall|k: int| 0 <= k < r->Some_0 ==> !is_plugin_asset(#[trigger] names@[k]@),
        r is None ==> forall|k: int| 0 <= k < names@.len() ==> !is_plugin_asset(#[trigger] names@[k]@),
{
    let mut i: usize = 0;
    while i < names.len()
        invariant
            i <= names@.len(),
            forall|k: int| 0 <= k < i ==> !is_plugin_asset(#[trigger] names@[k]@),
        decreases names@.len() - i,
    {
        let n = names[i].as_str();
        if starts_with_text(n, "MetaMystia-v") && ends_with_text(n, ".dll") {
            return Some(i);
        }
        i = i + 1;
    }
    None
}

// ------------------------------------------------------------- sources

/// The source a required artifact is fetched from.
#[derive(Debug, Clone, Copy, PartialEq, Eq, Structural)]
pub enum Source {
    /// The dedicated high-trust source (release API or vendor).
    Primary,
    /// The share-code mirror, rate limited.
    Mirror,
}

/// What to do after a source was tried (with its own retries).
#[derive(Debug, Clone, Copy, PartialEq, Eq, Structural)]
pub enum FetchStep {
    Finished(Source),
    /// Tell the user, then try the mirror.
    SwitchToMirror,
    /// Every source failed: the enclosing operation aborts.
    Failed,
}

/// The fallback rule: the primary source first, the mirror after it fails.
pub fn after_attempt(source: Source, succeeded: bool) -> (r: FetchStep)
    ensures
        succeeded ==> r == FetchStep::Finished(source),
        !succeeded && source == Source::Primary ==> r == FetchStep::SwitchToMirror,
        !succeeded && source == Source::Mirror ==> r == FetchStep::Failed,
{
    if succeeded {
        FetchStep::Finished(source)
    } else {
        match source {
            Source::Primary => FetchStep::SwitchToMirror,
            Source::Mirror => FetchStep::Failed,
        }
    }
}

/// Whether downloads from a source are throttled.
pub fn is_rate_limited(source: Source) -> (r: bool)
    ensures
        r == (source == Source::Mirror),
{
    match source {
        Source::Primary => false,
        Source::Mirror => true,
    }
}

// ------------------------------------------------------------- the cache

/// Holds the version metadata of one run: the first stored value wins.
pub struct VersionCache {
    slot: Option<VersionInfo>,
}

impl VersionCache {
    pub closed spec fn cached(&self) -> Option<VersionInfo> {
        self.slot
    }

    pub fn new() -> (r: VersionCache)
        ensures
            r.cached() is None,
    {
        VersionCache { slot: None }
    }

    /// The cached metadata, if any.
    pub fn get(&self) -> (r: Option<&VersionInfo>)
        ensures
            r is Some <==> self.cached() is Some,
            r is Some ==> *r->Some_0 == self.cached()->Some_0,
    {
        match &self.slot {
            Some(v) => Some(v),
            None => None,
        }
    }

    /// Stores `info` unless a value is cached already.
    pub fn store(&mut self, info: VersionInfo)
        ensures
            old(self).cached() is Some ==> final(self).cached() == old(self).cached(),
            old(self).cached() is None ==> final(self).cached() == Some(info),
    {
        if self.slot.is_none() {
            self.slot = Some(info);
        }
    }
}

} // verus!
