//! The state and decisions of the desktop window.
//!
//! The window toolkit, file dialogs and processes belong to the
//! application: it hands each user action or finished task to
//! `App::update` as a `Message` and performs the `Command` it returns.

use crate::config::{join_path, path_joined, user_video_dir};
use crate::text::{
    append, before_char, before_char_spec, chars_equal, chars_of, contains, contains_spec, decimal,
    ends_with, ends_with_spec, find_char, has_char, lossy_text, push_decimal, rsplit_once,
    rsplit_once_spec, slice_chars, split_once, split_once_spec, starts_with, starts_with_spec,
    string_of, trim, trim_spec, utf8_lossy,
};
use crate::types::{format_bytes, format_bytes_spec, sanitize_filename, sanitize_filename_spec, VideoFormat, VideoInfo};
use crate::yt_dlp::{builtin_user_agent, download_args_spec, texts, AntiBotConfig, YtDlp, USER_AGENT_COUNT};
use vstd::multiset::Multiset;
use vstd::prelude::*;

verus! {

/// The window's title.
pub const WINDOW_TITLE: &'static str = "X Video Downloader";

/// The output directory used when the platform reports no video directory.
pub const FALLBACK_OUTPUT_DIR: &'static str = "./Downloads";

/// Formats listed at most in the quality list.
pub const MAX_LISTED_FORMATS: usize = 8;

// ---------------------------------------------------------------------------
// URL validation
// ---------------------------------------------------------------------------

/// `u` without its scheme: the text after the first `:` when that `:` is
/// followed by `//` and no `/` comes before it (as in `https://`), else all
/// of `u`.
pub open spec fn after_scheme(u: Seq<char>) -> Seq<char> {
    match split_once_spec(u, ':') {
        Some((scheme, rest)) => if starts_with_spec(rest, "//"@) && !has_char(scheme, '/') {
            rest.subrange("//"@.len() as int, rest.len() as int)
        } else {
            u
        },
        None => u,
    }
}

/// The authority of a URL: after the scheme, up to the first `/`, `?` or
/// `#`.
pub open spec fn url_authority(u: Seq<char>) -> Seq<char> {
    before_char_spec(before_char_spec(before_char_spec(after_scheme(u), '/'), '?'), '#')
}

/// The host named by a URL: its authority without a user part (everything
/// up to the last `@`) and without a port.
pub open spec fn url_host(u: Seq<char>) -> Seq<char> {
    let authority = url_authority(u);
    let without_user = match rsplit_once_spec(authority, '@') {
        Some((_, h)) => h,
        None => authority,
    };
    before_char_spec(without_user, ':')
}

/// Whether `host` is `x.com` or `twitter.com`, or a subdomain of either.
pub open spec fn is_video_host(host: Seq<char>) -> bool {
    ||| host == "x.com"@
    ||| host == "twitter.com"@
    ||| ends_with_spec(host, ".x.com"@)
    ||| ends_with_spec(host, ".twitter.com"@)
}

/// The check of a URL typed by the user: trimmed, it must not be empty, its
/// host must be `x.com` or `twitter.com` (or a subdomain), and it must start
/// with `http://` or `https://`; the trimmed URL is returned.
pub open spec fn validate_url_spec(url: Seq<char>) -> Result<Seq<char>, Seq<char>> {
    let u = trim_spec(url);
    if u.len() == 0 {
        Err("URL cannot be empty"@)
    } else if !is_video_host(url_host(u)) {
        Err("Please enter a valid X.com or Twitter.com video link"@)
    } else if !starts_with_spec(u, "http://"@) && !starts_with_spec(u, "https://"@) {
        Err("URL must start with http:// or https://"@)
    } else {
        Ok(u)
    }
}

/// The host of `u` (see `url_host`).
fn host_of(u: &[char]) -> (r: Vec<char>)
    ensures
        r@ == url_host(u@),
{
    let slashes = chars_of("//");
    let rest = match split_once(u, ':') {
        Some((scheme, after)) => {
            if starts_with(after.as_slice(), slashes.as_slice()) && find_char(scheme.as_slice(), '/').is_none() {
                slice_chars(after.as_slice(), slashes.len(), after.len())
            } else {
                slice_chars(u, 0, u.len())
            }
        },
        None => slice_chars(u, 0, u.len()),
    };
    assert(u@.subrange(0, u@.len() as int) =~= u@);
    let a = before_char(rest.as_slice(), '/');
    let b = before_char(a.as_slice(), '?');
    let authority = before_char(b.as_slice(), '#');
    let without_user = match rsplit_once(authority.as_slice(), '@') {
        Some((_, h)) => h,
        None => authority,
    };
    before_char(without_user.as_slice(), ':')
}

/// Checks a URL typed by the user (see `validate_url_spec`).
pub fn validate_url(url: &str) -> (r: Result<String, String>)
    ensures
        match r {
            Ok(u) => validate_url_spec(url@) == Ok::<Seq<char>, Seq<char>>(u@),
            Err(e) => validate_url_spec(url@) == Err::<Seq<char>, Seq<char>>(e@),
        },
{
    let u = trim(chars_of(url).as_slice());
    if u.len() == 0 {
        return Err(string_of(chars_of("URL cannot be empty").as_slice()));
    }
    let host = host_of(u.as_slice());
    let x = chars_of("x.com");
    let tw = chars_of("twitter.com");
    let sub_x = chars_of(".x.com");
    let sub_tw = chars_of(".twitter.com");
    let allowed = chars_equal(host.as_slice(), x.as_slice()) || chars_equal(host.as_slice(), tw.as_slice())
        || ends_with(host.as_slice(), sub_x.as_slice()) || ends_with(host.as_slice(), sub_tw.as_slice());
    if !allowed {
        return Err(
            string_of(chars_of("Please enter a valid X.com or Twitter.com video link").as_slice()),
        );
    }
    let http = chars_of("http://");
    let https = chars_of("https://");
    if !starts_with(u.as_slice(), http.as_slice()) && !starts_with(u.as_slice(), https.as_slice()) {
        return Err(string_of(chars_of("URL must start with http:// or https://").as_slice()));
    }
    Ok(string_of(u.as_slice()))
}

// ---------------------------------------------------------------------------
// The quality list
// ---------------------------------------------------------------------------

/// The size a format is ordered by (0 where unknown).
pub open spec fn size_key(f: VideoFormat) -> u64 {
    match f.filesize {
        Some(s) => s,
        None => 0,
    }
}

/// A format worth listing: it has video and a known extension.
pub open spec fn listable(f: VideoFormat) -> bool {
    !f.audio_only && f.ext@ != "unknown"@
}

/// `s` with `x` placed after every leading element at least as large.
pub open spec fn insert_desc(s: Seq<VideoFormat>, x: VideoFormat) -> Seq<VideoFormat>
    decreases s.len(),
{
    if s.len() == 0 {
        seq![x]
    } else if size_key(s[0]) >= size_key(x) {
        seq![s[0]] + insert_desc(s.drop_first(), x)
    } else {
        seq![x] + s
    }
}

/// `s` ordered from largest to smallest size, formats of equal size in
/// their input order (a stable sort).
pub open spec fn sort_desc(s: Seq<VideoFormat>) -> Seq<VideoFormat>
    decreases s.len(),
{
    if s.len() == 0 {
        s
    } else {
        insert_desc(sort_desc(s.drop_last()), s.last())
    }
}

/// Sizes from largest to smallest.
pub open spec fn sorted_desc(s: Seq<VideoFormat>) -> bool {
    forall|i: int, j: int| 0 <= i < j < s.len() ==> size_key(#[trigger] s[i]) >= size_key(#[trigger] s[j])
}

/// The formats of the quality list: the first eight listable formats,
/// largest first.
pub open spec fn display_formats_spec(formats: Seq<VideoFormat>) -> Seq<VideoFormat> {
    let kept = formats.filter(|f: VideoFormat| listable(f));
    let n = if kept.len() < MAX_LISTED_FORMATS {
        kept.len() as int
    } else {
        MAX_LISTED_FORMATS as int
    };
    sort_desc(kept.take(n))
}

/// The first position in `s` whose size is below that of `x` (or `s`'s
/// length).
pub open spec fn insert_position(s: Seq<VideoFormat>, x: VideoFormat, p: int) -> bool {
    &&& 0 <= p <= s.len()
    &&& forall|j: int| 0 <= j < p ==> size_key(#[trigger] s[j]) >= size_key(x)
    &&& p < s.len() ==> size_key(s[p]) < size_key(x)
}

proof fn lemma_insert_desc_at(s: Seq<VideoFormat>, x: VideoFormat, p: int)
    requires
        insert_position(s, x, p),
    ensures
        insert_desc(s, x) == s.insert(p, x),
    decreases s.len(),
{
    if s.len() == 0 {
        assert(s.insert(p, x) =~= seq![x]);
    } else if p == 0 {
        assert(seq![x] + s =~= s.insert(0, x));
    } else {
        assert(size_key(s[0]) >= size_key(x));
        let t = s.drop_first();
        assert forall|j: int| 0 <= j < p - 1 implies size_key(#[trigger] t[j]) >= size_key(x) by {
            assert(t[j] == s[j + 1]);
        }
        if p < s.len() {
            assert(t[p - 1] == s[p]);
        }
        lemma_insert_desc_at(t, x, p - 1);
        assert(seq![s[0]] + t.insert(p - 1, x) =~= s.insert(p, x));
    }
}

proof fn lemma_insert_desc_sorted(s: Seq<VideoFormat>, x: VideoFormat)
    requires
        sorted_desc(s),
    ensures
        sorted_desc(insert_desc(s, x)),
        insert_desc(s, x).len() == s.len() + 1,
        insert_desc(s, x).to_multiset() == s.to_multiset().insert(x),
    decreases s.len(),
{
    broadcast use vstd::seq_lib::group_to_multiset_ensures;

    if s.len() == 0 {
        assert(insert_desc(s, x) =~= seq![x]);
        assert(seq![x] =~= Seq::<VideoFormat>::empty().push(x));
    } else if size_key(s[0]) >= size_key(x) {
        let t = s.drop_first();
        assert(sorted_desc(t)) by {
            assert forall|i: int, j: int| 0 <= i < j < t.len() implies size_key(#[trigger] t[i])
                >= size_key(#[trigger] t[j]) by {
                assert(t[i] == s[i + 1] && t[j] == s[j + 1]);
            }
        }
        lemma_insert_desc_sorted(t, x);
        let r = insert_desc(t, x);
        let whole = seq![s[0]] + r;
        assert forall|i: int, j: int| 0 <= i < j < whole.len() implies size_key(#[trigger] whole[i])
            >= size_key(#[trigger] whole[j]) by {
            if i == 0 {
                assert(whole[j] == r[j - 1]);
                assert(r.to_multiset().count(r[j - 1]) > 0);
                assert(t.to_multiset().insert(x).count(r[j - 1]) > 0);
                if r[j - 1] != x {
                    assert(t.to_multiset().count(r[j - 1]) > 0);
                    assert(t.contains(r[j - 1]));
                    let k = choose|k: int| 0 <= k < t.len() && t[k] == r[j - 1];
                    assert(t[k] == s[k + 1]);
                }
            } else {
                assert(whole[i] == r[i - 1] && whole[j] == r[j - 1]);
            }
        }
        assert(s =~= seq![s[0]] + t);
        vstd::seq_lib::lemma_multiset_commutative(seq![s[0]], t);
        vstd::seq_lib::lemma_multiset_commutative(seq![s[0]], r);
        assert(seq![s[0]].to_multiset() =~= Multiset::<VideoFormat>::empty().insert(s[0])) by {
            assert(seq![s[0]] =~= Seq::<VideoFormat>::empty().push(s[0]));
        }
    } else {
        let whole = seq![x] + s;
        assert forall|i: int, j: int| 0 <= i < j < whole.len() implies size_key(#[trigger] whole[i])
            >= size_key(#[trigger] whole[j]) by {
            if i == 0 {
                assert(whole[j] == s[j - 1]);
                if j - 1 > 0 {
                    assert(size_key(s[0]) >= size_key(s[j - 1]));
                }
            } else {
                assert(whole[i] == s[i - 1] && whole[j] == s[j - 1]);
            }
        }
        vstd::seq_lib::lemma_multiset_commutative(seq![x], s);
        assert(seq![x].to_multiset() =~= Multiset::<VideoFormat>::empty().insert(x)) by {
            assert(seq![x] =~= Seq::<VideoFormat>::empty().push(x));
        }
    }
}

/// The quality list is ordered from largest to smallest and holds exactly
/// the listed formats.
pub proof fn lemma_sort_desc_sorted(s: Seq<VideoFormat>)
    ensures
        sorted_desc(sort_desc(s)),
        sort_desc(s).to_multiset() == s.to_multiset(),
    decreases s.len(),
{
    broadcast use vstd::seq_lib::group_to_multiset_ensures;

    if s.len() > 0 {
        lemma_sort_desc_sorted(s.drop_last());
        lemma_insert_desc_sorted(sort_desc(s.drop_last()), s.last());
        assert(s =~= s.drop_last().push(s.last()));
    }
}

fn size_of_format(f: &VideoFormat) -> (r: u64)
    ensures
        r == size_key(*f),
{
    match f.filesize {
        Some(s) => s,
        None => 0,
    }
}

/// A copy of a format.
pub fn copy_format(f: &VideoFormat) -> (r: VideoFormat)
    ensures
        r == *f,
{
    VideoFormat {
        format_id: copy_string(&f.format_id),
        ext: copy_string(&f.ext),
        resolution: copy_opt(&f.resolution),
        filesize: f.filesize,
        bitrate: f.bitrate,
        codec: copy_opt(&f.codec),
        audio_only: f.audio_only,
        format_note: copy_opt(&f.format_note),
    }
}

fn copy_string(s: &String) -> (r: String)
    ensures
        r == *s,
{
    s.clone()
}

fn copy_opt(s: &Option<String>) -> (r: Option<String>)
    ensures
        r == *s,
{
    match s {
        Some(t) => Some(copy_string(t)),
        None => None,
    }
}

/// The formats shown in the quality list (see `display_formats_spec`).
pub fn display_formats(formats: &Vec<VideoFormat>) -> (r: Vec<VideoFormat>)
    ensures
        r@ == display_formats_spec(formats@),
{
    let ghost pred = |f: VideoFormat| listable(f);
    let unknown = chars_of("unknown");
    let mut kept: Vec<VideoFormat> = Vec::new();
    let mut i: usize = 0;
    while i < formats.len() && kept.len() < MAX_LISTED_FORMATS
        invariant
            i <= formats@.len(),
            kept@.len() <= MAX_LISTED_FORMATS,
            unknown@ == "unknown"@,
            pred == (|f: VideoFormat| listable(f)),
            kept@ == formats@.subrange(0, i as int).filter(pred),
        decreases formats@.len() - i,
    {
        let f = &formats[i];
        let ext = chars_of(f.ext.as_str());
        let keep = !f.audio_only && !chars_equal(ext.as_slice(), unknown.as_slice());
        proof {
            reveal(Seq::filter);
            let s = formats@.subrange(0, i + 1);
            assert(s.drop_last() =~= formats@.subrange(0, i as int));
            assert(s.last() == formats@[i as int]);
            assert(pred(*f) == keep);
        }
        if keep {
            kept.push(copy_format(f));
        }
        i = i + 1;
    }
    proof {
        broadcast use vstd::seq_lib::group_filter_ensures;

        let all = formats@.filter(pred);
        let pre = formats@.subrange(0, i as int);
        Seq::filter_distributes_over_add(
            pre,
            formats@.subrange(i as int, formats@.len() as int),
            pred,
        );
        assert(pre + formats@.subrange(i as int, formats@.len() as int) =~= formats@);
        let n = if all.len() < MAX_LISTED_FORMATS {
            all.len() as int
        } else {
            MAX_LISTED_FORMATS as int
        };
        if i == formats@.len() {
            assert(pre =~= formats@);
            assert(all.take(n) =~= kept@);
        } else {
            assert(kept@.len() == MAX_LISTED_FORMATS);
            assert(all.take(n) =~= kept@);
        }
    }
    let mut sorted: Vec<VideoFormat> = Vec::new();
    let mut k: usize = 0;
    let ghost src = kept@;
    while kept.len() > 0
        invariant
            k <= src.len(),
            kept@ == src.subrange(k as int, src.len() as int),
            sorted@ == sort_desc(src.subrange(0, k as int)),
            src.len() <= MAX_LISTED_FORMATS,
        decreases kept.len(),
    {
        let x = kept.remove(0);
        let key = size_of_format(&x);
        let mut p: usize = 0;
        while p < sorted.len() && size_of_format(&sorted[p]) >= key
            invariant
                p <= sorted@.len(),
                key == size_key(x),
                forall|j: int| 0 <= j < p ==> size_key(#[trigger] sorted@[j]) >= size_key(x),
            decreases sorted@.len() - p,
        {
            p = p + 1;
        }
        proof {
            lemma_insert_desc_at(sorted@, x, p as int);
            let s = src.subrange(0, k + 1);
            assert(s.drop_last() =~= src.subrange(0, k as int));
            assert(s.last() == x);
        }
        sorted.insert(p, x);
        k = k + 1;
        assert(kept@ =~= src.subrange(k as int, src.len() as int));
    }
    assert(src.subrange(0, k as int) =~= src);
    sorted
}

/// The label of a format in the quality list: resolution (or `N/A`), two
/// spaces, size (or `-`).
pub open spec fn format_label_spec(f: VideoFormat) -> Seq<char> {
    (match f.resolution {
        Some(r) => r@,
        None => "N/A"@,
    }) + "  "@ + (match f.filesize {
        Some(s) => format_bytes_spec(s),
        None => "-"@,
    })
}

/// The label of a format in the quality list.
pub fn format_label(f: &VideoFormat) -> (r: String)
    ensures
        r@ == format_label_spec(*f),
{
    let mut out = match &f.resolution {
        Some(res) => chars_of(res.as_str()),
        None => chars_of("N/A"),
    };
    append(&mut out, chars_of("  ").as_slice());
    match f.filesize {
        Some(s) => {
            let t = format_bytes(s);
            append(&mut out, chars_of(t.as_str()).as_slice());
        },
        None => append(&mut out, chars_of("-").as_slice()),
    }
    string_of(out.as_slice())
}

/// The line under a video's title: minutes, seconds and uploader.
pub open spec fn duration_line_spec(info: VideoInfo) -> Seq<char> {
    let d: nat = match info.duration {
        Some(d) => d as nat,
        None => 0,
    };
    decimal(d / 60) + " - "@ + decimal(d % 60) + " @"@ + (match info.uploader {
        Some(u) => u@,
        None => Seq::empty(),
    })
}

/// The line under a video's title (`{minutes} - {seconds} @{uploader}`).
pub fn duration_line(info: &VideoInfo) -> (r: String)
    ensures
        r@ == duration_line_spec(*info),
{
    let d: u64 = match info.duration {
        Some(d) => d,
        None => 0,
    };
    let mut out: Vec<char> = Vec::new();
    push_decimal(&mut out, d / 60);
    append(&mut out, chars_of(" - ").as_slice());
    push_decimal(&mut out, d % 60);
    append(&mut out, chars_of(" @").as_slice());
    match &info.uploader {
        Some(u) => append(&mut out, chars_of(u.as_str()).as_slice()),
        None => {},
    }
    proof {
        assert(out@ =~= duration_line_spec(*info));
    }
    string_of(out.as_slice())
}

// ---------------------------------------------------------------------------
// The download format
// ---------------------------------------------------------------------------

/// The format requested from yt-dlp: the selected format (or `best` where
/// the selection is out of range); a format without audio gets
/// `+bestaudio`, and a direct `video.twimg.com` link always gets `best`.
pub open spec fn final_format_spec(formats: Seq<VideoFormat>, selected: Option<usize>, url: Seq<char>) -> Seq<char> {
    let idx: int = match selected {
        Some(i) => i as int,
        None => 0,
    };
    let format = if idx < formats.len() {
        formats[idx].format_id@
    } else {
        "best"@
    };
    let direct = contains_spec(url, "video.twimg.com"@);
    if contains_spec(format, "+"@) || format == "best"@ || direct {
        if direct {
            "best"@
        } else {
            format
        }
    } else {
        format + "+bestaudio"@
    }
}

/// The format requested from yt-dlp (see `final_format_spec`).
pub fn final_format(formats: &Vec<VideoFormat>, selected: Option<usize>, url: &str) -> (r: String)
    ensures
        r@ == final_format_spec(formats@, selected, url@),
{
    let idx: usize = match selected {
        Some(i) => i,
        None => 0,
    };
    let format = if idx < formats.len() {
        chars_of(formats[idx].format_id.as_str())
    } else {
        chars_of("best")
    };
    let direct = contains(chars_of(url).as_slice(), chars_of("video.twimg.com").as_slice());
    let best = chars_of("best");
    if contains(format.as_slice(), chars_of("+").as_slice()) || chars_equal(format.as_slice(), best.as_slice()) || direct {
        if direct {
            string_of(best.as_slice())
        } else {
            string_of(format.as_slice())
        }
    } else {
        let mut out = format;
        append(&mut out, chars_of("+bestaudio").as_slice());
        string_of(out.as_slice())
    }
}

/// The outcome of a yt-dlp run: success names the title; a failure gives
/// the error output, else the normal output, else `Unknown error`.
pub open spec fn download_outcome_spec(success: bool, title: Seq<char>, stderr: Seq<u8>, stdout: Seq<u8>) -> Result<Seq<char>, Seq<char>> {
    if success {
        Ok("Download completed: "@ + title)
    } else if lossy_text(stderr).len() > 0 {
        Err(lossy_text(stderr))
    } else if lossy_text(stdout).len() > 0 {
        Err(lossy_text(stdout))
    } else {
        Err("Unknown error"@)
    }
}

/// The outcome of a yt-dlp run (see `download_outcome_spec`).
pub fn download_outcome(success: bool, title: &str, stderr: &[u8], stdout: &[u8]) -> (r: Result<String, String>)
    ensures
        match r {
            Ok(m) => download_outcome_spec(success, title@, stderr@, stdout@) == Ok::<Seq<char>, Seq<char>>(m@),
            Err(e) => download_outcome_spec(success, title@, stderr@, stdout@) == Err::<Seq<char>, Seq<char>>(e@),
        },
{
    if success {
        let mut out = chars_of("Download completed: ");
        append(&mut out, chars_of(title).as_slice());
        return Ok(string_of(out.as_slice()));
    }
    let err = utf8_lossy(stderr);
    if err.len() > 0 {
        return Err(string_of(err.as_slice()));
    }
    let out = utf8_lossy(stdout);
    if out.len() > 0 {
        return Err(string_of(out.as_slice()));
    }
    Err(string_of(chars_of("Unknown error").as_slice()))
}

// ---------------------------------------------------------------------------
// The window's state machine
// ---------------------------------------------------------------------------

/// What the user did, or what a finished task reports.
#[derive(Debug)]
pub enum Message {
    UrlChanged(String),
    OutputDirChanged(String),
    CookieChanged(String),
    FetchInfo,
    StartDownload,
    SelectFormat(usize),
    BrowseOutputDir,
    BrowseCookie,
    FolderSelected(Option<String>),
    CookieSelected(Option<String>),
    ClearError,
    SaveCookie,
    ClearSavedCookie,
    InfoFetched(Result<VideoInfo, String>),
    DownloadCompleted(Result<String, String>),
}

/// What the application does after an update.
#[derive(Clone, Debug)]
pub enum Command {
    /// Nothing to do.
    Nothing,
    /// Show a folder picker opened at `start_dir`; answer `FolderSelected`.
    PickFolder { start_dir: String },
    /// Show a file picker for cookie files; answer `CookieSelected`.
    PickCookieFile,
    /// Query yt-dlp for `url`, adding the cookie file where its path
    /// resolves; answer `InfoFetched`.
    FetchInfo { ytdlp: YtDlp, url: String, cookie_file: Option<String> },
    /// Create `output_dir` if needed, run `executable` with `args`, and
    /// answer `DownloadCompleted` with `download_outcome`.
    RunDownload { output_dir: String, executable: String, args: Vec<String>, title: String },
    /// Save the settings; report with `App::config_saved`.
    SaveConfig { cookie_file: String, output_dir: String, clearing: bool },
}

/// The window's state.
#[derive(Clone, Debug)]
pub struct App {
    pub url_input: String,
    pub output_dir: String,
    pub cookie_file: String,
    pub video_info: Option<VideoInfo>,
    pub selected_format: Option<usize>,
    pub is_fetching: bool,
    pub is_downloading: bool,
    /// Progress of the current download in percent (0 until it completes).
    pub download_percent: u32,
    pub status_message: String,
    pub error_message: Option<String>,
    pub ytdlp: YtDlp,
}

/// What `StartDownload` does to the window state `before`, giving `after`
/// and the command `cmd`: with an invalid URL or no video information only
/// an error is shown; else the download starts with the arguments of
/// `window_download_args`.
pub open spec fn start_download_done(before: App, after: App, cmd: Command) -> bool {
    if validate_url_spec(before.url_input@) is Err {
        &&& after == App { error_message: after.error_message, ..before }
        &&& after.error_message matches Some(m) && m@ == "Please enter a valid URL"@
        &&& cmd is Nothing
    } else {
        match before.video_info {
            Some(info) => {
                &&& after == App {
                    is_downloading: true,
                    download_percent: 0,
                    status_message: after.status_message,
                    error_message: None,
                    ..before
                }
                &&& after.status_message@ == "Connecting to server..."@
                &&& cmd matches Command::RunDownload { output_dir, executable, args, title }
                &&& output_dir@ == before.output_dir@
                &&& executable == before.ytdlp.executable
                &&& title@ == info.title@
                &&& window_download_args(
                    texts(args@),
                    before.url_input@,
                    before.output_dir@,
                    info,
                    before.selected_format,
                )
            },
            None => {
                &&& after == App { error_message: after.error_message, ..before }
                &&& after.error_message matches Some(m) && m@ == "Please get video info first"@
                &&& cmd is Nothing
            },
        }
    }
}

/// The anti-bot settings of a fresh `YtDlp`.
pub open spec fn default_anti_bot() -> AntiBotConfig {
    AntiBotConfig { enabled: true, user_agent: None, cookie_file: None, proxy: None, skip_ssl_verify: false }
}

/// The output template of a download: `{title}.%(ext)s` in `output_dir`,
/// the title made safe as a file name.
pub open spec fn output_template(output_dir: Seq<char>, title: Seq<char>) -> Seq<char> {
    path_joined(output_dir, sanitize_filename_spec(title) + ".%(ext)s"@)
}

/// The arguments of a download started from the window: the download
/// arguments of a fresh `YtDlp` for the final format, no audio-only, no
/// subtitles.
pub open spec fn window_download_args(args: Seq<Seq<char>>, url: Seq<char>, output_dir: Seq<char>, info: VideoInfo, selected: Option<usize>) -> bool {
    exists|ua: Seq<char>, cookie_exists: bool| {
        &&& (exists|i: int| 0 <= i < USER_AGENT_COUNT && ua == builtin_user_agent(i))
        &&& args == download_args_spec(
            default_anti_bot(),
            url,
            output_template(output_dir, info.title@),
            Some(final_format_spec(info.formats@, selected, url)),
            false,
            false,
            ua,
            cookie_exists,
        )
    }
}

/// Whether `s` holds the text `t`.
pub open spec fn text_is(s: String, t: Seq<char>) -> bool {
    s@ == t
}

impl App {
    /// A window with the saved cookie file and output directory, running
    /// `ytdlp`. Where no output directory was saved, the platform's video
    /// directory is used, or `./Downloads` where it reports none (see
    /// `with_video_dir`; which directory the platform reports is not known
    /// here).
    pub fn new(saved_cookie: String, saved_output: String, ytdlp: YtDlp) -> (r: App)
        ensures
            r.url_input@ == Seq::<char>::empty(),
            saved_output@.len() > 0 ==> r.output_dir == saved_output,
            r.cookie_file == saved_cookie,
            r.video_info is None,
            r.selected_format is None,
            !r.is_fetching,
            !r.is_downloading,
            r.download_percent == 0,
            r.status_message@ == "Enter video URL"@,
            r.error_message is None,
            r.ytdlp == ytdlp,
    {
        App::with_video_dir(saved_cookie, saved_output, user_video_dir(), ytdlp)
    }

    /// A window with the saved cookie file and output directory, running
    /// `ytdlp`; where no output directory was saved, `video_dir` (the
    /// user's video directory), or `./Downloads` where there is none.
    pub fn with_video_dir(saved_cookie: String, saved_output: String, video_dir: Option<String>, ytdlp: YtDlp) -> (r:
        App)
        ensures
            r.url_input@ == Seq::<char>::empty(),
            saved_output@.len() > 0 ==> r.output_dir == saved_output,
            saved_output@.len() == 0 ==> r.output_dir@ == (match video_dir {
                Some(d) => d@,
                None => "./Downloads"@,
            }),
            r.cookie_file == saved_cookie,
            r.video_info is None,
            r.selected_format is None,
            !r.is_fetching,
            !r.is_downloading,
            r.download_percent == 0,
            r.status_message@ == "Enter video URL"@,
            r.error_message is None,
            r.ytdlp == ytdlp,
    {
        let output_dir = if chars_of(saved_output.as_str()).len() == 0 {
            match video_dir {
                Some(d) => d,
                None => string_of(chars_of(FALLBACK_OUTPUT_DIR).as_slice()),
            }
        } else {
            saved_output
        };
        App {
            url_input: String::new(),
            output_dir,
            cookie_file: saved_cookie,
            video_info: None,
            selected_format: None,
            is_fetching: false,
            is_downloading: false,
            download_percent: 0,
            status_message: string_of(chars_of("Enter video URL").as_slice()),
            error_message: None,
            ytdlp,
        }
    }

    /// The window's title.
    pub fn title(&self) -> (r: String)
        ensures
            r@ == "X Video Downloader"@,
    {
        string_of(chars_of(WINDOW_TITLE).as_slice())
    }

    /// The status line: the percentage while downloading, else the status
    /// message.
    pub fn status_text(&self) -> (r: String)
        ensures
            self.is_downloading ==> r@ == decimal(self.download_percent as nat) + "%"@,
            !self.is_downloading ==> r@ == self.status_message@,
    {
        if self.is_downloading {
            let mut out: Vec<char> = Vec::new();
            push_decimal(&mut out, self.download_percent as u64);
            out.push('%');
            proof {
                reveal_strlit("%");
                assert(out@ =~= decimal(self.download_percent as nat) + "%"@);
            }
            string_of(out.as_slice())
        } else {
            string_of(chars_of(self.status_message.as_str()).as_slice())
        }
    }

    /// Applies a message and tells the application what to do next.
    #[verifier::rlimit(40)]
    pub fn update(&mut self, message: Message) -> (cmd: Command)
        ensures
            match message {
                Message::UrlChanged(u) => *final(self) == App { url_input: u, ..*old(self) } && cmd is Nothing,
                Message::OutputDirChanged(d) => *final(self) == App { output_dir: d, ..*old(self) } && cmd is Nothing,
                Message::CookieChanged(c) => *final(self) == App { cookie_file: c, ..*old(self) } && cmd is Nothing,
                Message::BrowseOutputDir => *final(self) == *old(self) && (cmd matches Command::PickFolder {
                    start_dir,
                } && start_dir@ == old(self).output_dir@),
                Message::BrowseCookie => *final(self) == *old(self) && cmd is PickCookieFile,
                Message::CookieSelected(p) => cmd is Nothing && *final(self) == (match p {
                    Some(p) => App { cookie_file: p, ..*old(self) },
                    None => *old(self),
                }),
                Message::FolderSelected(p) => cmd is Nothing && *final(self) == (match p {
                    Some(p) => App { output_dir: p, ..*old(self) },
                    None => *old(self),
                }),
                Message::FetchInfo => match validate_url_spec(old(self).url_input@) {
                    Ok(_) => {
                        &&& *final(self) == App {
                            is_fetching: true,
                            status_message: final(self).status_message,
                            error_message: None,
                            video_info: None,
                            ..*old(self)
                        }
                        &&& final(self).status_message@ == "Fetching video info..."@
                        &&& cmd matches Command::FetchInfo { ytdlp, url, cookie_file }
                        &&& ytdlp == old(self).ytdlp
                        &&& url@ == old(self).url_input@
                        &&& cookie_file == (if old(self).cookie_file@.len() > 0 {
                            Some(old(self).cookie_file)
                        } else {
                            None
                        })
                    },
                    Err(e) => {
                        &&& *final(self) == App { error_message: final(self).error_message, ..*old(self) }
                        &&& final(self).error_message matches Some(m) && m@ == e
                        &&& cmd is Nothing
                    },
                },
                Message::InfoFetched(res) => {
                    &&& cmd is Nothing
                    &&& match res {
                        Ok(info) => {
                            &&& *final(self) == App {
                                is_fetching: false,
                                video_info: Some(info),
                                selected_format: (if info.formats@.len() == 0 {
                                    None::<usize>
                                } else {
                                    Some(0usize)
                                }),
                                status_message: final(self).status_message,
                                ..*old(self)
                            }
                            &&& final(self).status_message@ == "Fetched: "@ + info.title@
                        },
                        Err(e) => {
                            &&& *final(self) == App {
                                is_fetching: false,
                                error_message: Some(e),
                                status_message: final(self).status_message,
                                ..*old(self)
                            }
                            &&& final(self).status_message@ == "Failed to fetch video info"@
                        },
                    }
                },
                Message::SelectFormat(i) => *final(self) == App { selected_format: Some(i), ..*old(self) }
                    && cmd is Nothing,
                Message::StartDownload => start_download_done(*old(self), *final(self), cmd),
                Message::DownloadCompleted(res) => {
                    &&& cmd is Nothing
                    &&& match res {
                        Ok(m) => *final(self) == App {
                            is_downloading: false,
                            status_message: m,
                            download_percent: 100,
                            ..*old(self)
                        },
                        Err(e) => {
                            &&& *final(self) == App {
                                is_downloading: false,
                                error_message: Some(e),
                                status_message: final(self).status_message,
                                ..*old(self)
                            }
                            &&& final(self).status_message@ == "Download failed"@
                        },
                    }
                },
                Message::ClearError => *final(self) == App { error_message: None, ..*old(self) } && cmd is Nothing,
                Message::SaveCookie => *final(self) == *old(self) && (cmd matches Command::SaveConfig {
                    cookie_file,
                    output_dir,
                    clearing,
                } && cookie_file@ == old(self).cookie_file@ && output_dir@ == old(self).output_dir@
                    && !clearing),
                Message::ClearSavedCookie => {
                    &&& *final(self) == App { cookie_file: final(self).cookie_file, ..*old(self) }
                    &&& final(self).cookie_file@ == Seq::<char>::empty()
                    &&& cmd matches Command::SaveConfig { cookie_file, output_dir, clearing }
                    &&& cookie_file@ == Seq::<char>::empty()
                    &&& output_dir@ == old(self).output_dir@
                    &&& clearing
                },
            },
    {
        match message {
            Message::UrlChanged(url) => {
                self.url_input = url;
                Command::Nothing
            },
            Message::OutputDirChanged(dir) => {
                self.output_dir = dir;
                Command::Nothing
            },
            Message::CookieChanged(cookie) => {
                self.cookie_file = cookie;
                Command::Nothing
            },
            Message::BrowseOutputDir => Command::PickFolder {
                start_dir: string_of(chars_of(self.output_dir.as_str()).as_slice()),
            },
            Message::BrowseCookie => Command::PickCookieFile,
            Message::CookieSelected(path) => {
                match path {
                    Some(p) => {
                        self.cookie_file = p;
                    },
                    None => {},
                }
                Command::Nothing
            },
            Message::FolderSelected(path) => {
                match path {
                    Some(p) => {
                        self.output_dir = p;
                    },
                    None => {},
                }
                Command::Nothing
            },
            Message::FetchInfo => match validate_url(self.url_input.as_str()) {
                Ok(_) => {
                    self.is_fetching = true;
                    self.status_message = string_of(chars_of("Fetching video info...").as_slice());
                    self.error_message = None;
                    self.video_info = None;
                    let url = copy_string(&self.url_input);
                    let cookie_file = if chars_of(self.cookie_file.as_str()).len() > 0 {
                        Some(copy_string(&self.cookie_file))
                    } else {
                        None
                    };
                    Command::FetchInfo { ytdlp: copy_ytdlp(&self.ytdlp), url, cookie_file }
                },
                Err(e) => {
                    self.error_message = Some(e);
                    Command::Nothing
                },
            },
            Message::InfoFetched(result) => {
                self.is_fetching = false;
                match result {
                    Ok(info) => {
                        let mut status = chars_of("Fetched: ");
                        append(&mut status, chars_of(info.title.as_str()).as_slice());
                        self.selected_format = if info.formats.len() == 0 {
                            None
                        } else {
                            Some(0)
                        };
                        self.video_info = Some(info);
                        self.status_message = string_of(status.as_slice());
                    },
                    Err(e) => {
                        self.error_message = Some(e);
                        self.status_message = string_of(chars_of("Failed to fetch video info").as_slice());
                    },
                }
                Command::Nothing
            },
            Message::SelectFormat(index) => {
                self.selected_format = Some(index);
                Command::Nothing
            },
            Message::StartDownload => self.start_download(),
            Message::DownloadCompleted(result) => {
                self.is_downloading = false;
                match result {
                    Ok(msg) => {
                        self.status_message = msg;
                        self.download_percent = 100;
                    },
                    Err(e) => {
                        self.error_message = Some(e);
                        self.status_message = string_of(chars_of("Download failed").as_slice());
                    },
                }
                Command::Nothing
            },
            Message::ClearError => {
                self.error_message = None;
                Command::Nothing
            },
            Message::SaveCookie => Command::SaveConfig {
                cookie_file: copy_string(&self.cookie_file),
                output_dir: copy_string(&self.output_dir),
                clearing: false,
            },
            Message::ClearSavedCookie => {
                self.cookie_file = String::new();
                Command::SaveConfig {
                    cookie_file: String::new(),
                    output_dir: copy_string(&self.output_dir),
                    clearing: true,
                }
            },
        }
    }

    /// The `StartDownload` step of `update`.
    fn start_download(&mut self) -> (cmd: Command)
        ensures
            start_download_done(*old(self), *final(self), cmd),
    {
        if validate_url(self.url_input.as_str()).is_err() {
            self.error_message = Some(string_of(chars_of("Please enter a valid URL").as_slice()));
            return Command::Nothing;
        }
        match &self.video_info {
            Some(info) => {
                let format = final_format(&info.formats, self.selected_format, self.url_input.as_str());
                let title = copy_string(&info.title);
                let mut name = chars_of(sanitize_filename(info.title.as_str()).as_str());
                append(&mut name, chars_of(".%(ext)s").as_slice());
                let name_text = string_of(name.as_slice());
                let output_file = join_path(self.output_dir.as_str(), name_text.as_str());
                let ytdlp = YtDlp::with_executable(copy_string(&self.ytdlp.executable));
                let fstr = format.as_str();
                let args = ytdlp.build_download_args(
                    self.url_input.as_str(),
                    output_file.as_str(),
                    Some(fstr),
                    false,
                    false,
                );
                proof {
                    assert(name_text@ == sanitize_filename_spec(info.title@) + ".%(ext)s"@);
                    assert(ytdlp.anti_bot == default_anti_bot());
                    assert(output_file@ == output_template(self.output_dir@, info.title@));
                    let fmt = Some(final_format_spec(info.formats@, self.selected_format, self.url_input@));
                    assert(crate::yt_dlp::opt_view(Some(fstr)) == fmt);
                    let (ua, ce) = choose|ua: Seq<char>, ce: bool|
                        texts(args@) == #[trigger] download_args_spec(
                            ytdlp.anti_bot,
                            self.url_input@,
                            output_file@,
                            crate::yt_dlp::opt_view(Some(fstr)),
                            false,
                            false,
                            ua,
                            ce,
                        ) && match ytdlp.anti_bot.user_agent {
                            Some(u) => ua == u@,
                            None => exists|i: int| 0 <= i < USER_AGENT_COUNT && ua == builtin_user_agent(i),
                        };
                    assert(window_download_args(
                        texts(args@),
                        self.url_input@,
                        self.output_dir@,
                        *info,
                        self.selected_format,
                    ));
                }
                let cmd = Command::RunDownload {
                    output_dir: copy_string(&self.output_dir),
                    executable: copy_string(&self.ytdlp.executable),
                    args,
                    title,
                };
                self.is_downloading = true;
                self.download_percent = 0;
                self.status_message = string_of(chars_of("Connecting to server...").as_slice());
                self.error_message = None;
                cmd
            },
            None => {
                self.error_message = Some(string_of(chars_of("Please get video info first").as_slice()));
                Command::Nothing
            },
        }
    }

    /// Reports the outcome of saving the settings (`clearing` when the
    /// cookie file was being cleared).
    pub fn config_saved(&mut self, clearing: bool, result: Result<(), String>)
        ensures
            match result {
                Ok(()) => final(self).status_message@ == (if clearing {
                    "Cookie cleared!"@
                } else {
                    "Cookie saved successfully!"@
                }) && final(self).error_message == old(self).error_message,
                Err(e) => final(self).error_message matches Some(m) && m@ == (if clearing {
                    "Failed to clear: "@
                } else {
                    "Failed to save: "@
                }) + e@ && final(self).status_message == old(self).status_message,
            },
    {
        match result {
            Ok(()) => {
                self.status_message = if clearing {
                    string_of(chars_of("Cookie cleared!").as_slice())
                } else {
                    string_of(chars_of("Cookie saved successfully!").as_slice())
                };
            },
            Err(e) => {
                let mut out = if clearing {
                    chars_of("Failed to clear: ")
                } else {
                    chars_of("Failed to save: ")
                };
                append(&mut out, chars_of(e.as_str()).as_slice());
                self.error_message = Some(string_of(out.as_slice()));
            },
        }
    }
}

/// A copy of a tool description.
pub fn copy_ytdlp(y: &YtDlp) -> (r: YtDlp)
    ensures
        r == *y,
{
    YtDlp {
        executable: copy_string(&y.executable),
        anti_bot: AntiBotConfig {
            enabled: y.anti_bot.enabled,
            user_agent: copy_opt(&y.anti_bot.user_agent),
            cookie_file: copy_opt(&y.anti_bot.cookie_file),
            proxy: copy_opt(&y.anti_bot.proxy),
            skip_ssl_verify: y.anti_bot.skip_ssl_verify,
        },
    }
}

} // verus!
