//! Shared data types of the downloader and the text helpers built on them:
//! human-readable byte sizes and safe file names.

use crate::text::{
    append, chars_of, contains, contains_spec, decimal, digit_char, digit_to_char, push_decimal,
    starts_with_spec, string_of,
};
use vstd::prelude::*;

verus! {

/// The User-Agent sent when none is configured.
pub const DEFAULT_USER_AGENT: &'static str = "Mozilla/5.0 (Windows NT 10.0; Win64; x64) AppleWebKit/537.36 (KHTML, like Gecko) Chrome/131.0.0.0 Safari/537.36";

/// Information about one video.
#[derive(Clone, Debug)]
pub struct VideoInfo {
    pub title: String,
    pub description: Option<String>,
    pub uploader: Option<String>,
    /// Duration in seconds.
    pub duration: Option<u64>,
    pub url: String,
    pub thumbnail: Option<String>,
    pub formats: Vec<VideoFormat>,
    /// When the record was made, as RFC 3339 text.
    pub created_at: Option<String>,
}

/// One downloadable format of a video.
#[derive(Clone, Debug)]
pub struct VideoFormat {
    pub format_id: String,
    pub ext: String,
    pub resolution: Option<String>,
    /// Size in bytes.
    pub filesize: Option<u64>,
    pub bitrate: Option<u64>,
    pub codec: Option<String>,
    pub audio_only: bool,
    pub format_note: Option<String>,
}

/// The current time as RFC 3339 text, from `chrono::Utc::now().to_rfc3339()`.
///
/// Nothing is claimed of the text: it is read from the system clock.
#[verifier::external_body]
fn now_rfc3339() -> (r: String) {
    chrono::Utc::now().to_rfc3339()
}

impl VideoInfo {
    /// A record with only a title and URL, stamped with the current time.
    pub fn new(title: String, url: String) -> (r: VideoInfo)
        ensures
            r.title == title,
            r.url == url,
            r.description is None,
            r.uploader is None,
            r.duration is None,
            r.thumbnail is None,
            r.formats@.len() == 0,
            r.created_at is Some,
    {
        VideoInfo {
            title,
            description: None,
            uploader: None,
            duration: None,
            url,
            thumbnail: None,
            formats: Vec::new(),
            created_at: Some(now_rfc3339()),
        }
    }
}

/// A request to download one video.
#[derive(Clone, Debug)]
pub struct DownloadRequest {
    pub url: String,
    pub output_path: String,
    pub format_id: Option<String>,
    pub audio_only: bool,
    pub download_subtitles: bool,
    pub user_agent: Option<String>,
    pub cookie_file: Option<String>,
}

impl DownloadRequest {
    /// A request for `url` into `output_path` with every option off.
    pub fn new(url: &str, output_path: &str) -> (r: DownloadRequest)
        ensures
            r.url@ == url@,
            r.output_path@ == output_path@,
            r.format_id is None,
            !r.audio_only,
            !r.download_subtitles,
            r.user_agent is None,
            r.cookie_file is None,
    {
        DownloadRequest {
            url: url.to_owned(),
            output_path: output_path.to_owned(),
            format_id: None,
            audio_only: false,
            download_subtitles: false,
            user_agent: None,
            cookie_file: None,
        }
    }

    /// The same request with a format id.
    pub fn with_format_id(self, format_id: String) -> (r: DownloadRequest)
        ensures
            r == (DownloadRequest { format_id: Some(format_id), ..self }),
    {
        DownloadRequest { format_id: Some(format_id), ..self }
    }

    /// The same request for audio only.
    pub fn audio_only(self) -> (r: DownloadRequest)
        ensures
            r == (DownloadRequest { audio_only: true, ..self }),
    {
        DownloadRequest { audio_only: true, ..self }
    }

    /// The same request with subtitles.
    pub fn with_subtitles(self) -> (r: DownloadRequest)
        ensures
            r == (DownloadRequest { download_subtitles: true, ..self }),
    {
        DownloadRequest { download_subtitles: true, ..self }
    }

    /// The same request with a User-Agent.
    pub fn with_user_agent(self, user_agent: String) -> (r: DownloadRequest)
        ensures
            r == (DownloadRequest { user_agent: Some(user_agent), ..self }),
    {
        DownloadRequest { user_agent: Some(user_agent), ..self }
    }

    /// The same request with a cookie file.
    pub fn with_cookie_file(self, cookie_file: String) -> (r: DownloadRequest)
        ensures
            r == (DownloadRequest { cookie_file: Some(cookie_file), ..self }),
    {
        DownloadRequest { cookie_file: Some(cookie_file), ..self }
    }
}

/// State of a download.
#[derive(Clone, Copy, Debug, PartialEq, Eq, Structural)]
pub enum DownloadStatus {
    Pending,
    Preparing,
    Downloading,
    Completed,
    Paused,
    Failed,
    Cancelled,
}

impl DownloadStatus {
    /// A download in this state will not change any more.
    pub open spec fn terminal(self) -> bool {
        self == DownloadStatus::Completed || self == DownloadStatus::Failed || self
            == DownloadStatus::Cancelled
    }

    /// A download in this state is under way.
    pub open spec fn active(self) -> bool {
        self == DownloadStatus::Downloading || self == DownloadStatus::Preparing
    }

    /// Whether the download has finished for good (completed, failed or cancelled).
    pub fn is_terminal(&self) -> (r: bool)
        ensures
            r == self.terminal(),
    {
        match self {
            DownloadStatus::Completed | DownloadStatus::Failed | DownloadStatus::Cancelled => true,
            _ => false,
        }
    }

    /// Whether the download is being prepared or is downloading.
    pub fn is_active(&self) -> (r: bool)
        ensures
            r == self.active(),
    {
        match self {
            DownloadStatus::Downloading | DownloadStatus::Preparing => true,
            _ => false,
        }
    }

    /// The label shown to users.
    pub open spec fn label_spec(self) -> Seq<char> {
        match self {
            DownloadStatus::Pending => "等待中"@,
            DownloadStatus::Preparing => "准备中"@,
            DownloadStatus::Downloading => "下载中"@,
            DownloadStatus::Completed => "已完成"@,
            DownloadStatus::Paused => "已暂停"@,
            DownloadStatus::Failed => "失败"@,
            DownloadStatus::Cancelled => "已取消"@,
        }
    }

    /// The label shown to users.
    pub fn label(&self) -> (r: String)
        ensures
            r@ == self.label_spec(),
    {
        let s: &str = match self {
            DownloadStatus::Pending => "等待中",
            DownloadStatus::Preparing => "准备中",
            DownloadStatus::Downloading => "下载中",
            DownloadStatus::Completed => "已完成",
            DownloadStatus::Paused => "已暂停",
            DownloadStatus::Failed => "失败",
            DownloadStatus::Cancelled => "已取消",
        };
        s.to_owned()
    }
}

/// No state is both finished and under way.
pub proof fn lemma_terminal_not_active(s: DownloadStatus)
    ensures
        !(s.terminal() && s.active()),
{
}

// ---------------------------------------------------------------------------
// Byte sizes
// ---------------------------------------------------------------------------

/// 2 to the power `e`.
pub open spec fn pow2(e: nat) -> nat
    decreases e,
{
    if e == 0 {
        1
    } else {
        2 * pow2((e - 1) as nat)
    }
}

/// 2^53: integers below it are exact as `f64`.
pub open spec fn f64_exact_limit() -> nat {
    0x20_0000_0000_0000
}

/// How many low bits of `b` fall outside the 53-bit significand of an `f64`.
pub open spec fn dropped_bits(b: nat) -> nat
    decreases b,
{
    if b < f64_exact_limit() {
        0
    } else {
        1 + dropped_bits(b / 2)
    }
}

/// `b` rounded to a multiple of `m`, ties to an even quotient.
pub open spec fn round_to_multiple(b: nat, m: nat) -> nat
    recommends
        m > 0,
{
    let q = b / m;
    let r = b % m;
    if 2 * r > m || (2 * r == m && q % 2 == 1) {
        (q + 1) * m
    } else {
        q * m
    }
}

/// The value of `b as f64` (round to nearest, ties to even).
pub open spec fn as_f64(b: nat) -> nat {
    round_to_multiple(b, pow2(dropped_bits(b)))
}

/// 1024 to the power `k`.
pub open spec fn kib_pow(k: nat) -> nat
    decreases k,
{
    if k == 0 {
        1
    } else {
        1024 * kib_pow((k - 1) as nat)
    }
}

/// The unit a size is shown in: the largest `k <= 4` with `size >= 1024^k`.
pub open spec fn unit_index(size: nat) -> nat {
    if size >= kib_pow(4) {
        4
    } else if size >= kib_pow(3) {
        3
    } else if size >= kib_pow(2) {
        2
    } else if size >= kib_pow(1) {
        1
    } else {
        0
    }
}

/// The name of unit `k`.
pub open spec fn unit_name(k: nat) -> Seq<char> {
    if k == 0 {
        "B"@
    } else if k == 1 {
        "KB"@
    } else if k == 2 {
        "MB"@
    } else if k == 3 {
        "GB"@
    } else {
        "TB"@
    }
}

/// `size / 1024^k` in tenths, rounded to nearest with ties to even (as
/// `format!("{:.1}")` rounds the exact value of an `f64`).
pub open spec fn tenths(size: nat, k: nat) -> nat {
    round_to_multiple(10 * size, kib_pow(k)) / kib_pow(k)
}

/// The text `format_bytes` gives for `bytes`: below 1024 the exact count and
/// ` B`; otherwise `bytes as f64` in the largest unit up to TB, with one
/// decimal.
pub open spec fn format_bytes_spec(bytes: u64) -> Seq<char> {
    let size = as_f64(bytes as nat);
    let k = unit_index(size);
    if k == 0 {
        decimal(bytes as nat) + " "@ + unit_name(0)
    } else {
        let t = tenths(size, k);
        decimal(t / 10) + "."@ + seq![digit_char(t % 10)] + " "@ + unit_name(k)
    }
}

proof fn lemma_pow2_positive(e: nat)
    ensures
        pow2(e) >= 1,
    decreases e,
{
    if e > 0 {
        lemma_pow2_positive((e - 1) as nat);
    }
}

proof fn lemma_dropped_bits_quotient(b: nat)
    ensures
        b / pow2(dropped_bits(b)) < f64_exact_limit(),
    decreases b,
{
    if b >= f64_exact_limit() {
        lemma_dropped_bits_quotient(b / 2);
        let e = dropped_bits(b / 2);
        lemma_pow2_positive(e);
        assert(pow2(1 + e) == 2 * pow2(e));
        vstd::arithmetic::div_mod::lemma_div_denominator(b as int, 2, pow2(e) as int);
    }
}

proof fn lemma_dropped_bits_at_most(b: nat, j: nat)
    requires
        b < f64_exact_limit() * pow2(j),
    ensures
        dropped_bits(b) <= j,
    decreases b,
{
    if b >= f64_exact_limit() {
        if j == 0 {
            assert(false);
        } else {
            let jj = (j - 1) as nat;
            assert(pow2(j) == 2 * pow2(jj));
            assert(b / 2 < f64_exact_limit() * pow2(jj)) by (nonlinear_arith)
                requires
                    b < f64_exact_limit() * (2 * pow2(jj)),
            ;
            lemma_dropped_bits_at_most(b / 2, jj);
        }
    }
}

proof fn lemma_dropped_bits_bound(b: nat)
    requires
        b <= u64::MAX,
    ensures
        dropped_bits(b) <= 11,
        b / pow2(dropped_bits(b)) < f64_exact_limit(),
{
    lemma_dropped_bits_quotient(b);
    assert(pow2(11) == 2048) by {
        reveal_with_fuel(pow2, 12);
    }
    lemma_dropped_bits_at_most(b, 11);
}

/// The significand step of `b as f64`: `2^dropped_bits(b)`, computed together
/// with `b / 2^dropped_bits(b)`.
fn f64_step(b: u64) -> (r: (u128, u128))
    ensures
        r.0 == pow2(dropped_bits(b as nat)),
        r.1 as nat == (b as nat) / pow2(dropped_bits(b as nat)),
        1 <= r.0 <= 2048,
        r.1 < f64_exact_limit(),
{
    let mut m: u128 = 1;
    let mut t: u128 = b as u128;
    let ghost mut e: nat = 0;
    proof {
        lemma_dropped_bits_bound(b as nat);
    }
    while t >= 0x20_0000_0000_0000
        invariant
            m == pow2(e),
            t as nat == (b as nat) / (m as nat),
            dropped_bits(b as nat) == e + dropped_bits(t as nat),
            dropped_bits(b as nat) <= 11,
            m >= 1,
        decreases t,
    {
        proof {
            vstd::arithmetic::div_mod::lemma_div_denominator(b as int, m as int, 2);
            assert(pow2(e + 1) == 2 * pow2(e));
            lemma_pow2_le_2048(e);
        }
        t = t / 2;
        m = m * 2;
        proof {
            e = e + 1;
        }
    }
    proof {
        assert(dropped_bits(t as nat) == 0);
        lemma_dropped_bits_bound(b as nat);
        lemma_pow2_le_2048(e);
        lemma_pow2_positive(e);
    }
    (m, t)
}

proof fn lemma_pow2_le_2048(e: nat)
    requires
        e <= 11,
    ensures
        pow2(e) <= 2048,
{
    assert(pow2(0) == 1 && pow2(1) == 2 && pow2(2) == 4 && pow2(3) == 8 && pow2(4) == 16 && pow2(5)
        == 32 && pow2(6) == 64 && pow2(7) == 128 && pow2(8) == 256 && pow2(9) == 512 && pow2(10)
        == 1024 && pow2(11) == 2048) by {
        reveal_with_fuel(pow2, 12);
    }
    if e > 0 {
        assert(pow2(e) <= pow2(11)) by {
            lemma_pow2_monotone(e, 11);
        }
    }
}

proof fn lemma_pow2_monotone(a: nat, b: nat)
    requires
        a <= b,
    ensures
        pow2(a) <= pow2(b),
    decreases b,
{
    if a < b {
        lemma_pow2_monotone(a, (b - 1) as nat);
        lemma_pow2_positive((b - 1) as nat);
    }
}

/// Rounds `x` to a multiple of `m`, ties to an even quotient.
fn round_multiple(x: u128, m: u128) -> (r: u128)
    requires
        1 <= m <= 2048,
        x <= 0xFFFF_FFFF_FFFF_FFFF,
    ensures
        r == round_to_multiple(x as nat, m as nat),
        r <= x + m,
{
    let q = x / m;
    let rem = x % m;
    assert(q * m <= x) by (nonlinear_arith)
        requires
            q == x / m,
            m > 0,
    ;
    assert((q + 1) * m <= x + m) by (nonlinear_arith)
        requires
            q * m <= x,
    ;
    if 2 * rem > m || (2 * rem == m && q % 2 == 1) {
        (q + 1) * m
    } else {
        q * m
    }
}

/// `size / 1024^k` in tenths, rounded half to even.
fn tenths_exec(size: u128, d: u128, Ghost(k): Ghost<nat>) -> (t: u64)
    requires
        size <= 0x1_0000_0000_0000_0800,
        d == kib_pow(k),
        1024 <= d,
    ensures
        t == tenths(size as nat, k),
{
    let v = 10 * size;
    let q = v / d;
    let rem = v % d;
    assert(q <= v / 1024) by {
        vstd::arithmetic::div_mod::lemma_div_is_ordered_by_denominator(v as int, 1024, d as int);
    }
    assert(v / 1024 <= 0x1000_0000_0000_0000);
    proof {
        vstd::arithmetic::div_mod::lemma_fundamental_div_mod(v as int, d as int);
        let r = round_to_multiple(v as nat, d as nat);
        if 2 * rem > d || (2 * rem == d && q % 2 == 1) {
            assert(r == (q + 1) * d);
            vstd::arithmetic::div_mod::lemma_div_multiples_vanish((q + 1) as int, d as int);
            assert(((d as int) * (q + 1)) / (d as int) == q + 1);
            assert((r as int) / (d as int) == q + 1) by (nonlinear_arith)
                requires
                    r == (q + 1) * d,
                    ((d as int) * (q + 1)) / (d as int) == q + 1,
            ;
        } else {
            assert(r == q * d);
            vstd::arithmetic::div_mod::lemma_div_multiples_vanish(q as int, d as int);
            assert((r as int) / (d as int) == q) by (nonlinear_arith)
                requires
                    r == q * d,
                    ((d as int) * (q as int)) / (d as int) == q,
            ;
        }
    }
    if 2 * rem > d || (2 * rem == d && q % 2 == 1) {
        (q + 1) as u64
    } else {
        q as u64
    }
}

/// `1024^k` for `k <= 4`.
fn kib_pow_exec(k: u32) -> (r: u128)
    requires
        k <= 4,
    ensures
        r == kib_pow(k as nat),
{
    assert(kib_pow(0) == 1 && kib_pow(1) == 1024 && kib_pow(2) == 1048576 && kib_pow(3)
        == 1073741824 && kib_pow(4) == 1099511627776) by {
        reveal_with_fuel(kib_pow, 5);
    }
    if k == 0 {
        1
    } else if k == 1 {
        1024
    } else if k == 2 {
        1048576
    } else if k == 3 {
        1073741824
    } else {
        1099511627776
    }
}

/// Formats a byte count for people: `0 B`, `1.5 KB`, `1.0 MB`, up to TB.
pub fn format_bytes(bytes: u64) -> (r: String)
    ensures
        r@ == format_bytes_spec(bytes),
{
    let (m, _) = f64_step(bytes);
    let size = round_multiple(bytes as u128, m);
    assert(kib_pow(1) == 1024 && kib_pow(2) == 1048576 && kib_pow(3) == 1073741824 && kib_pow(4)
        == 1099511627776) by {
        reveal_with_fuel(kib_pow, 5);
    }
    let k: u32 = if size >= 1099511627776 {
        4
    } else if size >= 1073741824 {
        3
    } else if size >= 1048576 {
        2
    } else if size >= 1024 {
        1
    } else {
        0
    };
    assert(k as nat == unit_index(size as nat));
    let mut out: Vec<char> = Vec::new();
    if k == 0 {
        push_decimal(&mut out, bytes);
        out.push(' ');
        out.push('B');
        proof {
            reveal_strlit(" ");
            reveal_strlit("B");
        }
        assert(out@ =~= format_bytes_spec(bytes));
    } else {
        let d = kib_pow_exec(k);
        let t = tenths_exec(size, d, Ghost(k as nat));
        let whole: u64 = t / 10;
        push_decimal(&mut out, whole);
        out.push('.');
        out.push(digit_to_char((t % 10) as u8));
        out.push(' ');
        let unit: &str = if k == 1 {
            "KB"
        } else if k == 2 {
            "MB"
        } else if k == 3 {
            "GB"
        } else {
            "TB"
        };
        append(&mut out, chars_of(unit).as_slice());
        proof {
            reveal_strlit(" ");
            reveal_strlit(".");
            assert(unit@ == unit_name(k as nat));
        }
        assert(out@ =~= format_bytes_spec(bytes));
    }
    string_of(out.as_slice())
}

// ---------------------------------------------------------------------------
// File names
// ---------------------------------------------------------------------------

/// What `char::is_alphanumeric` answers for `c` (Unicode alphabetic or numeric).
pub uninterp spec fn char_is_alphanumeric(c: char) -> bool;

/// An ASCII letter or digit.
pub open spec fn is_ascii_alphanumeric(c: char) -> bool {
    (48 <= (c as u32) && (c as u32) <= 57) || (65 <= (c as u32) && (c as u32) <= 90) || (97 <= (
    c as u32) && (c as u32) <= 122)
}

/// `char::is_alphanumeric`.
///
/// The contract names the answer and claims what the standard library
/// documents for ASCII: exactly the ASCII letters and digits are
/// alphanumeric.
#[verifier::external_body]
fn is_alphanumeric(c: char) -> (r: bool)
    ensures
        r == char_is_alphanumeric(c),
        (c as u32) < 128 ==> (r <==> is_ascii_alphanumeric(c)),
{
    c.is_alphanumeric()
}

/// Longest file name `sanitize_filename` produces, in characters.
pub const MAX_FILENAME_CHARS: usize = 200;

/// What `char::is_alphanumeric` answers: the ASCII letters and digits
/// among ASCII characters, `char_is_alphanumeric` beyond.
pub open spec fn is_alphanumeric_char(c: char) -> bool {
    if (c as u32) < 128 {
        is_ascii_alphanumeric(c)
    } else {
        char_is_alphanumeric(c)
    }
}

/// A character kept as is in a file name.
pub open spec fn kept_in_filename(c: char) -> bool {
    is_alphanumeric_char(c) || c == '-' || c == '_' || c == '.'
}

/// A name that could escape the target directory: it holds `..` or starts
/// with `/`, `\` or `~`.
pub open spec fn has_path_traversal(name: Seq<char>) -> bool {
    ||| contains_spec(name, ".."@)
    ||| starts_with_spec(name, "/"@)
    ||| starts_with_spec(name, "\\"@)
    ||| starts_with_spec(name, "~"@)
}

/// The file name made from `name`: `video` for a name that could escape the
/// directory; otherwise the first 200 characters with every character other
/// than letters, digits, `-`, `_` and `.` replaced by `_`, or `video` when
/// that leaves nothing.
pub open spec fn sanitize_filename_spec(name: Seq<char>) -> Seq<char> {
    if has_path_traversal(name) {
        "video"@
    } else {
        let n = if name.len() < MAX_FILENAME_CHARS {
            name.len()
        } else {
            MAX_FILENAME_CHARS as nat
        };
        let mapped = Seq::new(
            n,
            |i: int|
                if kept_in_filename(name[i]) {
                    name[i]
                } else {
                    '_'
                },
        );
        if mapped.len() == 0 {
            "video"@
        } else {
            mapped
        }
    }
}

/// Turns a title into a safe file name (see `sanitize_filename_spec`).
pub fn sanitize_filename(name: &str) -> (r: String)
    ensures
        r@ == sanitize_filename_spec(name@),
        r@.len() <= MAX_FILENAME_CHARS,
        r@.len() > 0,
{
    let s = chars_of(name);
    let dots = chars_of("..");
    proof {
        reveal_strlit("..");
        reveal_strlit("/");
        reveal_strlit("\\");
        reveal_strlit("~");
        reveal_strlit("video");
    }
    let traversal = contains(s.as_slice(), dots.as_slice()) || (s.len() > 0 && (s[0] == '/'
        || s[0] == '\\' || s[0] == '~'));
    assert(traversal == has_path_traversal(name@)) by {
        if s@.len() > 0 {
            assert(starts_with_spec(s@, "/"@) <==> s@[0] == '/') by {
                reveal_strlit("/");
                assert("/"@ =~= seq!['/']);
                assert(s@.subrange(0, 1) =~= seq![s@[0]]);
                assert(s@.subrange(0, 1)[0] == s@[0]);
            }
            assert(starts_with_spec(s@, "\\"@) <==> s@[0] == '\\') by {
                reveal_strlit("\\");
                assert("\\"@ =~= seq!['\\']);
                assert(s@.subrange(0, 1) =~= seq![s@[0]]);
                assert(s@.subrange(0, 1)[0] == s@[0]);
            }
            assert(starts_with_spec(s@, "~"@) <==> s@[0] == '~') by {
                reveal_strlit("~");
                assert("~"@ =~= seq!['~']);
                assert(s@.subrange(0, 1) =~= seq![s@[0]]);
                assert(s@.subrange(0, 1)[0] == s@[0]);
            }
        }
    }
    if traversal {
        return "video".to_owned();
    }
    let n: usize = if s.len() < MAX_FILENAME_CHARS {
        s.len()
    } else {
        MAX_FILENAME_CHARS
    };
    let mut out: Vec<char> = Vec::new();
    let mut i: usize = 0;
    while i < n
        invariant
            i <= n <= s.len(),
            n <= MAX_FILENAME_CHARS,
            out@.len() == i,
            forall|j: int|
                0 <= j < i ==> #[trigger] out@[j] == (if kept_in_filename(s@[j]) {
                    s@[j]
                } else {
                    '_'
                }),
        decreases n - i,
    {
        let c = s[i];
        let keep = is_alphanumeric(c) || c == '-' || c == '_' || c == '.';
        if keep {
            out.push(c);
        } else {
            out.push('_');
        }
        i = i + 1;
    }
    if out.len() == 0 {
        return "video".to_owned();
    }
    let ghost expected = sanitize_filename_spec(name@);
    assert(out@ =~= expected);
    string_of(out.as_slice())
}

/// A sanitized name is safe and stays as it is when sanitized again: it has
/// 1 to 200 characters, each a letter, digit, `-`, `_` or `.`; it holds no
/// `..` and does not start with `/`, `\` or `~`.
pub proof fn lemma_sanitized_name_is_safe(name: Seq<char>)
    ensures
        1 <= sanitize_filename_spec(name).len() <= MAX_FILENAME_CHARS,
        forall|i: int|
            0 <= i < sanitize_filename_spec(name).len() ==> kept_in_filename(
                #[trigger] sanitize_filename_spec(name)[i],
            ),
        !has_path_traversal(sanitize_filename_spec(name)),
        sanitize_filename_spec(sanitize_filename_spec(name)) == sanitize_filename_spec(name),
{
    reveal_strlit("video");
    reveal_strlit("..");
    reveal_strlit("/");
    reveal_strlit("\\");
    reveal_strlit("~");
    let r = sanitize_filename_spec(name);
    assert(forall|i: int| 0 <= i < r.len() ==> kept_in_filename(#[trigger] r[i]));
    if contains_spec(r, ".."@) {
        let i = choose|i: int| 0 <= i && i + 2 <= r.len() && #[trigger] r.subrange(i, i + 2) == ".."@;
        assert(r.subrange(i, i + 2)[0] == '.' && r.subrange(i, i + 2)[1] == '.');
        assert(r[i] == '.' && r[i + 1] == '.');
        if r != "video"@ {
            assert(name[i] == '.' && name[i + 1] == '.');
            assert(name.subrange(i, i + 2) =~= ".."@);
            assert(contains_spec(name, ".."@));
        }
        assert(false);
    }
    assert(!has_path_traversal(r)) by {
        if r.len() > 0 {
            assert(starts_with_spec(r, "/"@) ==> r[0] == '/') by {
                assert(r.subrange(0, 1)[0] == r[0]);
            }
            assert(starts_with_spec(r, "\\"@) ==> r[0] == '\\') by {
                assert(r.subrange(0, 1)[0] == r[0]);
            }
            assert(starts_with_spec(r, "~"@) ==> r[0] == '~') by {
                assert(r.subrange(0, 1)[0] == r[0]);
            }
            if r != "video"@ {
                assert(name.len() > 0);
                assert(starts_with_spec(name, "/"@) <== name[0] == '/') by {
                    assert("/"@ =~= seq!['/']);
                    assert(name.subrange(0, 1) =~= seq![name[0]]);
                }
                assert(starts_with_spec(name, "\\"@) <== name[0] == '\\') by {
                    assert("\\"@ =~= seq!['\\']);
                    assert(name.subrange(0, 1) =~= seq![name[0]]);
                }
                assert(starts_with_spec(name, "~"@) <== name[0] == '~') by {
                    assert("~"@ =~= seq!['~']);
                    assert(name.subrange(0, 1) =~= seq![name[0]]);
                }
            }
        }
    }
    let again = Seq::new(
        r.len(),
        |i: int|
            if kept_in_filename(r[i]) {
                r[i]
            } else {
                '_'
            },
    );
    assert(again =~= r);
}

} // verus!
