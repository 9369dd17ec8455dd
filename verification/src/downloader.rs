//! Settings and planning of direct HTTP downloads.
//!
//! The application performs the requests; the retry schedule and the split
//! of a large file into parallel segments are decided here.

use vstd::arithmetic::power2::{lemma2_to64_rest, lemma_pow2_strictly_increases, lemma_pow2_unfold, pow2};
use crate::collaboration::transfer::downloader::open_range_header;
use crate::rounding::{decimal_numerator, decimal_to_u64, nearest_binary64, pow10, truncate_to_u64};
use crate::text::{
    all_ascii_digits, all_digits, before_char, before_char_spec, char_is_numeric, chars_of,
    contains, contains_spec, decimal, first_word, first_word_spec, has_char, is_numeric,
    last_word, last_word_spec, parse_u64, parse_u64_spec, second_piece, second_piece_spec,
    slice_chars, split_once, split_once_spec, string_of,
};
use vstd::prelude::*;

verus! {

/// Files larger than this (10 MiB) are fetched in parallel segments.
pub const PARALLEL_THRESHOLD: u64 = 10 * 1024 * 1024;

/// Settings of the direct downloader.
#[derive(Clone, Debug)]
pub struct DownloaderConfig {
    /// Connection timeout in seconds.
    pub connect_timeout: u64,
    /// Request timeout in seconds.
    pub request_timeout: u64,
    /// Attempts per download.
    pub retry_count: u32,
    /// Longest pause between attempts, in seconds.
    pub retry_max_delay: u64,
    /// Read buffer size in bytes.
    pub chunk_size: usize,
    pub user_agent: Option<String>,
    pub proxy: Option<String>,
    pub pool_max_idle_per_host: usize,
    pub http2: bool,
    /// TCP keep-alive in seconds.
    pub tcp_keepalive: u64,
    /// Parallel segments for large files (0 disables them).
    pub parallel_segments: u32,
}

impl Default for DownloaderConfig {
    fn default() -> (r: DownloaderConfig)
        ensures
            r.connect_timeout == 30,
            r.request_timeout == 600,
            r.retry_count == 5,
            r.retry_max_delay == 30,
            r.chunk_size == 1024 * 1024,
            r.user_agent is None,
            r.proxy is None,
            r.pool_max_idle_per_host == 10,
            r.http2,
            r.tcp_keepalive == 60,
            r.parallel_segments == 4,
    {
        DownloaderConfig {
            connect_timeout: 30,
            request_timeout: 600,
            retry_count: 5,
            retry_max_delay: 30,
            chunk_size: 1024 * 1024,
            user_agent: None,
            proxy: None,
            pool_max_idle_per_host: 10,
            http2: true,
            tcp_keepalive: 60,
            parallel_segments: 4,
        }
    }
}

/// The pause before attempt `attempt` (counting from 0): none before the
/// first, then 1, 2, 4, ... seconds, capped at `max_delay`.
pub open spec fn retry_delay_spec(attempt: u32, max_delay: u64) -> nat {
    if attempt == 0 {
        0
    } else if pow2((attempt - 1) as nat) < max_delay {
        pow2((attempt - 1) as nat)
    } else {
        max_delay as nat
    }
}

/// The pause in seconds before attempt `attempt` (exponential back-off).
pub fn retry_delay_secs(attempt: u32, max_delay: u64) -> (r: u64)
    requires
        attempt <= 64,
    ensures
        r == retry_delay_spec(attempt, max_delay),
{
    if attempt == 0 {
        return 0;
    }
    let mut p: u64 = 1;
    let mut i: u32 = 1;
    proof {
        lemma2_to64_rest();
        vstd::arithmetic::power2::lemma2_to64();
    }
    while i < attempt
        invariant
            1 <= i <= attempt <= 64,
            p == pow2((i - 1) as nat),
            pow2(63) == 0x8000_0000_0000_0000,
        decreases attempt - i,
    {
        proof {
            lemma_pow2_unfold(i as nat);
            if i < 63 {
                lemma_pow2_strictly_increases(i as nat, 63);
            }
        }
        p = p * 2;
        i = i + 1;
    }
    if p < max_delay {
        p
    } else {
        max_delay
    }
}

/// Whether a file of `total_size` bytes is fetched in parallel segments:
/// The attempt number used for the pause: `attempt`, at most 64.
pub open spec fn capped_attempt(attempt: u32) -> u32 {
    if attempt <= 64 {
        attempt
    } else {
        64
    }
}

/// The step of the retry loop before attempt `attempt` (counting from 0) of
/// a download allowed `retry_count` attempts: `None` when no attempt is
/// left, else the pause before it (none before the first, then 1, 2, 4, ...
/// seconds, capped at `max_delay`).
pub fn attempt_delay(attempt: u32, retry_count: u32, max_delay: u64) -> (r: Option<u64>)
    ensures
        attempt >= retry_count ==> r is None,
        attempt < retry_count ==> r == Some(retry_delay_spec(capped_attempt(attempt), max_delay) as u64),
{
    if attempt >= retry_count {
        return None;
    }
    let capped: u32 = if attempt <= 64 {
        attempt
    } else {
        64
    };
    Some(retry_delay_secs(capped, max_delay))
}

/// The pause after failed try `attempt` (counting from 0) of one segment of
/// a parallel download: `2^attempt` seconds, with the exponent capped at 63.
pub fn segment_retry_delay(attempt: u32) -> (r: u64)
    ensures
        r == retry_delay_spec(if attempt < 64 { (attempt + 1) as u32 } else { 64u32 }, u64::MAX),
{
    let next: u32 = if attempt < 64 {
        attempt + 1
    } else {
        64
    };
    retry_delay_secs(next, u64::MAX)
}

/// its size is known, segments are enabled and it exceeds 10 MiB.
pub fn use_parallel(total_size: Option<u64>, parallel_segments: u32) -> (r: bool)
    ensures
        r == (total_size matches Some(s) && parallel_segments > 0 && s > PARALLEL_THRESHOLD),
{
    match total_size {
        Some(s) => parallel_segments > 0 && s > PARALLEL_THRESHOLD,
        None => false,
    }
}

/// The byte range of segment `i` of `segments`, each `chunk_size` long,
/// the last one ending at the end of the file.
pub open spec fn segment_range(i: int, segments: int, chunk_size: int, total_size: int) -> (int, int) {
    (i * chunk_size, if i == segments - 1 {
        total_size - 1
    } else {
        (i + 1) * chunk_size - 1
    })
}

/// The inclusive byte ranges of the parallel segments of a file.
pub fn segment_ranges(total_size: u64, segments: u32, chunk_size: u64) -> (r: Vec<(u64, u64)>)
    requires
        total_size > 0,
        segments >= 1,
        chunk_size >= 1,
        (segments as int) * (chunk_size as int) <= u64::MAX,
    ensures
        r@.len() == segments,
        forall|i: int|
            0 <= i < segments ==> (#[trigger] r@[i]).0 == segment_range(i, segments as int, chunk_size as int, total_size as int).0
                && r@[i].1 == segment_range(i, segments as int, chunk_size as int, total_size as int).1,
        r@[0].0 == 0,
        forall|i: int| 0 <= i < segments - 1 ==> (#[trigger] r@[i + 1]).0 == r@[i].1 + 1,
        r@[segments - 1].1 == total_size - 1,
{
    let mut r: Vec<(u64, u64)> = Vec::new();
    let mut i: u32 = 0;
    while i < segments
        invariant
            i <= segments,
            r@.len() == i,
            segments >= 1,
            chunk_size >= 1,
            (segments as int) * (chunk_size as int) <= u64::MAX,
            total_size > 0,
            forall|j: int|
                0 <= j < i ==> (#[trigger] r@[j]).0 == segment_range(j, segments as int, chunk_size as int, total_size as int).0
                    && r@[j].1 == segment_range(j, segments as int, chunk_size as int, total_size as int).1,
        decreases segments - i,
    {
        assert((i as int + 1) * (chunk_size as int) <= (segments as int) * (chunk_size as int)) by (nonlinear_arith)
            requires
                i < segments,
                chunk_size >= 1,
        ;
        assert((i as int) * (chunk_size as int) <= (i as int + 1) * (chunk_size as int)) by (nonlinear_arith)
            requires
                chunk_size >= 1,
        ;
        assert((i as int + 1) * (chunk_size as int) >= 1) by (nonlinear_arith)
            requires
                chunk_size >= 1,
        ;
        let start = (i as u64) * chunk_size;
        let end = if i == segments - 1 {
            total_size - 1
        } else {
            ((i as u64) + 1) * chunk_size - 1
        };
        r.push((start, end));
        i = i + 1;
    }
    r
}

/// The `Range` header of a resumed download: from byte `resume_from` on,
/// and none when starting from the beginning.
pub fn resume_range_header(resume_from: u64) -> (r: Option<String>)
    ensures
        resume_from == 0 ==> r is None,
        resume_from > 0 ==> (r matches Some(h) && h@ == "bytes="@ + decimal(resume_from as nat) + "-"@),
{
    if resume_from > 0 {
        Some(open_range_header(resume_from))
    } else {
        None
    }
}

/// The size announced by a `Content-Length` header: its text read as a
/// number, where the header is present and readable.
pub fn content_length_from(header: Option<&str>) -> (r: Option<u64>)
    ensures
        r == (match header {
            Some(h) => parse_u64_spec(h@),
            None => None,
        }),
{
    match header {
        Some(h) => parse_u64(chars_of(h).as_slice()),
        None => None,
    }
}

/// Whether `c` may belong to the number at the start of a size: a numeric
/// character or a point.
pub open spec fn is_number_char(c: char) -> bool {
    char_is_numeric(c) || c == '.'
}

/// Length of the run of number characters at the start of `s`.
pub open spec fn number_run(s: Seq<char>) -> nat
    decreases s.len(),
{
    if s.len() > 0 && is_number_char(s[0]) {
        1 + number_run(s.drop_first())
    } else {
        0
    }
}

proof fn lemma_number_run_step(s: Seq<char>, i: int)
    requires
        0 <= i <= s.len(),
        forall|j: int| 0 <= j < i ==> is_number_char(#[trigger] s[j]),
    ensures
        number_run(s) == i + number_run(s.subrange(i, s.len() as int)),
    decreases i,
{
    if i > 0 {
        assert(is_number_char(s[0]));
        assert(s.drop_first().subrange(i - 1, s.len() - 1) =~= s.subrange(i, s.len() as int));
        assert forall|j: int| 0 <= j < i - 1 implies is_number_char(#[trigger] s.drop_first()[j]) by {
            assert(s.drop_first()[j] == s[j + 1]);
        }
        lemma_number_run_step(s.drop_first(), i - 1);
    } else {
        assert(s.subrange(0, s.len() as int) =~= s);
    }
}

/// The digits before and after the first point of `t` (all of `t` and
/// nothing when it has no point).
pub open spec fn decimal_parts(t: Seq<char>) -> (Seq<char>, Seq<char>) {
    match split_once_spec(t, '.') {
        Some((a, b)) => (a, b),
        None => (t, Seq::empty()),
    }
}

/// What `str::parse::<f64>` accepts among such runs: digits, at most one
/// point, and at least one digit.
pub open spec fn is_decimal_text(t: Seq<char>) -> bool {
    let (a, b) = decimal_parts(t);
    all_digits(a) && all_digits(b) && a.len() + b.len() > 0
}

/// The binary unit named in a size: 10 for `KiB`, 20 for `MiB`, 30 for
/// `GiB`, checked in that order, else 0.
pub open spec fn size_unit_shift(s: Seq<char>) -> nat {
    if contains_spec(s, seq!['K', 'i', 'B']) {
        10
    } else if contains_spec(s, seq!['M', 'i', 'B']) {
        20
    } else if contains_spec(s, seq!['G', 'i', 'B']) {
        30
    } else {
        0
    }
}

/// A size such as `100.00MiB` in bytes: the leading number read as a
/// binary64 value, times the unit, converted with `as u64`; `None` when the
/// leading number does not parse.
pub open spec fn parse_size_spec(s: Seq<char>) -> Option<u64> {
    let t = s.subrange(0, number_run(s) as int);
    if is_decimal_text(t) {
        let (a, b) = decimal_parts(t);
        Some(truncate_to_u64(nearest_binary64(decimal_numerator(a, b), pow10(b.len())), size_unit_shift(s)))
    } else {
        None
    }
}

/// Parses a transfer size printed by yt-dlp, such as `100.00MiB`, into bytes.
pub fn parse_size(s: &str) -> (r: Option<u64>)
    ensures
        r == parse_size_spec(s@),
{
    let cs = chars_of(s);
    parse_size_chars(cs.as_slice())
}

/// `parse_size` on characters.
pub fn parse_size_chars(cs: &[char]) -> (r: Option<u64>)
    ensures
        r == parse_size_spec(cs@),
{
    let mut n: usize = 0;
    while n < cs.len() && (is_numeric(cs[n]) || cs[n] == '.')
        invariant
            n <= cs@.len(),
            forall|j: int| 0 <= j < n ==> is_number_char(#[trigger] cs@[j]),
        decreases cs@.len() - n,
    {
        n = n + 1;
    }
    proof {
        lemma_number_run_step(cs@, n as int);
        if n < cs.len() {
            assert(!is_number_char(cs@.subrange(n as int, cs@.len() as int)[0]));
        }
    }
    let t = slice_chars(cs, 0, n);
    let (a, b) = match split_once(t.as_slice(), '.') {
        Some((a, b)) => (a, b),
        None => (t, Vec::new()),
    };
    if !all_ascii_digits(a.as_slice()) || !all_ascii_digits(b.as_slice()) || (a.len() == 0 && b.len() == 0) {
        return None;
    }
    let kib = vec!['K', 'i', 'B'];
    let mib = vec!['M', 'i', 'B'];
    let gib = vec!['G', 'i', 'B'];
    let shift: u32 = if contains(cs, kib.as_slice()) {
        10
    } else if contains(cs, mib.as_slice()) {
        20
    } else if contains(cs, gib.as_slice()) {
        30
    } else {
        0
    };
    assert(kib@ =~= seq!['K', 'i', 'B']);
    assert(mib@ =~= seq!['M', 'i', 'B']);
    assert(gib@ =~= seq!['G', 'i', 'B']);
    Some(decimal_to_u64(a.as_slice(), b.as_slice(), shift))
}

/// The fields of a yt-dlp progress line such as
/// `[download]  45.2% of 100.00MiB at  2.50MiB/s ETA 00:15`, before the
/// percentage and the speed are read as floats.
pub struct ProgressLine {
    /// The word just before the first `%`.
    pub percent: String,
    /// The speed word after `at `, where the line has `at `.
    pub speed: Option<String>,
    /// The size after `of `, in bytes (0 where there is none or it does not
    /// parse).
    pub total_bytes: u64,
}

/// What a progress line holds: `None` unless it contains `[download]` and
/// `%`, has a word before the first `%`, and, where it has `at `, a word
/// before the next `s` after it.
pub open spec fn progress_line_spec(line: Seq<char>) -> Option<(Seq<char>, Option<Seq<char>>, u64)> {
    let percent = last_word_spec(before_char_spec(line, '%'));
    let speed = match second_piece_spec(line, seq!['a', 't', ' ']) {
        Some(part) => Some(first_word_spec(before_char_spec(part, 's'))),
        None => None,
    };
    let total = match second_piece_spec(line, seq!['o', 'f', ' ']) {
        Some(part) => match parse_size_spec(before_char_spec(part, ' ')) {
            Some(v) => v,
            None => 0,
        },
        None => 0,
    };
    if !contains_spec(line, seq!['[', 'd', 'o', 'w', 'n', 'l', 'o', 'a', 'd', ']']) || !has_char(
        line,
        '%',
    ) {
        None
    } else if percent.len() == 0 {
        None
    } else if speed matches Some(w) && w.len() == 0 {
        None
    } else {
        Some((percent, speed, total))
    }
}

/// Splits a yt-dlp progress line into its fields.
pub fn progress_line(line: &str) -> (r: Option<ProgressLine>)
    ensures
        match r {
            None => progress_line_spec(line@) is None,
            Some(p) => progress_line_spec(line@) == Some(
                (
                    p.percent@,
                    match p.speed {
                        Some(w) => Some(w@),
                        None => None::<Seq<char>>,
                    },
                    p.total_bytes,
                ),
            ),
        },
{
    let cs = chars_of(line);
    let marker = vec!['[', 'd', 'o', 'w', 'n', 'l', 'o', 'a', 'd', ']'];
    assert(marker@ =~= seq!['[', 'd', 'o', 'w', 'n', 'l', 'o', 'a', 'd', ']']);
    if !contains(cs.as_slice(), marker.as_slice()) {
        return None;
    }
    let before_percent = match split_once(cs.as_slice(), '%') {
        None => {
            return None;
        },
        Some((a, _)) => a,
    };
    let percent = last_word(before_percent.as_slice());
    if percent.len() == 0 {
        return None;
    }
    let at_pattern = vec!['a', 't', ' '];
    assert(at_pattern@ =~= seq!['a', 't', ' ']);
    let speed: Option<Vec<char>> = match second_piece(cs.as_slice(), at_pattern.as_slice()) {
        None => None,
        Some(part) => {
            let w = first_word(before_char(part.as_slice(), 's').as_slice());
            if w.len() == 0 {
                return None;
            }
            Some(w)
        },
    };
    let of_pattern = vec!['o', 'f', ' '];
    assert(of_pattern@ =~= seq!['o', 'f', ' ']);
    let total_bytes: u64 = match second_piece(cs.as_slice(), of_pattern.as_slice()) {
        None => 0,
        Some(part) => match parse_size_chars(before_char(part.as_slice(), ' ').as_slice()) {
            Some(v) => v,
            None => 0,
        },
    };
    let speed_text: Option<String> = match speed {
        Some(w) => Some(string_of(w.as_slice())),
        None => None,
    };
    Some(ProgressLine { percent: string_of(percent.as_slice()), speed: speed_text, total_bytes })
}


/// The segments cut a file without gap or overlap: the first starts at
/// byte 0, each next one starts just after the previous one ends, and the
/// last ends at the last byte, so their lengths add up to the file size.
pub proof fn lemma_segments_partition_file(segments: int, chunk_size: int, total_size: int)
    requires
        segments >= 1,
    ensures
        segment_range(0, segments, chunk_size, total_size).0 == 0,
        forall|i: int|
            0 <= i < segments - 1 ==> #[trigger] segment_range(i + 1, segments, chunk_size, total_size).0
                == segment_range(i, segments, chunk_size, total_size).1 + 1,
        segment_range(segments - 1, segments, chunk_size, total_size).1 == total_size - 1,
        segment_lengths(segments, segments, chunk_size, total_size) == total_size,
{
    assert forall|i: int|
        0 <= i < segments - 1 implies #[trigger] segment_range(i + 1, segments, chunk_size, total_size).0
            == segment_range(i, segments, chunk_size, total_size).1 + 1 by {
        assert((i + 1) * chunk_size == i * chunk_size + chunk_size) by (nonlinear_arith);
    }
    lemma_segment_lengths(segments, segments, chunk_size, total_size);
}

/// The total length of the first `n` segments.
pub open spec fn segment_lengths(n: int, segments: int, chunk_size: int, total_size: int) -> int
    decreases n,
{
    if n <= 0 {
        0
    } else {
        let (s, e) = segment_range(n - 1, segments, chunk_size, total_size);
        segment_lengths(n - 1, segments, chunk_size, total_size) + (e - s + 1)
    }
}

proof fn lemma_segment_lengths(n: int, segments: int, chunk_size: int, total_size: int)
    requires
        1 <= n <= segments,
    ensures
        segment_lengths(n, segments, chunk_size, total_size) == segment_range(n - 1, segments, chunk_size, total_size).1 + 1,
    decreases n,
{
    if n > 1 {
        lemma_segment_lengths(n - 1, segments, chunk_size, total_size);
        assert((n - 1) * chunk_size == (n - 2) * chunk_size + chunk_size) by (nonlinear_arith);
        assert(segment_range(n - 2, segments, chunk_size, total_size).1 == (n - 1) * chunk_size - 1);
        assert(segment_range(n - 1, segments, chunk_size, total_size).0 == (n - 1) * chunk_size);
    } else {
        assert(0 * chunk_size == 0);
        assert(segment_lengths(0, segments, chunk_size, total_size) == 0);
    }
}

} // verus!
