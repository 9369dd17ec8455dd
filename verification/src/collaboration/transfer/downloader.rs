//! Planning of peer-to-peer file downloads: the peer's URL, resumption of a
//! partial file, and the split of a large file into chunks fetched in
//! parallel.

use crate::text::{append, chars_of, decimal, push_decimal, string_of};
use vstd::prelude::*;

verus! {

/// A downloader that fetches files from peers in chunks.
#[derive(Clone, Copy, Debug, PartialEq, Eq, Structural)]
pub struct ChunkedDownloader {
    /// Bytes per chunk.
    pub chunk_size: u64,
    /// Seconds to wait for a connection.
    pub connect_timeout_secs: u64,
}

/// `http://{ip}:{port}/file/{task_id}`.
pub open spec fn peer_file_url_spec(ip: Seq<char>, port: u16, task_id: Seq<char>) -> Seq<char> {
    "http://"@ + ip + ":"@ + decimal(port as nat) + "/file/"@ + task_id
}

/// The URL under which a peer serves the file of a task.
pub fn peer_file_url(ip: &str, port: u16, task_id: &str) -> (r: String)
    ensures
        r@ == peer_file_url_spec(ip@, port, task_id@),
{
    let mut out = chars_of("http://");
    append(&mut out, chars_of(ip).as_slice());
    out.push(':');
    push_decimal(&mut out, port as u64);
    append(&mut out, chars_of("/file/").as_slice());
    append(&mut out, chars_of(task_id).as_slice());
    proof {
        reveal_strlit("http://");
        reveal_strlit(":");
        reveal_strlit("/file/");
        assert(out@ =~= peer_file_url_spec(ip@, port, task_id@));
    }
    string_of(out.as_slice())
}

/// The `Range` header asking for everything from byte `from` on.
pub fn open_range_header(from: u64) -> (r: String)
    ensures
        r@ == "bytes="@ + decimal(from as nat) + "-"@,
{
    let mut out = chars_of("bytes=");
    push_decimal(&mut out, from);
    out.push('-');
    proof {
        reveal_strlit("bytes=");
        reveal_strlit("-");
        assert(out@ =~= "bytes="@ + decimal(from as nat) + "-"@);
    }
    string_of(out.as_slice())
}

/// The `Range` header asking for bytes `start` to `end`, both included.
pub fn closed_range_header(start: u64, end: u64) -> (r: String)
    ensures
        r@ == "bytes="@ + decimal(start as nat) + "-"@ + decimal(end as nat),
{
    let mut out = chars_of("bytes=");
    push_decimal(&mut out, start);
    out.push('-');
    push_decimal(&mut out, end);
    proof {
        reveal_strlit("bytes=");
        reveal_strlit("-");
        assert(out@ =~= "bytes="@ + decimal(start as nat) + "-"@ + decimal(end as nat));
    }
    string_of(out.as_slice())
}

/// How a download from a peer goes on, given what is already on disk.
#[derive(Clone, Copy, Debug, PartialEq, Eq, Structural)]
pub enum ResumeStep {
    /// The file is already complete: report `total` bytes.
    Complete { total: u64 },
    /// Append what follows byte `offset`.
    FetchFrom { offset: u64 },
}

/// The next step of a resumable download of `total_size` bytes of which
/// `existing_size` are on disk.
pub fn resume_step(existing_size: u64, total_size: u64) -> (r: ResumeStep)
    ensures
        r == (if existing_size >= total_size {
            ResumeStep::Complete { total: total_size }
        } else {
            ResumeStep::FetchFrom { offset: existing_size }
        }),
{
    if existing_size >= total_size {
        ResumeStep::Complete { total: total_size }
    } else {
        ResumeStep::FetchFrom { offset: existing_size }
    }
}

/// One chunk of a parallel download: its number and inclusive byte range.
#[derive(Clone, Copy, Debug, PartialEq, Eq, Structural)]
pub struct ChunkJob {
    pub index: u64,
    pub start: u64,
    pub end: u64,
}

/// How a file is fetched in parallel.
#[derive(Clone, Debug)]
pub enum ParallelPlan {
    /// Small enough for one plain (resumable) download.
    Single,
    /// The file is cut in `num_chunks` chunks; `jobs` lists every one of them
    /// in order, fetched `concurrency` at a time.
    Chunks { num_chunks: u64, jobs: Vec<ChunkJob>, concurrency: u64 },
}

/// `ceil(a / b)`.
pub open spec fn div_ceil_spec(a: nat, b: nat) -> nat {
    ((a + b - 1) / (b as int)) as nat
}

/// The smaller of two numbers.
pub open spec fn min_nat(a: nat, b: nat) -> nat {
    if a <= b {
        a
    } else {
        b
    }
}

/// Chunk `i` of a file of `total` bytes cut in chunks of `chunk` bytes.
pub open spec fn chunk_job_spec(i: nat, chunk: nat, total: nat) -> ChunkJob {
    ChunkJob {
        index: i as u64,
        start: (i * chunk) as u64,
        end: min_nat((i * chunk + chunk - 1) as nat, (total - 1) as nat) as u64,
    }
}

/// How many chunks are fetched at once: one per connection (at least one),
/// and never more than there are chunks.
pub open spec fn concurrency_spec(num_chunks: nat, connections: nat) -> nat {
    let c = if connections == 0 {
        1
    } else {
        connections
    };
    min_nat(c, num_chunks)
}

/// A chunk that starts inside the file: `i < ceil(t / c)` gives `i * c < t`.
proof fn lemma_chunk_starts_inside(i: int, c: int, t: int)
    requires
        c >= 1,
        t >= 1,
        0 <= i < (t + c - 1) / c,
    ensures
        i * c < t,
{
    vstd::arithmetic::div_mod::lemma_fundamental_div_mod(t + c - 1, c);
    let q = (t + c - 1) / c;
    assert(i * c <= (q - 1) * c) by (nonlinear_arith)
        requires
            i <= q - 1,
            c >= 1,
    ;
    assert((q - 1) * c == q * c - c) by (nonlinear_arith);
    assert(q * c <= t + c - 1) by (nonlinear_arith)
        requires
            t + c - 1 == c * q + (t + c - 1) % c,
            (t + c - 1) % c >= 0,
    ;
}

impl ChunkedDownloader {
    /// A downloader with chunks of `chunk_size` bytes and a 10-second
    /// connection timeout.
    pub fn new(chunk_size: u64) -> (r: ChunkedDownloader)
        ensures
            r.chunk_size == chunk_size,
            r.connect_timeout_secs == 10,
    {
        ChunkedDownloader { chunk_size, connect_timeout_secs: 10 }
    }

    /// The plan for a file of `total_size` bytes over `num_connections`
    /// connections: a plain download up to two chunks, else every chunk of
    /// the file, fetched one per connection at a time.
    pub fn parallel_plan(&self, total_size: u64, num_connections: usize) -> (r: ParallelPlan)
        requires
            self.chunk_size >= 1,
            2 * self.chunk_size <= u64::MAX,
        ensures
            total_size <= 2 * self.chunk_size ==> r is Single,
            total_size > 2 * self.chunk_size ==> (r matches ParallelPlan::Chunks {
                num_chunks,
                jobs,
                concurrency,
            } && num_chunks == div_ceil_spec(total_size as nat, self.chunk_size as nat)
                && jobs@.len() == num_chunks && concurrency == concurrency_spec(
                num_chunks as nat,
                num_connections as nat,
            ) && forall|i: int|
                0 <= i < jobs@.len() ==> #[trigger] jobs@[i] == chunk_job_spec(
                    i as nat,
                    self.chunk_size as nat,
                    total_size as nat,
                )),
    {
        let chunk = self.chunk_size;
        if total_size <= chunk * 2 {
            return ParallelPlan::Single;
        }
        proof {
            if chunk >= 2 {
                vstd::arithmetic::div_mod::lemma_div_is_ordered_by_denominator(
                    total_size as int,
                    2,
                    chunk as int,
                );
            }
        }
        let num_chunks = total_size / chunk + if total_size % chunk == 0 {
            0
        } else {
            1
        };
        proof {
            let t = total_size as int;
            let c = chunk as int;
            vstd::arithmetic::div_mod::lemma_fundamental_div_mod(t, c);
            vstd::arithmetic::div_mod::lemma_fundamental_div_mod(t + c - 1, c);
            assert(num_chunks == div_ceil_spec(total_size as nat, chunk as nat)) by (nonlinear_arith)
                requires
                    c >= 1,
                    t == c * (t / c) + t % c,
                    0 <= t % c < c,
                    t + c - 1 == c * ((t + c - 1) / c) + (t + c - 1) % c,
                    0 <= (t + c - 1) % c < c,
                    num_chunks == t / c + (if t % c == 0 {
                        0int
                    } else {
                        1int
                    }),
                    div_ceil_spec(total_size as nat, chunk as nat) == (t + c - 1) / c,
            ;
        }
        let wanted: u64 = if num_connections == 0 {
            1
        } else {
            num_connections as u64
        };
        let concurrency: u64 = if wanted < num_chunks {
            wanted
        } else {
            num_chunks
        };
        let mut jobs: Vec<ChunkJob> = Vec::new();
        let mut i: u64 = 0;
        while i < num_chunks
            invariant
                i <= num_chunks,
                num_chunks == div_ceil_spec(total_size as nat, chunk as nat),
                chunk >= 1,
                total_size > 2 * chunk,
                jobs@.len() == i,
                forall|j: int|
                    0 <= j < i ==> #[trigger] jobs@[j] == chunk_job_spec(
                        j as nat,
                        chunk as nat,
                        total_size as nat,
                    ),
            decreases num_chunks - i,
        {
            proof {
                lemma_chunk_starts_inside(i as int, chunk as int, total_size as int);
            }
            let start = i * chunk;
            let end = if total_size - 1 - start < chunk - 1 {
                total_size - 1
            } else {
                start + (chunk - 1)
            };
            jobs.push(ChunkJob { index: i, start, end });
            i = i + 1;
        }
        ParallelPlan::Chunks { num_chunks, jobs, concurrency }
    }
}

/// The name of the directory holding the chunks of a task:
/// `.tmp_{task_id}`.
pub fn chunk_dir_name(task_id: &str) -> (r: String)
    ensures
        r@ == ".tmp_"@ + task_id@,
{
    let mut out = chars_of(".tmp_");
    append(&mut out, chars_of(task_id).as_slice());
    proof {
        reveal_strlit(".tmp_");
    }
    string_of(out.as_slice())
}

/// The name of the file holding chunk `index`: `chunk_{index}`.
pub fn chunk_file_name(index: u64) -> (r: String)
    ensures
        r@ == "chunk_"@ + decimal(index as nat),
{
    let mut out = chars_of("chunk_");
    push_decimal(&mut out, index);
    proof {
        reveal_strlit("chunk_");
    }
    string_of(out.as_slice())
}

} // verus!
