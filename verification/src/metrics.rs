//! System metrics: their labels and the integer and text handling around
//! the readings (which disk to report, used space, the GPU tool's output).

use vstd::prelude::*;

use crate::text::{chars_of, push_char, spec_trim, trim_bounds};

verus! {

/// Global CPU usage (the mean over all cores).
pub struct CpuMetric;

impl CpuMetric {
    pub fn new() -> (r: Self) {
        CpuMetric
    }

    /// Short name shown under the percentage.
    pub fn label(&self) -> (r: &'static str)
        ensures
            r@ == "CPU"@,
    {
        "CPU"
    }
}

/// Share of RAM in use.
pub struct MemoryMetric;

impl MemoryMetric {
    pub fn new() -> (r: Self) {
        MemoryMetric
    }

    /// Short name shown under the percentage.
    pub fn label(&self) -> (r: &'static str)
        ensures
            r@ == "RAM"@,
    {
        "RAM"
    }
}

/// Short name of the disk metric.
pub fn disk_label() -> (r: &'static str)
    ensures
        r@ == "DISK"@,
{
    "DISK"
}

/// Short name of the GPU metric.
pub fn gpu_label() -> (r: &'static str)
    ensures
        r@ == "GPU"@,
{
    "GPU"
}

/// Whether a mount point names the root directory, as a Unix path equal
/// to "/": a '/' first, then only '/' and single-dot components.
pub open spec fn spec_is_root_path(p: Seq<char>) -> bool {
    &&& p.len() > 0
    &&& p[0] == '/'
    &&& forall|i: int|
        0 <= i < p.len() ==> (#[trigger] p[i] == '/' || (p[i] == '.' && p[i - 1] == '/' && (i + 1
            == p.len() || p[i + 1] == '/')))
}

/// Whether a mount point names the root directory ("/").
pub fn is_root_path(p: &str) -> (r: bool)
    ensures
        r == spec_is_root_path(p@),
{
    let cs = chars_of(p);
    let n = cs.len();
    if n == 0 || cs[0] != '/' {
        return false;
    }
    let mut i: usize = 0;
    while i < n
        invariant
            n == cs@.len(),
            cs@ == p@,
            n > 0,
            cs@[0] == '/',
            i <= n,
            forall|j: int|
                0 <= j < i ==> (#[trigger] cs@[j] == '/' || (cs@[j] == '.' && cs@[j - 1] == '/' && (j
                    + 1 == n || cs@[j + 1] == '/'))),
        decreases n - i,
    {
        let c = cs[i];
        if c != '/' {
            if c != '.' || i == 0 || cs[i - 1] != '/' || (i + 1 < n && cs[i + 1] != '/') {
                assert(!(cs@[i as int] == '/' || (cs@[i as int] == '.' && cs@[i - 1] == '/' && (i
                    + 1 == n || cs@[i + 1] == '/'))));
                return false;
            }
        }
        i += 1;
    }
    true
}

/// Which disk to report, among disks with these mount points: the first
/// mounted at "/", else the first one; none when there are no disks.
pub fn select_disk(mount_points: &Vec<String>) -> (r: Option<usize>)
    ensures
        match r {
            Some(i) => {
                &&& i < mount_points@.len()
                &&& forall|j: int| 0 <= j < i ==> !spec_is_root_path(#[trigger] mount_points@[j]@)
                &&& spec_is_root_path(mount_points@[i as int]@) || (i == 0 && forall|j: int|
                    0 <= j < mount_points@.len() ==> !spec_is_root_path(
                        #[trigger] mount_points@[j]@,
                    ))
            },
            None => mount_points@.len() == 0,
        },
{
    let mut i: usize = 0;
    while i < mount_points.len()
        invariant
            i <= mount_points@.len(),
            forall|j: int| 0 <= j < i ==> !spec_is_root_path(#[trigger] mount_points@[j]@),
        decreases mount_points@.len() - i,
    {
        if is_root_path(mount_points[i].as_str()) {
            return Some(i);
        }
        i += 1;
    }
    if mount_points.len() > 0 {
        Some(0)
    } else {
        None
    }
}

/// Space in use on a disk of `total` bytes with `available` bytes free;
/// none for a disk of size 0 (reported as 0%).
pub fn disk_used_space(total: u64, available: u64) -> (r: Option<u64>)
    ensures
        total == 0 ==> r.is_none(),
        total != 0 ==> r == Some(
            (if available >= total {
                0
            } else {
                total - available
            }) as u64,
        ),
{
    if total == 0 {
        return None;
    }
    Some(total.saturating_sub(available))
}

/// Index of the first '\n' of `s` at or after `from`, or the length of `s`.
pub open spec fn spec_newline_index(s: Seq<char>, from: int) -> int
    decreases s.len() - from,
{
    if from < 0 || from >= s.len() {
        s.len() as int
    } else if s[from] == '\n' {
        from
    } else {
        spec_newline_index(s, from + 1)
    }
}

/// The first line of `s`, as `str::lines` gives it: up to the first '\n',
/// without a '\r' just before that '\n'; none for an empty text.
pub open spec fn spec_first_line(s: Seq<char>) -> Option<Seq<char>> {
    let e = spec_newline_index(s, 0);
    let line = s.subrange(0, e);
    if s.len() == 0 {
        None
    } else if e < s.len() && line.len() > 0 && line.last() == '\r' {
        Some(line.drop_last())
    } else {
        Some(line)
    }
}

/// The reading in the output of the GPU tool: its first line, trimmed.
pub open spec fn spec_gpu_reading(output: Seq<char>) -> Option<Seq<char>> {
    match spec_first_line(output) {
        Some(l) => Some(spec_trim(l)),
        None => None,
    }
}

/// The reading in the output of the GPU tool: its first line, trimmed;
/// none for an empty output.
pub fn gpu_reading(output: &str) -> (r: Option<String>)
    ensures
        match r {
            Some(t) => spec_gpu_reading(output@) == Some(t@),
            None => spec_gpu_reading(output@).is_none(),
        },
{
    let cs = chars_of(output);
    let n = cs.len();
    if n == 0 {
        return None;
    }
    let mut e: usize = 0;
    while e < n && cs[e] != '\n'
        invariant
            n == cs@.len(),
            e <= n,
            spec_newline_index(cs@, 0) == spec_newline_index(cs@, e as int),
        decreases n - e,
    {
        e += 1;
    }
    let mut end = e;
    if e < n && e > 0 && cs[e - 1] == '\r' {
        end = e - 1;
    }
    let mut line: Vec<char> = Vec::new();
    let mut i: usize = 0;
    while i < end
        invariant
            end <= n,
            n == cs@.len(),
            i <= end,
            line@ == cs@.subrange(0, i as int),
        decreases end - i,
    {
        line.push(cs[i]);
        i += 1;
    }
    proof {
        let l = cs@.subrange(0, e as int);
        if e < n && e > 0 && cs@[e - 1] == '\r' {
            assert(l.drop_last() == cs@.subrange(0, end as int));
        }
    }
    let (a, b) = trim_bounds(&line);
    let mut out = String::new();
    let mut k: usize = a;
    while k < b
        invariant
            a <= k <= b,
            b <= line@.len(),
            out@ == line@.subrange(a as int, k as int),
        decreases b - k,
    {
        push_char(&mut out, line[k]);
        assert(line@.subrange(a as int, k as int).push(line@[k as int]) == line@.subrange(a as int, k + 1));
        k += 1;
    }
    Some(out)
}

} // verus!

verus! {

/// Time between two readings of the GPU tool, in milliseconds.
pub const GPU_POLL_INTERVAL_MS: u64 = 1000;

/// Step of the wait between two readings, in milliseconds, so that a stop
/// request is seen quickly.
pub const GPU_STOP_CHECK_STEP_MS: u64 = 100;

/// State of the background reader of the GPU tool.
pub struct GpuPoll {
    /// A failure to read the tool was already reported.
    pub warned: bool,
}

/// Whether a reading's outcome is to be reported: a failure, the first time.
pub open spec fn spec_warn(warned: bool, read_ok: bool) -> bool {
    !read_ok && !warned
}

impl GpuPoll {
    pub fn new() -> (r: Self)
        ensures
            !r.warned,
    {
        GpuPoll { warned: false }
    }

    /// Records the outcome of a reading; returns whether to report that the
    /// tool could not be read, which happens for the first failure only.
    pub fn after_reading(&mut self, read_ok: bool) -> (warn: bool)
        ensures
            warn == spec_warn(old(self).warned, read_ok),
            final(self).warned == (old(self).warned || !read_ok),
    {
        if !read_ok && !self.warned {
            self.warned = true;
            return true;
        }
        false
    }
}

/// Whether the reader keeps waiting, `waited_ms` after a reading: until the
/// poll interval has passed, and only while it is asked to run.
pub fn gpu_keep_waiting(waited_ms: u64, running: bool) -> (r: bool)
    ensures
        r == (running && waited_ms < GPU_POLL_INTERVAL_MS),
{
    running && waited_ms < GPU_POLL_INTERVAL_MS
}

/// A failure of the GPU tool is reported once: after a report, no later
/// reading is reported again.
pub proof fn lemma_gpu_warns_once(read_ok: bool, later_ok: bool)
    ensures
        spec_warn(false, read_ok) ==> !spec_warn(false || !read_ok, later_ok),
        !spec_warn(true, later_ok),
        spec_warn(false, false),
        !spec_warn(false, true),
{
}

} // verus!

verus! {

/// A mount point of one or more slashes names the root directory, and so
/// does one with "." components between them; any other character, or a
/// path that does not start with '/', names another directory.
pub proof fn lemma_root_path(p: Seq<char>)
    ensures
        p.len() > 0 && (forall|i: int| 0 <= i < p.len() ==> p[i] == '/') ==> spec_is_root_path(p),
        (exists|i: int| 0 <= i < p.len() && p[i] != '/' && p[i] != '.') ==> !spec_is_root_path(p),
        (p.len() == 0 || p[0] != '/') ==> !spec_is_root_path(p),
{
}

proof fn lemma_newline_index_skips_line(line: Seq<char>, rest: Seq<char>, from: int)
    requires
        0 <= from <= line.len(),
        forall|i: int| 0 <= i < line.len() ==> line[i] != '\n',
    ensures
        spec_newline_index(line + seq!['\n'] + rest, from) == line.len(),
    decreases line.len() - from,
{
    let s = line + seq!['\n'] + rest;
    if from < line.len() {
        assert(s[from] == line[from]);
        lemma_newline_index_skips_line(line, rest, from + 1);
    } else {
        assert(s[from] == '\n');
    }
}

/// The GPU reading is the first line of the output, trimmed: whatever
/// follows the first newline is ignored, and a '\r' before it is dropped.
pub proof fn lemma_gpu_reading_first_line(line: Seq<char>, rest: Seq<char>)
    requires
        forall|i: int| 0 <= i < line.len() ==> line[i] != '\n',
    ensures
        spec_gpu_reading(line + seq!['\n'] + rest) == Some(
            spec_trim(
                if line.len() > 0 && line.last() == '\r' {
                    line.drop_last()
                } else {
                    line
                },
            ),
        ),
{
    let s = line + seq!['\n'] + rest;
    lemma_newline_index_skips_line(line, rest, 0);
    assert(s.subrange(0, line.len() as int) =~= line);
}

} // verus!
