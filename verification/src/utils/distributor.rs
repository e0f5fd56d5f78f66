//! Splitting a download into byte-range tasks and assigning them to servers.

use vstd::prelude::*;
use crate::error::DistributedDownloaderError;
use crate::ids::{is_v4_uuid_text, new_uuid_v4_string};
use crate::network::manager::ConnectionManager;
use crate::network::registry::texts;
use crate::proto::distributed_downloader::DownloadTask;

verus! {

/// No task covers more than this many bytes (3 MiB).
pub const MAX_CHUNK_SIZE: u64 = 3 * 1024 * 1024;

/// The largest file size whose tasks can be computed without the end of a
/// task overflowing a `u64`: 2^64 - 2^20, the largest multiple of
/// `MAX_CHUNK_SIZE` that fits.
pub const MAX_SPLITTABLE_SIZE: u64 = 18446744073708503040;

/// The smaller of two integers.
pub open spec fn min_int(a: int, b: int) -> int {
    if a <= b { a } else { b }
}

/// How many tasks a file of `file_size` bytes is split into: one per started
/// `MAX_CHUNK_SIZE` bytes.
pub open spec fn task_count(file_size: nat) -> nat {
    ((file_size + MAX_CHUNK_SIZE - 1) / (MAX_CHUNK_SIZE as int)) as nat
}

/// The inclusive byte range of task `i`: it starts at `i * MAX_CHUNK_SIZE`
/// and ends after `MAX_CHUNK_SIZE` bytes or at the last byte of the file,
/// whichever comes first.
pub open spec fn task_range(file_size: nat, i: int) -> (u64, u64) {
    (
        (i * MAX_CHUNK_SIZE) as u64,
        min_int(i * MAX_CHUNK_SIZE + MAX_CHUNK_SIZE - 1, file_size - 1) as u64,
    )
}

/// The inclusive byte ranges that a file of `file_size` bytes is split into.
pub open spec fn split_spec(file_size: nat) -> Seq<(u64, u64)> {
    Seq::new(task_count(file_size), |i: int| task_range(file_size, i))
}

/// `k` is the number of chunks of `MAX_CHUNK_SIZE` bytes that `file_size` bytes start.
proof fn lemma_task_count_exact(file_size: nat, k: nat)
    requires
        file_size <= k * MAX_CHUNK_SIZE,
        k == 0 || (k - 1) * MAX_CHUNK_SIZE < file_size,
    ensures
        task_count(file_size) == k,
{
    let m = MAX_CHUNK_SIZE as int;
    let x = file_size + m - 1;
    let kk = k as int;
    assert(kk * m <= x < kk * m + m) by (nonlinear_arith)
        requires
            file_size <= kk * m,
            kk == 0 || (kk - 1) * m < file_size,
            x == file_size + m - 1,
            m > 0,
            file_size >= 0,
    ;
    vstd::arithmetic::div_mod::lemma_fundamental_div_mod_converse(x, m, kk, x - kk * m);
}

/// Splits a file of `file_size` bytes into inclusive byte ranges of at most
/// `MAX_CHUNK_SIZE` bytes each, in order; no range for an empty file.
pub fn generate_tasks(file_size: u64) -> (tasks: Vec<(u64, u64)>)
    requires
        file_size <= MAX_SPLITTABLE_SIZE,
    ensures
        tasks@ == split_spec(file_size as nat),
{
    let mut tasks: Vec<(u64, u64)> = Vec::new();
    let mut current_pos: u64 = 0;
    let ghost m = MAX_CHUNK_SIZE as int;
    assert(min_int(tasks@.len() * MAX_CHUNK_SIZE, file_size as int) == 0);
    while current_pos < file_size
        invariant
            file_size <= MAX_SPLITTABLE_SIZE,
            m == MAX_CHUNK_SIZE as int,
            current_pos == min_int(tasks@.len() * MAX_CHUNK_SIZE, file_size as int),
            tasks@.len() == 0 || (tasks@.len() - 1) * MAX_CHUNK_SIZE < file_size,
            forall|j: int| 0 <= j < tasks@.len() ==> tasks@[j] == task_range(file_size as nat, j),
        decreases file_size - current_pos,
    {
        let ghost len = tasks@.len() as int;
        assert(current_pos == len * m);
        assert(current_pos + MAX_CHUNK_SIZE - 1 <= u64::MAX) by (nonlinear_arith)
            requires
                current_pos == len * m,
                current_pos < MAX_SPLITTABLE_SIZE,
                MAX_SPLITTABLE_SIZE == 5864062014805 * m,
                m == 3145728,
                len >= 0,
        {
            assert(len < 5864062014805);
            assert(len <= 5864062014804);
            assert(len * m <= 5864062014804 * m);
        }
        let end_pos = if current_pos + MAX_CHUNK_SIZE - 1 <= file_size - 1 {
            current_pos + MAX_CHUNK_SIZE - 1
        } else {
            file_size - 1
        };
        tasks.push((current_pos, end_pos));
        current_pos = end_pos + 1;
        assert(len * m + m == (len + 1) * m) by (nonlinear_arith);
    }
    let ghost k = tasks@.len();
    proof {
        if k * m < file_size {
            assert(current_pos == k * m);
        }
        lemma_task_count_exact(file_size as nat, k);
    }
    assert(tasks@ =~= split_spec(file_size as nat));
    tasks
}

/// The index of the task whose range holds byte `b`.
pub open spec fn task_of_byte(b: u64) -> int {
    (b / MAX_CHUNK_SIZE) as int
}

/// The number of tasks brackets the file size: they reach its end, and all
/// but the last start inside it.
proof fn lemma_task_count_bounds(file_size: nat)
    ensures
        task_count(file_size) * MAX_CHUNK_SIZE >= file_size,
        file_size > 0 ==> (task_count(file_size) - 1) * MAX_CHUNK_SIZE < file_size,
        file_size == 0 ==> task_count(file_size) == 0,
{
    let m = MAX_CHUNK_SIZE as int;
    let x = file_size + m - 1;
    let q = x / m;
    let r = x % m;
    vstd::arithmetic::div_mod::lemma_fundamental_div_mod(x, m);
    assert(0 <= r < m);
    assert(q * m == x - r) by (nonlinear_arith)
        requires x == m * q + r;
    assert(q >= 0) by (nonlinear_arith)
        requires x >= 0, m > 0, q == x / m;
    if file_size == 0 {
        assert(q == 0) by (nonlinear_arith)
            requires q * m == x - r, x == m - 1, 0 <= r < m, m > 0, q >= 0;
    }
    assert((q - 1) * m == q * m - m) by (nonlinear_arith);
}

/// Task `i` starts inside the file, and every task before the last one
/// ends before the last byte of the file.
proof fn lemma_task_start_inside(file_size: nat, i: int)
    requires
        0 <= i < task_count(file_size),
    ensures
        i * MAX_CHUNK_SIZE < file_size,
        i < task_count(file_size) - 1 ==> (i + 1) * MAX_CHUNK_SIZE < file_size,
        i == task_count(file_size) - 1 ==> (i + 1) * MAX_CHUNK_SIZE >= file_size,
{
    lemma_task_count_bounds(file_size);
    let c = task_count(file_size) as int;
    let m = MAX_CHUNK_SIZE as int;
    assert(i * m <= (c - 1) * m) by (nonlinear_arith)
        requires i <= c - 1, m > 0;
    if i < c - 1 {
        assert((i + 1) * m <= (c - 1) * m) by (nonlinear_arith)
            requires i + 1 <= c - 1, m > 0;
    }
}

/// The tasks of a file cover it exactly, in order and without overlap: the
/// first starts at byte 0, each next one starts right after the previous one
/// ends, the last ends at the file's last byte, every task holds between 1
/// and `MAX_CHUNK_SIZE` bytes, and every task but the last holds exactly
/// `MAX_CHUNK_SIZE` bytes. Byte `b` lies in task `b / MAX_CHUNK_SIZE`. An
/// empty file has no tasks.
pub proof fn lemma_tasks_partition_file(file_size: u64)
    requires
        file_size <= MAX_SPLITTABLE_SIZE,
    ensures
        ({
            let t = split_spec(file_size as nat);
            &&& t.len() == 0 <==> file_size == 0
            &&& file_size > 0 ==> t[0].0 == 0 && t.last().1 == file_size - 1
            &&& forall|i: int|
                0 <= i < t.len() ==> #[trigger] t[i].0 <= t[i].1 && t[i].1 - t[i].0 < MAX_CHUNK_SIZE
            &&& forall|i: int|
                0 <= i < t.len() - 1 ==> #[trigger] t[i + 1].0 == t[i].1 + 1
                    && t[i].1 - t[i].0 + 1 == MAX_CHUNK_SIZE
            &&& forall|b: u64|
                b < file_size ==> #[trigger] task_of_byte(b) < t.len()
                    && t[task_of_byte(b)].0 <= b <= t[task_of_byte(b)].1
        }),
{
    let fs = file_size as nat;
    let t = split_spec(fs);
    let m = MAX_CHUNK_SIZE as int;
    lemma_task_count_bounds(fs);
    assert forall|i: int| 0 <= i < t.len() implies #[trigger] t[i].0 <= t[i].1 && t[i].1 - t[i].0 < MAX_CHUNK_SIZE by {
        lemma_task_start_inside(fs, i);
    }
    assert forall|i: int| 0 <= i < t.len() - 1 implies #[trigger] t[i + 1].0 == t[i].1 + 1
        && t[i].1 - t[i].0 + 1 == MAX_CHUNK_SIZE by {
        lemma_task_start_inside(fs, i);
        lemma_task_start_inside(fs, i + 1);
        assert((i + 1) * m == i * m + m) by (nonlinear_arith);
    }
    if file_size > 0 {
        let c = t.len() as int;
        assert(c >= 1) by (nonlinear_arith)
            requires c * m >= fs, fs > 0, c >= 0, m > 0;
        lemma_task_start_inside(fs, c - 1);
        assert((c - 1 + 1) * m == (c - 1) * m + m) by (nonlinear_arith);
    }
    assert forall|b: u64| b < file_size implies #[trigger] task_of_byte(b) < t.len()
        && t[task_of_byte(b)].0 <= b <= t[task_of_byte(b)].1 by {
        let q = (b / MAX_CHUNK_SIZE) as int;
        let r = (b % MAX_CHUNK_SIZE) as int;
        vstd::arithmetic::div_mod::lemma_fundamental_div_mod(b as int, m);
        assert(q * m + r == b) by (nonlinear_arith)
            requires b == m * q + r;
        let c = t.len() as int;
        assert(q < c) by (nonlinear_arith)
            requires q * m + r == b, b < fs, fs <= c * m, 0 <= r, m > 0;
        lemma_task_start_inside(fs, q);
        assert((q + 1) * m == q * m + m) by (nonlinear_arith);
    }
}

/// Splits an inclusive byte range into a given number of parts of near-equal size.
pub struct DownloadDistributor;

/// Where part `i` of `[start, start + size)` begins when it is cut into
/// `parts` parts: every part holds `size / parts` bytes, and the first
/// `size % parts` parts hold one byte more.
pub open spec fn part_start(start: int, size: int, parts: int, i: int) -> int {
    start + i * (size / parts) + min_int(i, size % parts)
}

/// The inclusive ranges that `download_interval_list` returns.
pub open spec fn interval_list_spec(start: u64, end: u64, parts: u64) -> Seq<Seq<u64>> {
    let size = end - start + 1;
    Seq::new(
        parts as nat,
        |i: int|
            seq![
                part_start(start as int, size, parts as int, i) as u64,
                (part_start(start as int, size, parts as int, i + 1) - 1) as u64,
            ],
    )
}

/// Part boundaries move forward: the next part begins one part's size later.
proof fn lemma_part_start_step(start: int, size: int, parts: int, i: int)
    requires
        parts >= 1,
        size >= parts,
        0 <= i < parts,
    ensures
        part_start(start, size, parts, i + 1) == part_start(start, size, parts, i) + size / parts
            + (if i < size % parts { 1int } else { 0int }),
        part_start(start, size, parts, i + 1) <= part_start(start, size, parts, parts),
        part_start(start, size, parts, parts) == start + size,
        size / parts >= 1,
        part_start(start, size, parts, 0) == start,
{
    let q = size / parts;
    let r = size % parts;
    vstd::arithmetic::div_mod::lemma_fundamental_div_mod(size, parts);
    assert((i + 1) * q == i * q + q) by (nonlinear_arith);
    assert(q >= 1) by (nonlinear_arith)
        requires size == parts * q + r, 0 <= r < parts, size >= parts;
    assert((i + 1) * q <= parts * q) by (nonlinear_arith)
        requires i + 1 <= parts, q >= 1;
    assert(parts * q + r == size) by (nonlinear_arith)
        requires size == parts * q + r;
    assert(0 * q == 0);
}

impl DownloadDistributor {
    /// Cuts the inclusive range `[start, end]` into `parts` consecutive
    /// inclusive ranges `[first, last]`. With `size = end - start + 1`, every
    /// range holds `size / parts` bytes and the first `size % parts` ranges
    /// hold one byte more. There must be at least one byte per part.
    pub fn download_interval_list(start: u64, end: u64, parts: u64) -> (intervals: Vec<[u64; 2]>)
        requires
            start <= end,
            end - start < u64::MAX,
            1 <= parts <= end - start + 1,
        ensures
            intervals@.len() == parts,
            forall|i: int| 0 <= i < parts ==> (#[trigger] intervals@[i])@ == interval_list_spec(start, end, parts)[i],
    {
        let size = end - start + 1;
        let base = size / parts;
        let rem = size % parts;
        let ghost s = start as int;
        let ghost z = size as int;
        let ghost p = parts as int;
        let mut intervals: Vec<[u64; 2]> = Vec::new();
        let mut lo = start;
        let mut i: u64 = 0;
        proof {
            lemma_part_start_step(s, z, p, 0);
        }
        while i < parts
            invariant
                0 <= i <= parts,
                1 <= parts <= size,
                size == end - start + 1,
                base == size / parts,
                rem == size % parts,
                s == start, z == size, p == parts,
                intervals@.len() == i,
                i < parts ==> lo == part_start(s, z, p, i as int),
                forall|j: int| 0 <= j < i ==> (#[trigger] intervals@[j])@ == interval_list_spec(start, end, parts)[j],
            decreases parts - i,
        {
            proof {
                lemma_part_start_step(s, z, p, i as int);
            }
            let extra: u64 = if i < rem { 1 } else { 0 };
            let hi = lo + (base + extra - 1);
            intervals.push([lo, hi]);
            assert(intervals@[i as int]@ =~= interval_list_spec(start, end, parts)[i as int]);
            if i + 1 < parts {
                proof {
                    lemma_part_start_step(s, z, p, i + 1);
                }
                lo = hi + 1;
            }
            i = i + 1;
        }
        intervals
    }
}

/// The ranges of `download_interval_list` cut `[start, end]` exactly: the
/// first begins at `start`, each next one begins right after the previous one
/// ends, the last ends at `end`, none is empty, and their sizes differ by at
/// most one byte, the larger ones first.
pub proof fn lemma_intervals_partition_range(start: u64, end: u64, parts: u64)
    requires
        start <= end,
        end - start < u64::MAX,
        1 <= parts <= end - start + 1,
    ensures
        ({
            let v = interval_list_spec(start, end, parts);
            let base = (end - start + 1) / (parts as int);
            &&& v[0][0] == start
            &&& v[parts - 1][1] == end
            &&& forall|i: int| 0 <= i < parts - 1 ==> #[trigger] v[i + 1][0] == v[i][1] + 1
            &&& forall|i: int|
                0 <= i < parts ==> v[i][0] <= #[trigger] v[i][1]
                    && (v[i][1] - v[i][0] + 1 == base || v[i][1] - v[i][0] + 1 == base + 1)
            &&& forall|i: int, j: int|
                0 <= i < j < parts ==> #[trigger] (v[j][1] - v[j][0]) <= #[trigger] (v[i][1] - v[i][0])
        }),
{
    let v = interval_list_spec(start, end, parts);
    let s = start as int;
    let z = end - start + 1;
    let p = parts as int;
    lemma_part_start_step(s, z, p, 0);
    lemma_part_start_step(s, z, p, p - 1);
    assert forall|i: int| 0 <= i < parts - 1 implies #[trigger] v[i + 1][0] == v[i][1] + 1 by {
        lemma_part_start_step(s, z, p, i);
        lemma_part_start_step(s, z, p, i + 1);
    }
    assert forall|i: int| 0 <= i < parts implies v[i][0] <= #[trigger] v[i][1]
        && (v[i][1] - v[i][0] + 1 == z / p || v[i][1] - v[i][0] + 1 == z / p + 1) by {
        lemma_part_start_step(s, z, p, i);
        if i + 1 < p {
            lemma_part_start_step(s, z, p, i + 1);
        }
    }
    assert forall|i: int, j: int| 0 <= i < j < parts implies #[trigger] (v[j][1] - v[j][0]) <= #[trigger] (v[i][1] - v[i][0]) by {
        lemma_part_start_step(s, z, p, i);
        lemma_part_start_step(s, z, p, j);
        if j + 1 < p {
            lemma_part_start_step(s, z, p, j + 1);
        }
        if i + 1 < p {
            lemma_part_start_step(s, z, p, i + 1);
        }
    }
}

/// A task and the server that is to download it.
#[derive(Debug)]
pub struct TaskAssignment {
    pub server_id: String,
    pub task: DownloadTask,
}

/// Splits download jobs into tasks and hands them out to the connected servers.
pub struct Distributor {
    connections: ConnectionManager,
}

/// Whether `plan` hands the tasks of a `file_size`-byte download of `url`
/// for job `job_id` to `servers` in turn: task `i` covers the `i`-th range of
/// the split and goes to server `i % servers.len()`, and every task has a
/// fresh identifier of its own shape.
pub open spec fn is_round_robin_plan(
    plan: Seq<TaskAssignment>,
    servers: Seq<Seq<char>>,
    job_id: Seq<char>,
    url: Seq<char>,
    file_size: nat,
) -> bool {
    &&& servers.len() > 0
    &&& plan.len() == task_count(file_size)
    &&& forall|i: int|
        0 <= i < plan.len() ==> {
            let a = #[trigger] plan[i];
            &&& a.server_id@ == servers[i % servers.len() as int]
            &&& a.task.job_id@ == job_id
            &&& a.task.url@ == url
            &&& (a.task.range_start, a.task.range_end) == split_spec(file_size)[i]
            &&& is_v4_uuid_text(a.task.task_id@)
        }
}

/// Whether `plan` hands the tasks out in turn to the servers of `servers`,
/// taken in some order in which each of them comes once.
pub open spec fn is_round_robin_over(
    plan: Seq<TaskAssignment>,
    servers: Set<Seq<char>>,
    job_id: Seq<char>,
    url: Seq<char>,
    file_size: nat,
) -> bool {
    exists|order: Seq<Seq<char>>|
        #[trigger] is_round_robin_plan(plan, order, job_id, url, file_size) && order.no_duplicates()
            && order.to_set() == servers
}

/// The tasks of a round-robin plan cover the file exactly: there are none
/// for an empty file; otherwise the first starts at byte 0, each next one
/// starts right after the previous one ends, the last ends at the file's
/// last byte, each holds between 1 and `MAX_CHUNK_SIZE` bytes, all but the
/// last hold exactly `MAX_CHUNK_SIZE` bytes, and byte `b` lies in task
/// `b / MAX_CHUNK_SIZE`. So every byte of the file is downloaded by exactly
/// one task.
pub proof fn lemma_round_robin_plan_covers_file(
    plan: Seq<TaskAssignment>,
    servers: Seq<Seq<char>>,
    job_id: Seq<char>,
    url: Seq<char>,
    file_size: nat,
)
    requires
        is_round_robin_plan(plan, servers, job_id, url, file_size),
        file_size <= MAX_SPLITTABLE_SIZE,
    ensures
        plan.len() == 0 <==> file_size == 0,
        file_size > 0 ==> plan[0].task.range_start == 0 && plan.last().task.range_end == file_size - 1,
        forall|i: int| 0 <= i < plan.len() ==> #[trigger] plan[i].task.range_start <= plan[i].task.range_end
            && plan[i].task.range_end - plan[i].task.range_start < MAX_CHUNK_SIZE,
        forall|i: int| 0 <= i < plan.len() - 1 ==> #[trigger] plan[i + 1].task.range_start == plan[i].task.range_end + 1
            && plan[i].task.range_end - plan[i].task.range_start + 1 == MAX_CHUNK_SIZE,
        forall|b: u64| b < file_size ==> #[trigger] task_of_byte(b) < plan.len()
            && plan[task_of_byte(b)].task.range_start <= b <= plan[task_of_byte(b)].task.range_end,
{
    let t = split_spec(file_size);
    lemma_tasks_partition_file(file_size as u64);
    assert forall|i: int| 0 <= i < plan.len() implies (plan[i].task.range_start, plan[i].task.range_end) == t[i] by {
        let a = plan[i];
    }
    assert forall|i: int| 0 <= i < plan.len() implies #[trigger] plan[i].task.range_start <= plan[i].task.range_end
        && plan[i].task.range_end - plan[i].task.range_start < MAX_CHUNK_SIZE by {
        assert((plan[i].task.range_start, plan[i].task.range_end) == t[i]);
        assert(t[i].0 <= t[i].1 && t[i].1 - t[i].0 < MAX_CHUNK_SIZE);
    }
    if file_size > 0 {
        assert((plan[0].task.range_start, plan[0].task.range_end) == t[0]);
        assert(plan.last() == plan[plan.len() - 1]);
        assert((plan[plan.len() - 1].task.range_start, plan[plan.len() - 1].task.range_end) == t[t.len() - 1]);
    }
    assert forall|i: int| 0 <= i < plan.len() - 1 implies #[trigger] plan[i + 1].task.range_start == plan[i].task.range_end + 1
        && plan[i].task.range_end - plan[i].task.range_start + 1 == MAX_CHUNK_SIZE by {
        assert((plan[i].task.range_start, plan[i].task.range_end) == t[i]);
        assert((plan[i + 1].task.range_start, plan[i + 1].task.range_end) == t[i + 1]);
        assert(t[i + 1].0 == t[i].1 + 1 && t[i].1 - t[i].0 + 1 == MAX_CHUNK_SIZE);
    }
    assert forall|b: u64| b < file_size implies #[trigger] task_of_byte(b) < plan.len()
        && plan[task_of_byte(b)].task.range_start <= b <= plan[task_of_byte(b)].task.range_end by {
        assert(task_of_byte(b) < t.len());
        assert((plan[task_of_byte(b)].task.range_start, plan[task_of_byte(b)].task.range_end) == t[task_of_byte(b)]);
    }
}

/// The tasks that `distribute_and_dispatch` hands out cover the file
/// exactly, whatever order the servers are taken in (see
/// `lemma_round_robin_plan_covers_file`).
pub proof fn lemma_round_robin_over_covers_file(
    plan: Seq<TaskAssignment>,
    servers: Set<Seq<char>>,
    job_id: Seq<char>,
    url: Seq<char>,
    file_size: nat,
)
    requires
        is_round_robin_over(plan, servers, job_id, url, file_size),
        file_size <= MAX_SPLITTABLE_SIZE,
    ensures
        plan.len() == 0 <==> file_size == 0,
        file_size > 0 ==> plan[0].task.range_start == 0 && plan.last().task.range_end == file_size - 1,
        forall|i: int| 0 <= i < plan.len() ==> #[trigger] plan[i].task.range_start <= plan[i].task.range_end
            && plan[i].task.range_end - plan[i].task.range_start < MAX_CHUNK_SIZE,
        forall|i: int| 0 <= i < plan.len() - 1 ==> #[trigger] plan[i + 1].task.range_start == plan[i].task.range_end + 1
            && plan[i].task.range_end - plan[i].task.range_start + 1 == MAX_CHUNK_SIZE,
        forall|b: u64| b < file_size ==> #[trigger] task_of_byte(b) < plan.len()
            && plan[task_of_byte(b)].task.range_start <= b <= plan[task_of_byte(b)].task.range_end,
{
    let order = choose|order: Seq<Seq<char>>|
        #[trigger] is_round_robin_plan(plan, order, job_id, url, file_size) && order.no_duplicates()
            && order.to_set() == servers;
    lemma_round_robin_plan_covers_file(plan, order, job_id, url, file_size);
}

/// The text of the error when no server is connected.
pub open spec fn no_servers_text() -> Seq<char> {
    "No servers available for download."@
}

impl Distributor {
    /// The identifiers of the servers that tasks go to.
    pub closed spec fn servers(&self) -> Set<Seq<char>> {
        self.connections@
    }

    /// A distributor for the servers of `connections`.
    pub fn new(connections: ConnectionManager) -> (d: Self)
        ensures
            d.servers() == connections@,
    {
        Distributor { connections }
    }

    /// Splits the download of `file_size` bytes from `url` for job `job_id`
    /// into tasks and assigns them to the connected servers in turn, in the
    /// order in which the registry lists them (each server once). Fails
    /// exactly when no server is connected, whatever the file's size; only a
    /// file that is split needs a size whose tasks fit.
    pub fn distribute_and_dispatch(&self, job_id: &str, url: &str, file_size: u64) -> (res: Result<
        Vec<TaskAssignment>,
        DistributedDownloaderError,
    >)
        requires
            self.servers() != Set::<Seq<char>>::empty() ==> file_size <= MAX_SPLITTABLE_SIZE,
        ensures
            match res {
                Ok(plan) => is_round_robin_over(plan@, self.servers(), job_id@, url@, file_size as nat),
                Err(e) => self.servers() == Set::<Seq<char>>::empty() && (e matches DistributedDownloaderError::DownloadError(m)
                    && m@ == no_servers_text()),
            },
    {
        let servers = self.connections.get_all_servers();
        let num_servers = servers.len();
        if num_servers == 0 {
            assert(texts(servers@) =~= Seq::<Seq<char>>::empty());
            assert(texts(servers@).to_set() =~= Set::<Seq<char>>::empty());
            return Err(DistributedDownloaderError::DownloadError("No servers available for download.".to_owned()));
        }
        let ghost order = texts(servers@);
        assert(order.to_set().contains(order[0]));
        let tasks = generate_tasks(file_size);
        let mut plan: Vec<TaskAssignment> = Vec::new();
        let mut i: usize = 0;
        while i < tasks.len()
            invariant
                num_servers == servers@.len(),
                num_servers > 0,
                order == texts(servers@),
                order.no_duplicates(),
                order.to_set() == self.servers(),
                tasks@ == split_spec(file_size as nat),
                i <= tasks@.len(),
                plan@.len() == i,
                forall|j: int|
                    0 <= j < i ==> {
                        let a = #[trigger] plan@[j];
                        &&& a.server_id@ == order[j % num_servers as int]
                        &&& a.task.job_id@ == job_id@
                        &&& a.task.url@ == url@
                        &&& (a.task.range_start, a.task.range_end) == split_spec(file_size as nat)[j]
                        &&& is_v4_uuid_text(a.task.task_id@)
                    },
            decreases tasks@.len() - i,
        {
            let (range_start, range_end) = tasks[i];
            let server_id = servers[i % num_servers].clone();
            assert(texts(servers@)[(i % num_servers) as int] == servers@[(i % num_servers) as int]@);
            let task = DownloadTask {
                job_id: job_id.to_owned(),
                task_id: new_uuid_v4_string(),
                url: url.to_owned(),
                range_start,
                range_end,
            };
            plan.push(TaskAssignment { server_id, task });
            i = i + 1;
        }
        assert(is_round_robin_plan(plan@, order, job_id@, url@, file_size as nat));
        assert(order.no_duplicates() && order.to_set() == self.servers());
        Ok(plan)
    }
}

/// How many tasks of `plan` go to `server`.
pub open spec fn assigned_count(plan: Seq<TaskAssignment>, server: Seq<char>) -> nat
    decreases plan.len(),
{
    if plan.len() == 0 {
        0
    } else {
        assigned_count(plan.drop_last(), server) + if plan.last().server_id@ == server { 1nat } else { 0nat }
    }
}

/// Counting one more position of a round robin over `n` places adds one
/// to the place `m % n` only.
proof fn lemma_round_robin_step(m: int, n: int, k: int)
    requires
        n > 0,
        m >= 0,
        0 <= k < n,
    ensures
        (m + 1) / n + (if k < (m + 1) % n { 1int } else { 0int })
            == m / n + (if k < m % n { 1int } else { 0int }) + (if m % n == k { 1int } else { 0int }),
{
    let q = m / n;
    let r = m % n;
    vstd::arithmetic::div_mod::lemma_fundamental_div_mod(m, n);
    if r + 1 < n {
        vstd::arithmetic::div_mod::lemma_fundamental_div_mod_converse(m + 1, n, q, r + 1);
    } else {
        assert(m + 1 == n * (q + 1) + 0) by (nonlinear_arith)
            requires m == n * q + r, r + 1 == n;
        vstd::arithmetic::div_mod::lemma_fundamental_div_mod_converse(m + 1, n, q + 1, 0);
    }
}

/// A round-robin plan spreads the tasks evenly: with `c` tasks and `n`
/// distinct servers, the server in place `k` gets `c / n` tasks, plus one
/// when `k < c % n`. So no two servers' shares differ by more than one.
pub proof fn lemma_round_robin_balanced(
    plan: Seq<TaskAssignment>,
    servers: Seq<Seq<char>>,
    job_id: Seq<char>,
    url: Seq<char>,
    file_size: nat,
)
    requires
        is_round_robin_plan(plan, servers, job_id, url, file_size),
        servers.no_duplicates(),
    ensures
        forall|k: int|
            0 <= k < servers.len() ==> #[trigger] assigned_count(plan, servers[k]) == (plan.len() as int) / (servers.len() as int)
                + (if k < (plan.len() as int) % (servers.len() as int) { 1int } else { 0int }),
{
    let n = servers.len() as int;
    assert forall|k: int| 0 <= k < servers.len() implies #[trigger] assigned_count(plan, servers[k]) == (plan.len() as int) / n
        + (if k < (plan.len() as int) % n { 1int } else { 0int }) by {
        lemma_round_robin_prefix(plan, servers, job_id, url, file_size, k, plan.len() as int);
        assert(plan.take(plan.len() as int) =~= plan);
    }
}

/// Handing tasks out in turn to a set of servers is fair: with `c` tasks
/// and `n` connected servers, every server gets `c / n` tasks or one more.
pub proof fn lemma_round_robin_over_fair(
    plan: Seq<TaskAssignment>,
    servers: Set<Seq<char>>,
    job_id: Seq<char>,
    url: Seq<char>,
    file_size: nat,
)
    requires
        is_round_robin_over(plan, servers, job_id, url, file_size),
    ensures
        servers.len() > 0,
        forall|s: Seq<char>|
            servers.contains(s) ==> {
                let q = (plan.len() as int) / (servers.len() as int);
                #[trigger] assigned_count(plan, s) == q || assigned_count(plan, s) == q + 1
            },
{
    let order = choose|order: Seq<Seq<char>>|
        #[trigger] is_round_robin_plan(plan, order, job_id, url, file_size) && order.no_duplicates()
            && order.to_set() == servers;
    order.unique_seq_to_set();
    lemma_round_robin_balanced(plan, order, job_id, url, file_size);
    assert forall|s: Seq<char>| servers.contains(s) implies {
        let q = (plan.len() as int) / (servers.len() as int);
        #[trigger] assigned_count(plan, s) == q || assigned_count(plan, s) == q + 1
    } by {
        assert(order.to_set().contains(s));
        let k = choose|k: int| 0 <= k < order.len() && order[k] == s;
        assert(assigned_count(plan, order[k]) == (plan.len() as int) / (order.len() as int)
            + (if k < (plan.len() as int) % (order.len() as int) { 1int } else { 0int }));
    }
}

/// The count of the first `m` tasks of a round-robin plan for the server in place `k`.
proof fn lemma_round_robin_prefix(
    plan: Seq<TaskAssignment>,
    servers: Seq<Seq<char>>,
    job_id: Seq<char>,
    url: Seq<char>,
    file_size: nat,
    k: int,
    m: int,
)
    requires
        is_round_robin_plan(plan, servers, job_id, url, file_size),
        servers.no_duplicates(),
        0 <= k < servers.len(),
        0 <= m <= plan.len(),
    ensures
        assigned_count(plan.take(m), servers[k]) == m / (servers.len() as int) + (if k < m % (servers.len() as int) {
            1int
        } else {
            0int
        }),
    decreases m,
{
    let n = servers.len() as int;
    if m == 0 {
        assert(plan.take(0).len() == 0);
        assert(0int / n == 0 && 0int % n == 0) by (nonlinear_arith) requires n > 0;
    } else {
        lemma_round_robin_prefix(plan, servers, job_id, url, file_size, k, m - 1);
        assert(plan.take(m).drop_last() =~= plan.take(m - 1));
        assert(plan.take(m).last() == plan[m - 1]);
        let a = plan[m - 1];
        assert(a.server_id@ == servers[(m - 1) % n]);
        let p = (m - 1) % n;
        assert(0 <= p < n) by (nonlinear_arith) requires n > 0, p == (m - 1) % n, m - 1 >= 0;
        assert((servers[p] == servers[k]) == (p == k));
        lemma_round_robin_step(m - 1, n, k);
    }
}

} // verus!
