//! A client in the connection-oriented protocol: its dialogue with the
//! manager and where each chunk of the file goes.

use vstd::prelude::*;
use crate::network::manager::FileInfoResponse;
use crate::text::{has_prefix, skip_chars, starts_with, str_eq, text_of_bytes, utf8_lossy};

verus! {

/// The client side of the connection-oriented protocol.
pub struct ClientNetwork;

/// The sum of the first `n` sizes.
pub open spec fn prefix_sum(sizes: Seq<u64>, n: int) -> int
    decreases n,
{
    if n <= 0 {
        0
    } else {
        prefix_sum(sizes, n - 1) + sizes[n - 1]
    }
}

/// Prefix sums grow with the number of sizes summed.
proof fn lemma_prefix_sum_monotone(sizes: Seq<u64>, a: int, b: int)
    requires
        0 <= a <= b <= sizes.len(),
    ensures
        prefix_sum(sizes, a) <= prefix_sum(sizes, b),
    decreases b - a,
{
    if a < b {
        lemma_prefix_sum_monotone(sizes, a, b - 1);
    }
}

/// Each chunk begins where the previous one ends: the position of chunk
/// `i + 1` is the position of chunk `i` plus its size, and the first chunk
/// begins at 0.
pub proof fn lemma_chunks_follow_each_other(sizes: Seq<u64>, i: int)
    requires
        0 <= i < sizes.len(),
    ensures
        prefix_sum(sizes, 0) == 0,
        prefix_sum(sizes, i + 1) == prefix_sum(sizes, i) + sizes[i],
{
}

/// Whether all `sizes` fit together in a `u64`, which `chunk_positions` needs.
pub fn prefix_sum_fits(sizes: &Vec<u64>) -> (res: bool)
    ensures
        res == (prefix_sum(sizes@, sizes@.len() as int) <= u64::MAX),
{
    let mut total: u64 = 0;
    let mut i: usize = 0;
    while i < sizes.len()
        invariant
            i <= sizes@.len(),
            total == prefix_sum(sizes@, i as int),
        decreases sizes@.len() - i,
    {
        if total > u64::MAX - sizes[i] {
            proof {
                lemma_prefix_sum_monotone(sizes@, i + 1, sizes@.len() as int);
            }
            return false;
        }
        total = total + sizes[i];
        i = i + 1;
    }
    true
}

/// The text that precedes the file information in the manager's answer.
pub open spec fn file_info_prefix() -> Seq<char> {
    "file_info:"@
}

impl ClientNetwork {
    /// Whether the manager's reply, read as text, lets the client go on.
    pub fn is_go_ahead(reply: &[u8]) -> (res: bool)
        ensures
            res == (utf8_lossy(reply@) == "go_ahead"@),
    {
        let text = text_of_bytes(reply);
        str_eq(text.as_str(), "go_ahead")
    }

    /// The file information in the manager's answer, read as text, which
    /// must start with `file_info:`; what follows that prefix.
    pub fn file_info_payload(response: &[u8]) -> (res: Option<String>)
        ensures
            has_prefix(utf8_lossy(response@), file_info_prefix()) ==> (res matches Some(p)
                && p@ == utf8_lossy(response@).subrange(
                    file_info_prefix().len() as int,
                    utf8_lossy(response@).len() as int,
                )),
            !has_prefix(utf8_lossy(response@), file_info_prefix()) ==> res is None,
    {
        let text = text_of_bytes(response);
        if starts_with(text.as_str(), "file_info:") {
            proof {
                reveal_strlit("file_info:");
            }
            Some(skip_chars(text.as_str(), 10))
        } else {
            None
        }
    }

    /// Whether bytes from the manager, read as text, announce task data
    /// rather than carry file data.
    pub fn is_task_data_marker(message: &[u8]) -> (res: bool)
        ensures
            res == has_prefix(utf8_lossy(message@), "task_data:"@),
    {
        let text = text_of_bytes(message);
        starts_with(text.as_str(), "task_data:")
    }

    /// Where each chunk of the file begins: chunk `i` begins after the
    /// sizes of the chunks before it; a chunk without a size begins at 0.
    /// There must be no more sizes than chunks, and all sizes must fit
    /// together in a `u64`.
    pub fn chunk_positions(file_info: &FileInfoResponse) -> (positions: Vec<u64>)
        requires
            file_info.chunk_sizes@.len() <= file_info.chunk_count,
            prefix_sum(file_info.chunk_sizes@, file_info.chunk_sizes@.len() as int) <= u64::MAX,
        ensures
            positions@.len() == file_info.chunk_count,
            forall|i: int| 0 <= i < file_info.chunk_count ==> #[trigger] positions@[i] == if i < file_info.chunk_sizes@.len() {
                prefix_sum(file_info.chunk_sizes@, i)
            } else {
                0
            },
    {
        let n = file_info.chunk_count;
        let sizes = &file_info.chunk_sizes;
        let mut positions: Vec<u64> = Vec::new();
        let mut j: usize = 0;
        while j < n
            invariant
                j <= n,
                positions@.len() == j,
                forall|i: int| 0 <= i < j ==> positions@[i] == 0,
            decreases n - j,
        {
            positions.push(0);
            j = j + 1;
        }
        let mut pos: u64 = 0;
        let mut i: usize = 0;
        while i < sizes.len()
            invariant
                sizes@.len() <= n,
                positions@.len() == n,
                prefix_sum(sizes@, sizes@.len() as int) <= u64::MAX,
                i <= sizes@.len(),
                pos == prefix_sum(sizes@, i as int),
                forall|k: int| 0 <= k < n ==> #[trigger] positions@[k] == if k < i {
                    prefix_sum(sizes@, k)
                } else {
                    0
                },
            decreases sizes@.len() - i,
        {
            positions.set(i, pos);
            proof {
                lemma_prefix_sum_monotone(sizes@, i + 1, sizes@.len() as int);
            }
            pos = pos + sizes[i];
            i = i + 1;
        }
        positions
    }
}

} // verus!
