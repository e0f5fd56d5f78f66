//! The checks of a ranged HTTP download: the `Range` header it sends, the
//! statuses it accepts, and the body it collects chunk by chunk, which must
//! be exactly as long as the range.

use vstd::prelude::*;
use crate::error::DistributedDownloaderError;
use crate::text::{decimal, u64_to_decimal};

verus! {

/// The value of the `Range` header that asks for bytes `left` to `right`.
pub open spec fn range_header_spec(left: u64, right: u64) -> Seq<char> {
    "bytes="@ + decimal(left as nat) + "-"@ + decimal(right as nat)
}

/// The value of the `Range` header that asks for bytes `left` to `right`,
/// both included: `bytes=<left>-<right>`.
pub fn range_header(left: u64, right: u64) -> (h: String)
    ensures
        h@ == range_header_spec(left, right),
{
    let mut h = "bytes=".to_owned();
    let l = u64_to_decimal(left);
    h.append(l.as_str());
    h.append("-");
    let r = u64_to_decimal(right);
    h.append(r.as_str());
    h
}

/// Whether an HTTP status code reports success (200 to 299).
pub open spec fn is_success_spec(code: u16) -> bool {
    200 <= code && code <= 299
}

/// Whether an HTTP status code reports success, as `StatusCode::is_success` says.
pub fn is_success(code: u16) -> (res: bool)
    ensures
        res == is_success_spec(code),
        res <==> (200 <= code && code < 300),
{
    200 <= code && code <= 299
}

/// Accepts a response whose status reports success; any other status fails
/// the download with the status's text (as the status displays itself).
pub fn check_status(code: u16, status_text: &str) -> (res: Result<(), DistributedDownloaderError>)
    ensures
        res is Ok <==> is_success_spec(code),
        res is Ok <==> (200 <= code && code < 300),
        res matches Err(e) ==> (e matches DistributedDownloaderError::HttpError(m)
            && m@ == "HTTP request failed with status: "@ + status_text@),
{
    if is_success(code) {
        Ok(())
    } else {
        let mut m = "HTTP request failed with status: ".to_owned();
        m.append(status_text);
        Err(DistributedDownloaderError::HttpError(m))
    }
}

/// The number of bytes in the range from `left` to `right`, both included;
/// a range whose end lies before its start counts as one byte.
pub open spec fn range_size(left: u64, right: u64) -> int {
    (if right >= left { right - left } else { 0 }) + 1
}

/// A status is accepted exactly when its code lies from 200 to 299: every
/// informational code, and every code of 300 and above (redirections,
/// client errors, server errors), is refused.
pub proof fn lemma_success_is_2xx(code: u16)
    ensures
        is_success_spec(code) <==> (200 <= code && code < 300),
        code < 200 ==> !is_success_spec(code),
        code >= 300 ==> !is_success_spec(code),
{
}

/// A range from `left` to `right`, both included, with `left <= right`
/// holds `right - left + 1` bytes; the first and last byte of a file of
/// `n > 0` bytes make a range of `n` bytes.
pub proof fn lemma_range_size_counts_bytes(left: u64, right: u64)
    requires
        left <= right,
    ensures
        range_size(left, right) == right - left + 1,
        left == 0 ==> range_size(left, right) == right + 1,
{
}

/// The message when a chunk would take the body past the range's size.
pub open spec fn too_much_data_text(left: u64, right: u64, expected: u64, received: u64, chunk: u64) -> Seq<char> {
    "Received more data than expected for range "@ + decimal(left as nat) + "-"@ + decimal(right as nat)
        + ". Expected: "@ + decimal(expected as nat) + " bytes, Received so far: "@ + decimal(received as nat)
        + " bytes, Current chunk: "@ + decimal(chunk as nat) + " bytes."@
}

/// The message when the body ends short of the range's size.
pub open spec fn too_little_data_text(left: u64, right: u64, expected: u64, received: u64) -> Seq<char> {
    "Did not receive the expected amount of data for range "@ + decimal(left as nat) + "-"@ + decimal(
        right as nat,
    ) + ". Expected: "@ + decimal(expected as nat) + " bytes, Received: "@ + decimal(received as nat)
        + " bytes."@
}

/// `s` with the decimal text of `n` appended.
fn append_decimal(s: &mut String, n: u64)
    ensures
        final(s)@ == old(s)@ + decimal(n as nat),
{
    let d = u64_to_decimal(n);
    s.append(d.as_str());
}

/// The body of a ranged download as it arrives.
pub struct RangeDownload {
    left_point: u64,
    right_point: u64,
    total_size: u64,
    received: u64,
    data: Vec<u8>,
}

impl RangeDownload {
    /// The first byte of the range.
    pub closed spec fn left(&self) -> u64 {
        self.left_point
    }

    /// The last byte of the range.
    pub closed spec fn right(&self) -> u64 {
        self.right_point
    }

    /// The bytes received so far.
    pub closed spec fn data(&self) -> Seq<u8> {
        self.data@
    }

    /// The body is consistent: the count of received bytes is the length of
    /// the data, and never more than the range's size.
    #[verifier::type_invariant]
    spec fn consistent(self) -> bool {
        &&& self.received == self.data@.len()
        &&& self.total_size == range_size(self.left_point, self.right_point)
        &&& self.received <= self.total_size
    }

    /// The number of bytes the range holds.
    pub closed spec fn expected(&self) -> u64 {
        self.total_size
    }

    /// Starts collecting the body of the range from `left_point` to
    /// `right_point`, both included.
    pub fn new(left_point: u64, right_point: u64) -> (d: Self)
        requires
            range_size(left_point, right_point) <= u64::MAX,
        ensures
            d.left() == left_point,
            d.right() == right_point,
            d.expected() == range_size(left_point, right_point),
            left_point <= right_point ==> d.expected() == right_point - left_point + 1,
            d.data() == Seq::<u8>::empty(),
    {
        let total_size = right_point.saturating_sub(left_point) + 1;
        let d = RangeDownload { left_point, right_point, total_size, received: 0, data: Vec::new() };
        assert(d.data@ =~= Seq::<u8>::empty());
        d
    }

    /// The number of bytes the range holds.
    pub fn total_size(&self) -> (n: u64)
        ensures
            n == self.expected(),
    {
        self.total_size
    }

    /// Adds the next chunk of the body. A chunk that would take the body past
    /// the range's size is refused, and the body stays as it was.
    pub fn accept_chunk(&mut self, chunk: &[u8]) -> (res: Result<(), DistributedDownloaderError>)
        ensures
            final(self).left() == old(self).left(),
            final(self).right() == old(self).right(),
            final(self).expected() == old(self).expected(),
            res is Ok <==> old(self).data().len() + chunk@.len() <= old(self).expected(),
            res is Ok ==> final(self).data() == old(self).data() + chunk@,
            res matches Err(e) ==> {
                &&& final(self).data() == old(self).data()
                &&& e matches DistributedDownloaderError::HttpError(m)
                &&& m@ == too_much_data_text(
                    old(self).left(),
                    old(self).right(),
                    old(self).expected(),
                    old(self).data().len() as u64,
                    chunk@.len() as u64,
                )
            },
    {
        proof { use_type_invariant(&*self); }
        let len = chunk.len() as u64;
        if len > self.total_size - self.received {
            let mut m = "Received more data than expected for range ".to_owned();
            append_decimal(&mut m, self.left_point);
            m.append("-");
            append_decimal(&mut m, self.right_point);
            m.append(". Expected: ");
            append_decimal(&mut m, self.total_size);
            m.append(" bytes, Received so far: ");
            append_decimal(&mut m, self.received);
            m.append(" bytes, Current chunk: ");
            append_decimal(&mut m, len);
            m.append(" bytes.");
            return Err(DistributedDownloaderError::HttpError(m));
        }
        let mut body = RangeDownload::new(self.left_point, self.right_point);
        std::mem::swap(self, &mut body);
        let RangeDownload { left_point, right_point, total_size, received, mut data } = body;
        let ghost before = data@;
        data.extend_from_slice(chunk);
        assert(data@ =~= before + chunk@);
        *self = RangeDownload { left_point, right_point, total_size, received: received + len, data };
        Ok(())
    }

    /// Ends the body: it must hold exactly as many bytes as the range.
    pub fn finish(self) -> (res: Result<Vec<u8>, DistributedDownloaderError>)
        ensures
            res is Ok <==> self.data().len() == self.expected(),
            res matches Ok(data) ==> data@ == self.data(),
            res matches Err(e) ==> (e matches DistributedDownloaderError::HttpError(m)
                && m@ == too_little_data_text(self.left(), self.right(), self.expected(), self.data().len() as u64)),
    {
        proof { use_type_invariant(&self); }
        if self.received != self.total_size {
            let mut m = "Did not receive the expected amount of data for range ".to_owned();
            append_decimal(&mut m, self.left_point);
            m.append("-");
            append_decimal(&mut m, self.right_point);
            m.append(". Expected: ");
            append_decimal(&mut m, self.total_size);
            m.append(" bytes, Received: ");
            append_decimal(&mut m, self.received);
            m.append(" bytes.");
            return Err(DistributedDownloaderError::HttpError(m));
        }
        Ok(self.data)
    }
}

} // verus!
