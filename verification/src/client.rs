//! The client: what it asks the manager for, and what it does with each
//! message of the manager's answer stream.

use vstd::prelude::*;
use crate::proto::distributed_downloader::{ClientDataChunk, ClientPayload, DownloadRequest};
use crate::utils::distributor::{lemma_tasks_partition_file, split_spec, task_of_byte, MAX_SPLITTABLE_SIZE};

verus! {

/// The command-line arguments of the client.
#[derive(Debug)]
pub struct Args {
    /// The URL of the file to download.
    pub url: String,
    /// The output file name; taken from the URL when absent.
    pub output: Option<String>,
    /// The address of the manager, such as `http://127.0.0.1:5000`.
    pub manager_address: String,
}

/// What `url::Url::parse` followed by `path_segments()` gives for a text:
/// `Err` with the parse error's displayed text when the text does not parse
/// as a URL, `Ok(None)` when the URL has no path segments (a
/// cannot-be-a-base URL), and otherwise `Ok` of the segments of its path, in
/// order.
pub uninterp spec fn url_path_segments(url: Seq<char>) -> Result<Option<Seq<Seq<char>>>, Seq<char>>;

/// The text of each string in a sequence of strings.
pub open spec fn segment_texts(v: Seq<String>) -> Seq<Seq<char>> {
    v.map_values(|s: String| s@)
}

/// Optional path segments, by their text.
pub open spec fn segments_view(v: Option<Vec<String>>) -> Option<Seq<Seq<char>>> {
    match v {
        None => None,
        Some(s) => Some(segment_texts(s@)),
    }
}

/// The outcome of parsing a URL and collecting its path segments, by text.
pub open spec fn parsed_view(r: Result<Option<Vec<String>>, String>) -> Result<Option<Seq<Seq<char>>>, Seq<char>> {
    match r {
        Ok(v) => Ok(segments_view(v)),
        Err(t) => Err(t@),
    }
}

/// Parses `url` with `url::Url::parse` and collects its `path_segments()`;
/// a parse error is turned into the text that `url::ParseError` displays.
/// The outcome is a function of the text alone; which function (the URL
/// grammar) is left to the name `url_path_segments`. The segments are the
/// path without its leading `/` split at `/`, so there is at least one, and
/// an error's text is one of the fixed descriptions of the crate's
/// `Display` for `ParseError`.
#[verifier::external_body]
fn path_segments(url: &str) -> (res: Result<Option<Vec<String>>, String>)
    ensures
        parsed_view(res) == url_path_segments(url@),
        res matches Ok(Some(v)) ==> v@.len() > 0,
        res matches Err(t) ==> is_url_parse_error_text(t@),
{
    match url::Url::parse(url) {
        Err(e) => Err(e.to_string()),
        Ok(u) => match u.path_segments() {
            None => Ok(None),
            Some(segments) => Ok(Some(segments.map(String::from).collect())),
        },
    }
}

/// The texts that a `url::ParseError` displays, one per kind of error.
pub open spec fn is_url_parse_error_text(t: Seq<char>) -> bool {
    ||| t == "empty host"@
    ||| t == "invalid international domain name"@
    ||| t == "invalid port number"@
    ||| t == "invalid IPv4 address"@
    ||| t == "invalid IPv6 address"@
    ||| t == "invalid domain character"@
    ||| t == "relative URL without a base"@
    ||| t == "relative URL with a cannot-be-a-base base"@
    ||| t == "a cannot-be-a-base URL doesn’t have a host to set"@
    ||| t == "URLs more than 4 GB are not supported"@
}

/// Why the client gives up.
#[derive(Debug)]
pub enum ClientError {
    /// The URL does not parse; the text of the parse error.
    InvalidUrl(String),
    /// The URL has no path segments.
    NoPathSegments,
    /// The URL's path has no last segment.
    NoLastSegment,
    /// The manager's first message was not the file's metadata.
    FirstMessageNotMetadata,
    /// The manager closed the stream before sending the file's metadata.
    ClosedBeforeMetadata,
    /// The stream failed; the text of the failure.
    StreamFailed(String),
}

/// The text of a client error.
pub open spec fn client_error_text(e: ClientError) -> Seq<char> {
    match e {
        ClientError::InvalidUrl(t) => t@,
        ClientError::NoPathSegments => "Could not get path segments from URL"@,
        ClientError::NoLastSegment => "Could not get last path segment from URL"@,
        ClientError::FirstMessageNotMetadata => "First message from server was not metadata."@,
        ClientError::ClosedBeforeMetadata => "Manager closed stream before sending metadata."@,
        ClientError::StreamFailed(t) => t@,
    }
}

impl ClientError {
    /// The text of the error.
    pub fn message(&self) -> (s: String)
        ensures
            s@ == client_error_text(*self),
    {
        match self {
            ClientError::InvalidUrl(t) => t.clone(),
            ClientError::NoPathSegments => "Could not get path segments from URL".to_owned(),
            ClientError::NoLastSegment => "Could not get last path segment from URL".to_owned(),
            ClientError::FirstMessageNotMetadata => "First message from server was not metadata.".to_owned(),
            ClientError::ClosedBeforeMetadata => "Manager closed stream before sending metadata.".to_owned(),
            ClientError::StreamFailed(t) => t.clone(),
        }
    }
}

/// The name used for the downloaded file when the URL's path ends with `/`.
pub open spec fn default_file_name() -> Seq<char> {
    "downloaded_file"@
}

/// The file name that a last path segment gives: the segment itself, or
/// `downloaded_file` when it is empty.
pub open spec fn name_from_last_segment(last: Seq<char>) -> Seq<char> {
    if last.len() == 0 { default_file_name() } else { last }
}

/// The name from a last path segment is the whole segment, character for
/// character, when the segment is not empty, and `downloaded_file` when it is.
pub proof fn lemma_name_is_whole_segment(last: Seq<char>)
    ensures
        last.len() > 0 ==> name_from_last_segment(last) == last,
        last.len() == 0 ==> name_from_last_segment(last) == "downloaded_file"@,
{
}

/// The file name for a URL's path segments, from its last segment: fails
/// with `NoPathSegments` when there are no path segments and with
/// `NoLastSegment` when the list of segments is empty.
pub fn file_name_from_segments(segments: Option<Vec<String>>) -> (res: Result<String, ClientError>)
    ensures
        match segments_view(segments) {
            None => res matches Err(ClientError::NoPathSegments),
            Some(segs) => if segs.len() == 0 {
                res matches Err(ClientError::NoLastSegment)
            } else {
                &&& res matches Ok(name) && name@ == name_from_last_segment(segs.last())
                &&& segs.last().len() > 0 ==> (res matches Ok(name) && name@ == segs.last())
            },
        },
{
    match segments {
        None => Err(ClientError::NoPathSegments),
        Some(segs) => {
            let n = segs.len();
            if n == 0 {
                Err(ClientError::NoLastSegment)
            } else {
                let last = &segs[n - 1];
                assert(segment_texts(segs@).last() == last@);
                if last.as_str().is_empty() {
                    Ok("downloaded_file".to_owned())
                } else {
                    Ok(last.clone())
                }
            }
        },
    }
}

/// Where the client writes the file of `url`: the output name given, or
/// else the last segment of the URL's path (`downloaded_file` if that is
/// empty).
pub fn output_file_name(url: &str, output: &Option<String>) -> (res: Result<String, ClientError>)
    ensures
        output is Some ==> (res matches Ok(name) && name@ == output->0@),
        output is None ==> match url_path_segments(url@) {
            Err(text) => (res matches Err(ClientError::InvalidUrl(t)) && t@ == text
                && is_url_parse_error_text(text)),
            Ok(None) => res matches Err(ClientError::NoPathSegments),
            Ok(Some(segs)) => (res matches Ok(name) && segs.len() > 0
                && name@ == name_from_last_segment(segs.last())
                && (segs.last().len() > 0 ==> name@ == segs.last())),
        },
{
    match output {
        Some(name) => Ok(name.clone()),
        None => match path_segments(url) {
            Err(text) => Err(ClientError::InvalidUrl(text)),
            Ok(segments) => file_name_from_segments(segments),
        },
    }
}

/// Whether the file name for `url` falls back to `downloaded_file` because
/// the URL's path ends with an empty segment (the client warns of that).
pub fn uses_default_file_name(url: &str) -> (res: bool)
    ensures
        res == (url_path_segments(url@) matches Ok(Some(segs)) && segs.len() > 0 && segs.last().len() == 0),
{
    match path_segments(url) {
        Ok(Some(segs)) => {
            let n = segs.len();
            if n == 0 {
                false
            } else {
                assert(segment_texts(segs@).last() == segs@[n - 1]@);
                segs[n - 1].as_str().is_empty()
            }
        },
        _ => false,
    }
}

/// The request that the client sends to the manager for `args`: the URL,
/// and the output file name that `output_file_name` gives, or its error.
pub fn download_request(args: &Args) -> (res: Result<DownloadRequest, ClientError>)
    ensures
        match args.output {
            Some(name) => (res matches Ok(r) && r.url@ == args.url@ && r.output_file@ == name@),
            None => match url_path_segments(args.url@) {
                Err(text) => (res matches Err(ClientError::InvalidUrl(t)) && t@ == text
                    && is_url_parse_error_text(text)),
                Ok(None) => res matches Err(ClientError::NoPathSegments),
                Ok(Some(segs)) => (res matches Ok(r) && segs.len() > 0 && r.url@ == args.url@
                    && r.output_file@ == name_from_last_segment(segs.last())
                    && (segs.last().len() > 0 ==> r.output_file@ == segs.last())),
            },
        },
{
    let output_file = output_file_name(args.url.as_str(), &args.output)?;
    Ok(DownloadRequest { url: args.url.clone(), output_file })
}

/// Where the client stands with the manager's stream.
#[derive(Debug)]
pub enum ClientSession {
    /// The file's metadata has not arrived yet.
    AwaitingMetadata,
    /// The metadata arrived; data chunks follow.
    Receiving { job_id: String, file_size: u64 },
    /// The stream is over.
    Finished,
}

/// What the client receives on the manager's stream.
#[derive(Debug)]
pub enum ClientStreamEvent {
    /// A message.
    Message(ClientDataChunk),
    /// The stream failed, with the text of the failure.
    Failed(String),
    /// The stream ended.
    Ended,
}

/// What the client does after an event of the stream.
#[derive(Debug)]
pub enum ClientStep {
    /// Create the output file with `file_size` bytes, for job `job_id`.
    Prepare { job_id: String, file_size: u64 },
    /// Write `data` at byte `offset` of the output file.
    Write { offset: u64, data: Vec<u8> },
    /// Warn of a message that is not a data chunk, and go on.
    WarnNotChunk,
    /// The download is complete.
    Complete,
    /// Give up.
    Fail(ClientError),
    /// Nothing to do.
    Nothing,
}

/// Handles one event of the manager's stream: the first message must be the
/// file's metadata, after which every data chunk is written at its offset.
pub fn on_client_event(session: ClientSession, event: ClientStreamEvent) -> (res: (ClientSession, ClientStep))
    ensures
        match session {
            ClientSession::AwaitingMetadata => match event {
                ClientStreamEvent::Message(m) => match m.payload {
                    Some(ClientPayload::Metadata(md)) => {
                        &&& res.0 == (ClientSession::Receiving { job_id: md.job_id, file_size: md.file_size })
                        &&& res.1 == (ClientStep::Prepare { job_id: md.job_id, file_size: md.file_size })
                    },
                    _ => res.0 == ClientSession::Finished && res.1 == ClientStep::Fail(ClientError::FirstMessageNotMetadata),
                },
                ClientStreamEvent::Failed(t) => res.0 == ClientSession::Finished && res.1 == ClientStep::Fail(
                    ClientError::StreamFailed(t),
                ),
                ClientStreamEvent::Ended => res.0 == ClientSession::Finished && res.1 == ClientStep::Fail(
                    ClientError::ClosedBeforeMetadata,
                ),
            },
            ClientSession::Receiving { job_id, file_size } => match event {
                ClientStreamEvent::Message(m) => {
                    &&& res.0 == (ClientSession::Receiving { job_id, file_size })
                    &&& match m.payload {
                        Some(ClientPayload::Chunk(c)) => res.1 == (ClientStep::Write { offset: c.offset, data: c.data }),
                        _ => res.1 == ClientStep::WarnNotChunk,
                    }
                },
                ClientStreamEvent::Failed(t) => res.0 == ClientSession::Finished && res.1 == ClientStep::Fail(
                    ClientError::StreamFailed(t),
                ),
                ClientStreamEvent::Ended => res.0 == ClientSession::Finished && res.1 == ClientStep::Complete,
            },
            ClientSession::Finished => res.0 == ClientSession::Finished && res.1 == ClientStep::Nothing,
        },
{
    match session {
        ClientSession::AwaitingMetadata => match event {
            ClientStreamEvent::Message(m) => match m.payload {
                Some(ClientPayload::Metadata(md)) => {
                    let job_id = md.job_id.clone();
                    (
                        ClientSession::Receiving { job_id, file_size: md.file_size },
                        ClientStep::Prepare { job_id: md.job_id, file_size: md.file_size },
                    )
                },
                _ => (ClientSession::Finished, ClientStep::Fail(ClientError::FirstMessageNotMetadata)),
            },
            ClientStreamEvent::Failed(t) => (ClientSession::Finished, ClientStep::Fail(ClientError::StreamFailed(t))),
            ClientStreamEvent::Ended => (ClientSession::Finished, ClientStep::Fail(ClientError::ClosedBeforeMetadata)),
        },
        ClientSession::Receiving { job_id, file_size } => match event {
            ClientStreamEvent::Message(m) => {
                let step = match m.payload {
                    Some(ClientPayload::Chunk(c)) => ClientStep::Write { offset: c.offset, data: c.data },
                    _ => ClientStep::WarnNotChunk,
                };
                (ClientSession::Receiving { job_id, file_size }, step)
            },
            ClientStreamEvent::Failed(t) => (ClientSession::Finished, ClientStep::Fail(ClientError::StreamFailed(t))),
            ClientStreamEvent::Ended => (ClientSession::Finished, ClientStep::Complete),
        },
        ClientSession::Finished => (ClientSession::Finished, ClientStep::Nothing),
    }
}

/// The output file after `data` is written at byte `offset`: the bytes that
/// the data covers are replaced, the others stay, and the length is kept.
pub open spec fn write_at(file: Seq<u8>, offset: int, data: Seq<u8>) -> Seq<u8> {
    Seq::new(file.len(), |j: int| if offset <= j < offset + data.len() { data[j - offset] } else { file[j] })
}

/// The output file after `writes`, each an offset and its bytes, one after
/// the other.
pub open spec fn apply_writes(file: Seq<u8>, writes: Seq<(u64, Seq<u8>)>) -> Seq<u8>
    decreases writes.len(),
{
    if writes.len() == 0 {
        file
    } else {
        write_at(apply_writes(file, writes.drop_last()), writes.last().0 as int, writes.last().1)
    }
}

/// The write that brings the bytes of file `f` in the inclusive range `r`:
/// they go at the range's start.
pub open spec fn task_write(f: Seq<u8>, r: (u64, u64)) -> (u64, Seq<u8>) {
    (r.0, f.subrange(r.0 as int, r.1 + 1))
}

/// Write `w` covers byte `j`.
spec fn covers(w: (u64, Seq<u8>), j: int) -> bool {
    w.0 <= j < w.0 + w.1.len()
}

/// Each of `writes` brings the bytes of one of the task ranges of `f`.
pub open spec fn only_task_writes(f: Seq<u8>, writes: Seq<(u64, Seq<u8>)>) -> bool {
    forall|k: int| 0 <= k < writes.len() ==> exists|i: int|
        0 <= i < split_spec(f.len()).len() && #[trigger] writes[k] == task_write(f, split_spec(f.len())[i])
}

/// Every task range of `f` is brought by at least one of `writes`.
pub open spec fn every_task_written(f: Seq<u8>, writes: Seq<(u64, Seq<u8>)>) -> bool {
    forall|i: int| 0 <= i < split_spec(f.len()).len() ==> exists|k: int|
        0 <= k < writes.len() && writes[k] == task_write(f, #[trigger] split_spec(f.len())[i])
}

/// Some write of `writes` covers byte `j`.
spec fn covered(writes: Seq<(u64, Seq<u8>)>, j: int) -> bool {
    exists|k: int| 0 <= k < writes.len() && covers(#[trigger] writes[k], j)
}

/// Every write stays inside `f` and carries the bytes that `f` holds there.
spec fn writes_agree(f: Seq<u8>, writes: Seq<(u64, Seq<u8>)>) -> bool {
    forall|k: int| 0 <= k < writes.len() ==> {
        &&& #[trigger] writes[k].0 + writes[k].1.len() <= f.len()
        &&& writes[k].1 == f.subrange(writes[k].0 as int, writes[k].0 + writes[k].1.len())
    }
}

/// After writes that agree with `f`, a byte that some write covers is the
/// byte of `f`, and any other byte is as it was.
proof fn lemma_agreeing_writes(f: Seq<u8>, start: Seq<u8>, writes: Seq<(u64, Seq<u8>)>)
    requires
        start.len() == f.len(),
        writes_agree(f, writes),
    ensures
        apply_writes(start, writes).len() == f.len(),
        forall|j: int| 0 <= j < f.len() ==> #[trigger] apply_writes(start, writes)[j] == if covered(writes, j) {
            f[j]
        } else {
            start[j]
        },
    decreases writes.len(),
{
    if writes.len() > 0 {
        let init = writes.drop_last();
        let n = writes.len() - 1;
        assert forall|k: int| 0 <= k < init.len() implies {
            &&& #[trigger] init[k].0 + init[k].1.len() <= f.len()
            &&& init[k].1 == f.subrange(init[k].0 as int, init[k].0 + init[k].1.len())
        } by {
            assert(init[k] == writes[k]);
        }
        lemma_agreeing_writes(f, start, init);
        let w = writes[n];
        assert(w.0 + w.1.len() <= f.len() && w.1 == f.subrange(w.0 as int, w.0 + w.1.len()));
        assert forall|j: int| 0 <= j < f.len() implies #[trigger] apply_writes(start, writes)[j] == if covered(writes, j) {
            f[j]
        } else {
            start[j]
        } by {
            if covers(w, j) {
                assert(w.1[j - w.0] == f[j]);
            } else {
                if covered(init, j) {
                    let k = choose|k: int| 0 <= k < init.len() && covers(#[trigger] init[k], j);
                    assert(init[k] == writes[k]);
                }
                if covered(writes, j) {
                    let k = choose|k: int| 0 <= k < writes.len() && covers(#[trigger] writes[k], j);
                    if k < n {
                        assert(init[k] == writes[k]);
                    }
                }
            }
        }
    }
}

/// Every task range of a file lies inside it.
proof fn lemma_task_ranges_inside(file_size: u64)
    requires
        file_size <= MAX_SPLITTABLE_SIZE,
    ensures
        forall|i: int| 0 <= i < split_spec(file_size as nat).len() ==> {
            &&& #[trigger] split_spec(file_size as nat)[i].0 <= split_spec(file_size as nat)[i].1
            &&& split_spec(file_size as nat)[i].1 < file_size
        },
{
    lemma_tasks_partition_file(file_size);
    let t = split_spec(file_size as nat);
    assert forall|i: int| 0 <= i < t.len() implies #[trigger] t[i].0 <= t[i].1 && t[i].1 < file_size by {
        assert(t[i].0 <= t[i].1);
        assert(t.len() > 0);
        assert(file_size > 0);
    }
}

/// Writes of task ranges of `f` stay inside `f` and carry its bytes.
proof fn lemma_task_writes_agree(f: Seq<u8>, writes: Seq<(u64, Seq<u8>)>)
    requires
        f.len() <= MAX_SPLITTABLE_SIZE,
        only_task_writes(f, writes),
    ensures
        writes_agree(f, writes),
{
    let t = split_spec(f.len());
    lemma_task_ranges_inside(f.len() as u64);
    assert forall|k: int| 0 <= k < writes.len() implies {
        &&& #[trigger] writes[k].0 + writes[k].1.len() <= f.len()
        &&& writes[k].1 == f.subrange(writes[k].0 as int, writes[k].0 + writes[k].1.len())
    } by {
        let i = choose|i: int| 0 <= i < t.len() && writes[k] == task_write(f, t[i]);
        assert(t[i].0 <= t[i].1 && t[i].1 < f.len());
    }
}

/// When every task range of `f` is written, every byte of `f` is covered.
proof fn lemma_task_writes_cover(f: Seq<u8>, writes: Seq<(u64, Seq<u8>)>)
    requires
        f.len() <= MAX_SPLITTABLE_SIZE,
        every_task_written(f, writes),
    ensures
        forall|j: int| 0 <= j < f.len() ==> #[trigger] covered(writes, j),
{
    let t = split_spec(f.len());
    lemma_tasks_partition_file(f.len() as u64);
    assert forall|j: int| 0 <= j < f.len() implies #[trigger] covered(writes, j) by {
        let b = j as u64;
        let i = task_of_byte(b);
        assert(t[i].0 <= b <= t[i].1);
        let k = choose|k: int| 0 <= k < writes.len() && writes[k] == task_write(f, t[i]);
        assert(covers(writes[k], j));
    }
}

/// The file comes out whole. Whatever order the task results arrive in,
/// and however often one arrives again: once the client's file of
/// `f.len()` bytes has received, each at its range's start, the bytes of
/// every range that `generate_tasks` cuts `f` into, and nothing else, it
/// holds exactly `f`.
pub proof fn lemma_task_writes_rebuild_file(f: Seq<u8>, start: Seq<u8>, writes: Seq<(u64, Seq<u8>)>)
    requires
        f.len() <= MAX_SPLITTABLE_SIZE,
        start.len() == f.len(),
        only_task_writes(f, writes),
        every_task_written(f, writes),
    ensures
        apply_writes(start, writes) == f,
{
    lemma_task_writes_agree(f, writes);
    lemma_task_writes_cover(f, writes);
    lemma_agreeing_writes(f, start, writes);
    let out = apply_writes(start, writes);
    assert forall|j: int| 0 <= j < f.len() implies out[j] == f[j] by {
        assert(covered(writes, j));
    }
    assert(out =~= f);
}

} // verus!
