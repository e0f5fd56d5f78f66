//! The manager: which servers are connected, which clients wait for data,
//! and what the manager does with each message of a server.

use vstd::prelude::*;
use crate::text::{parse_u64, parse_u64_spec};
use crate::error::labelled;
use crate::ids::{is_v4_uuid_text, new_uuid_v4_string};
use crate::proto::distributed_downloader::{ClientDataChunk, ClientPayload, DataChunk, FileMetadata, ServerMessage, ServerPayload};
use crate::utils::distributor::{Distributor, TaskAssignment, is_round_robin_over, MAX_SPLITTABLE_SIZE};
use crate::network::registry::{id_keys, map_contains, map_insert, map_keys, map_new, map_remove, texts};
use dashmap::DashMap;

verus! {

/// A download server's address, as the manager lists it for clients.
#[derive(Debug)]
pub struct ServerInfo {
    pub addr: String,
    pub port: u16,
}

/// A client's request to download `url`.
#[derive(Debug)]
pub struct DownloadRequest {
    pub url: String,
}

/// The manager's answer to a download request: the file's size and the
/// sizes of the chunks it is cut into.
#[derive(Debug)]
pub struct FileInfoResponse {
    pub file_size: u64,
    pub chunk_count: usize,
    pub chunk_sizes: Vec<u64>,
}

/// Registering a server and then removing it gives back the registry as it
/// was, when the server was not registered before.
pub proof fn lemma_register_then_disconnect_restores(ids: Set<Seq<char>>, id: Seq<char>)
    requires
        !ids.contains(id),
    ensures
        ids.insert(id).remove(id) == ids,
{
    assert(ids.insert(id).remove(id) =~= ids);
}

/// After registering `id` it is present, after removing it it is absent,
/// and every other identifier is present after either exactly when it was
/// before.
pub proof fn lemma_registry_membership(ids: Set<Seq<char>>, id: Seq<char>, other: Seq<char>)
    requires
        other != id,
    ensures
        ids.insert(id).contains(id),
        !ids.remove(id).contains(id),
        ids.insert(id).contains(other) == ids.contains(other),
        ids.remove(id).contains(other) == ids.contains(other),
{
}

/// The set of the texts of `v` after `v` grows by one string.
proof fn lemma_texts_push_to_set(v: Seq<String>, s: String)
    ensures
        texts(v.push(s)).to_set() == texts(v).to_set().insert(s@),
{
    assert(texts(v.push(s)) =~= texts(v).push(s@));
    texts(v).lemma_push_to_set_commute(s@);
}

/// The download servers that are connected to the manager, keyed by
/// identifier.
pub struct ConnectionManager {
    servers: DashMap<String, ()>,
}

impl View for ConnectionManager {
    type V = Set<Seq<char>>;

    /// The identifiers of the connected servers.
    closed spec fn view(&self) -> Set<Seq<char>> {
        id_keys(self.servers)
    }
}

impl ConnectionManager {
    /// No server is connected.
    pub fn new() -> (cm: Self)
        ensures
            cm@ == Set::<Seq<char>>::empty(),
    {
        ConnectionManager { servers: map_new() }
    }

    /// Records that the server `server_id` is connected.
    pub fn add_server(&mut self, server_id: String)
        ensures
            final(self)@ == old(self)@.insert(server_id@),
    {
        map_insert(&mut self.servers, server_id);
    }

    /// Records that the server `server_id` is no longer connected.
    pub fn remove_server(&mut self, server_id: &str)
        ensures
            final(self)@ == old(self)@.remove(server_id@),
    {
        map_remove(&mut self.servers, server_id);
    }

    /// Whether the server `server_id` is connected.
    pub fn has_server(&self, server_id: &str) -> (res: bool)
        ensures
            res == self@.contains(server_id@),
    {
        map_contains(&self.servers, server_id)
    }

    /// The identifiers of all connected servers, each once, in the order in
    /// which the map walks them.
    pub fn get_all_servers(&self) -> (servers: Vec<String>)
        ensures
            texts(servers@).no_duplicates(),
            texts(servers@).to_set() == self@,
    {
        map_keys(&self.servers)
    }

    /// A second registry with the same servers.
    pub fn snapshot(&self) -> (cm: Self)
        ensures
            cm@ == self@,
    {
        let ids = map_keys(&self.servers);
        let mut servers = map_new();
        let mut i: usize = 0;
        while i < ids.len()
            invariant
                i <= ids@.len(),
                id_keys(servers) == texts(ids@.take(i as int)).to_set(),
            decreases ids@.len() - i,
        {
            let s = ids[i].clone();
            proof {
                assert(ids@.take(i + 1) =~= ids@.take(i as int).push(ids@[i as int]));
                lemma_texts_push_to_set(ids@.take(i as int), ids@[i as int]);
            }
            map_insert(&mut servers, s);
            i = i + 1;
        }
        assert(ids@.take(i as int) =~= ids@);
        ConnectionManager { servers }
    }
}

/// Where the manager stands with one connected server's stream.
#[derive(Debug)]
pub enum ServerSession {
    /// Nothing has arrived yet; the first message must be a registration.
    AwaitingRegistration,
    /// The server registered under `server_id`.
    Registered { server_id: String },
    /// The stream is over.
    Closed,
}

/// What the manager receives on a server's stream.
#[derive(Debug)]
pub enum ServerStreamEvent {
    /// A message.
    Message(ServerMessage),
    /// The stream failed.
    Failed,
    /// The stream ended.
    Ended,
}

/// What the manager does after an event on a server's stream.
#[derive(Debug)]
pub enum ServerSessionAction {
    /// Keep the channel to this server under `server_id`.
    Register { server_id: String },
    /// Send `chunk` to the client of job `job_id`.
    ForwardToClient { job_id: String, chunk: ClientDataChunk },
    /// Drop the data of `job_id`: no client waits for it.
    DiscardChunk { job_id: String },
    /// Log that the server finished a task.
    ReportTaskResult { success: bool },
    /// Ignore a second registration.
    IgnoreDuplicateRegistration,
    /// Nothing to do.
    Nothing,
    /// Close the stream: its first message was not a registration.
    RejectFirstMessage,
    /// Close the stream: it ended before the server registered.
    ClosedBeforeRegistration,
    /// Close the stream and forget the channel of `server_id`.
    Disconnect { server_id: String },
}

/// The fields of information that the manager gets from the HTTP response
/// to its request for the file: the URL it ended at, and the text of its
/// `Content-Length` header if it has one that is text.
#[derive(Debug)]
pub struct HttpFileInfo {
    pub final_url: String,
    pub content_length: Option<String>,
}

/// What the manager does next for a download job.
#[derive(Debug)]
pub enum JobStep {
    /// Send `metadata` to the client, then split the file at `final_url`,
    /// `file_size` bytes long, into tasks.
    SendMetadata { metadata: ClientDataChunk, final_url: String, file_size: u64 },
    /// Send the client an internal error with this message; the job is over.
    Fail { message: String },
}

/// The manager of the download service: the connected servers, and the
/// jobs whose clients wait for data.
pub struct ManagerServiceImpl {
    servers: ConnectionManager,
    clients: DashMap<String, ()>,
}

/// The text of the failure when the file's size is unknown.
pub open spec fn no_content_length_text() -> Seq<char> {
    "Could not get content length."@
}

/// The text of the failure when the tasks of a job cannot be handed out.
pub open spec fn dispatch_failed_text() -> Seq<char> {
    "Failed to dispatch tasks."@
}

impl ManagerServiceImpl {
    /// The identifiers of the connected servers.
    pub closed spec fn servers(&self) -> Set<Seq<char>> {
        self.servers@
    }

    /// The identifiers of the jobs whose clients wait for data.
    pub closed spec fn clients(&self) -> Set<Seq<char>> {
        id_keys(self.clients)
    }

    /// A manager with no server and no job.
    pub fn new() -> (m: Self)
        ensures
            m.servers() == Set::<Seq<char>>::empty(),
            m.clients() == Set::<Seq<char>>::empty(),
    {
        ManagerServiceImpl { servers: ConnectionManager::new(), clients: map_new() }
    }

    /// The connected servers.
    pub fn server_connections(&self) -> (cm: ConnectionManager)
        ensures
            cm@ == self.servers(),
    {
        self.servers.snapshot()
    }

    /// Whether a client waits for the data of job `job_id`.
    pub fn has_client(&self, job_id: &str) -> (res: bool)
        ensures
            res == self.clients().contains(job_id@),
    {
        map_contains(&self.clients, job_id)
    }

    /// Handles one event on the stream of a server in state `session`: the
    /// first message must register the server, later data is forwarded to
    /// the client of its job if there is one, and when the stream is over a
    /// registered server is forgotten.
    pub fn on_server_event(&mut self, session: ServerSession, event: ServerStreamEvent) -> (res: (
        ServerSession,
        ServerSessionAction,
    ))
        ensures
            final(self).clients() == old(self).clients(),
            match session {
                ServerSession::AwaitingRegistration => match event {
                    ServerStreamEvent::Message(m) => match m.payload {
                        Some(ServerPayload::Register(reg)) => {
                            &&& final(self).servers() == old(self).servers().insert(reg.server_id@)
                            &&& res.0 == ServerSession::Registered { server_id: reg.server_id }
                            &&& res.1 == ServerSessionAction::Register { server_id: reg.server_id }
                        },
                        _ => {
                            &&& final(self).servers() == old(self).servers()
                            &&& res.0 == ServerSession::Closed
                            &&& res.1 == ServerSessionAction::RejectFirstMessage
                        },
                    },
                    _ => {
                        &&& final(self).servers() == old(self).servers()
                        &&& res.0 == ServerSession::Closed
                        &&& res.1 == ServerSessionAction::ClosedBeforeRegistration
                    },
                },
                ServerSession::Registered { server_id } => match event {
                    ServerStreamEvent::Message(m) => {
                        &&& final(self).servers() == old(self).servers()
                        &&& res.0 == (ServerSession::Registered { server_id })
                        &&& match m.payload {
                            None => res.1 == ServerSessionAction::Nothing,
                            Some(ServerPayload::ChunkData(c)) => if old(self).clients().contains(c.job_id@) {
                                res.1 == (ServerSessionAction::ForwardToClient {
                                    job_id: c.job_id,
                                    chunk: ClientDataChunk {
                                        payload: Some(ClientPayload::Chunk(DataChunk {
                                            job_id: c.job_id,
                                            offset: c.offset,
                                            data: c.data,
                                        })),
                                    },
                                })
                            } else {
                                res.1 == (ServerSessionAction::DiscardChunk { job_id: c.job_id })
                            },
                            Some(ServerPayload::TaskResult(r)) => res.1 == (ServerSessionAction::ReportTaskResult {
                                success: r.success,
                            }),
                            Some(ServerPayload::Register(_)) => res.1 == ServerSessionAction::IgnoreDuplicateRegistration,
                        }
                    },
                    _ => {
                        &&& final(self).servers() == old(self).servers().remove(server_id@)
                        &&& res.0 == ServerSession::Closed
                        &&& res.1 == (ServerSessionAction::Disconnect { server_id })
                    },
                },
                ServerSession::Closed => {
                    &&& final(self).servers() == old(self).servers()
                    &&& res.0 == ServerSession::Closed
                    &&& res.1 == ServerSessionAction::Nothing
                },
            },
    {
        match session {
            ServerSession::AwaitingRegistration => match event {
                ServerStreamEvent::Message(m) => match m.payload {
                    Some(ServerPayload::Register(reg)) => {
                        let id = reg.server_id;
                        self.servers.add_server(id.clone());
                        let id2 = id.clone();
                        (ServerSession::Registered { server_id: id }, ServerSessionAction::Register { server_id: id2 })
                    },
                    _ => (ServerSession::Closed, ServerSessionAction::RejectFirstMessage),
                },
                _ => (ServerSession::Closed, ServerSessionAction::ClosedBeforeRegistration),
            },
            ServerSession::Registered { server_id } => match event {
                ServerStreamEvent::Message(m) => {
                    let action = match m.payload {
                        None => ServerSessionAction::Nothing,
                        Some(ServerPayload::ChunkData(c)) => {
                            if map_contains(&self.clients, c.job_id.as_str()) {
                                let job_id = c.job_id.clone();
                                ServerSessionAction::ForwardToClient {
                                    job_id,
                                    chunk: ClientDataChunk {
                                        payload: Some(ClientPayload::Chunk(DataChunk {
                                            job_id: c.job_id,
                                            offset: c.offset,
                                            data: c.data,
                                        })),
                                    },
                                }
                            } else {
                                ServerSessionAction::DiscardChunk { job_id: c.job_id }
                            }
                        },
                        Some(ServerPayload::TaskResult(r)) => ServerSessionAction::ReportTaskResult { success: r.success },
                        Some(ServerPayload::Register(_)) => ServerSessionAction::IgnoreDuplicateRegistration,
                    };
                    (ServerSession::Registered { server_id }, action)
                },
                _ => {
                    self.servers.remove_server(server_id.as_str());
                    (ServerSession::Closed, ServerSessionAction::Disconnect { server_id })
                },
            },
            ServerSession::Closed => (ServerSession::Closed, ServerSessionAction::Nothing),
        }
    }

    /// Opens a new download job: a fresh job identifier under which the
    /// client now waits for data.
    pub fn start_job(&mut self) -> (job_id: String)
        ensures
            is_v4_uuid_text(job_id@),
            final(self).clients() == old(self).clients().insert(job_id@),
            final(self).servers() == old(self).servers(),
    {
        let job_id = new_uuid_v4_string();
        map_insert(&mut self.clients, job_id.clone());
        job_id
    }

    /// Ends job `job_id`: no more data goes to its client.
    pub fn end_job(&mut self, job_id: &str)
        ensures
            final(self).clients() == old(self).clients().remove(job_id@),
            final(self).servers() == old(self).servers(),
    {
        map_remove(&mut self.clients, job_id);
    }

    /// Decides what follows the manager's request for the file of job
    /// `job_id`: on a failed request or an unknown size the job ends with an
    /// error for the client; otherwise the client is told the job's
    /// identifier and the file's size.
    pub fn on_file_info(&mut self, job_id: &str, info: Result<HttpFileInfo, String>) -> (step: JobStep)
        ensures
            final(self).servers() == old(self).servers(),
            match info {
                Err(e) => {
                    &&& final(self).clients() == old(self).clients().remove(job_id@)
                    &&& step matches JobStep::Fail { message } && message@ == "Failed to get file info: "@ + e@
                },
                Ok(i) => match (if i.content_length is Some { parse_u64_spec(i.content_length->0@) } else { None }) {
                    None => {
                        &&& final(self).clients() == old(self).clients().remove(job_id@)
                        &&& step matches JobStep::Fail { message } && message@ == no_content_length_text()
                    },
                    Some(size) => {
                        &&& final(self).clients() == old(self).clients()
                        &&& step matches JobStep::SendMetadata { metadata, final_url, file_size }
                        &&& file_size == size
                        &&& final_url == i.final_url
                        &&& metadata.payload matches Some(ClientPayload::Metadata(md))
                        &&& md.job_id@ == job_id@
                        &&& md.file_size == size
                    },
                },
            },
    {
        match info {
            Err(e) => {
                map_remove(&mut self.clients, job_id);
                JobStep::Fail { message: labelled("Failed to get file info: ", e.as_str()) }
            },
            Ok(i) => {
                let size = match &i.content_length {
                    Some(text) => parse_u64(text.as_str()),
                    None => None,
                };
                match size {
                    None => {
                        map_remove(&mut self.clients, job_id);
                        JobStep::Fail { message: "Could not get content length.".to_owned() }
                    },
                    Some(file_size) => {
                        let metadata = ClientDataChunk {
                            payload: Some(ClientPayload::Metadata(FileMetadata { job_id: job_id.to_owned(), file_size })),
                        };
                        JobStep::SendMetadata { metadata, final_url: i.final_url, file_size }
                    },
                }
            },
        }
    }

    /// After the metadata of job `job_id` was sent: if it did not reach the
    /// client, the job ends. Returns whether the job goes on.
    pub fn on_metadata_sent(&mut self, job_id: &str, delivered: bool) -> (go_on: bool)
        ensures
            go_on == delivered,
            final(self).servers() == old(self).servers(),
            final(self).clients() == if delivered { old(self).clients() } else { old(self).clients().remove(job_id@) },
    {
        if !delivered {
            map_remove(&mut self.clients, job_id);
        }
        delivered
    }

    /// Hands the tasks of job `job_id` (a `file_size`-byte file at `url`) to
    /// the connected servers in turn. With no server connected the job ends
    /// with an error message for its client, whatever the file's size.
    pub fn dispatch_job(&mut self, job_id: &str, url: &str, file_size: u64) -> (res: Result<Vec<TaskAssignment>, String>)
        requires
            old(self).servers() != Set::<Seq<char>>::empty() ==> file_size <= MAX_SPLITTABLE_SIZE,
        ensures
            final(self).servers() == old(self).servers(),
            match res {
                Ok(plan) => {
                    &&& is_round_robin_over(plan@, old(self).servers(), job_id@, url@, file_size as nat)
                    &&& final(self).clients() == old(self).clients()
                },
                Err(message) => {
                    &&& old(self).servers() == Set::<Seq<char>>::empty()
                    &&& message@ == dispatch_failed_text()
                    &&& final(self).clients() == old(self).clients().remove(job_id@)
                },
            },
    {
        let distributor = Distributor::new(self.servers.snapshot());
        match distributor.distribute_and_dispatch(job_id, url, file_size) {
            Ok(plan) => Ok(plan),
            Err(_) => {
                map_remove(&mut self.clients, job_id);
                Err("Failed to dispatch tasks.".to_owned())
            },
        }
    }
}

} // verus!
