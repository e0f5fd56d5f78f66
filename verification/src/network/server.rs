//! A download server in the connection-oriented protocol: its settings, its
//! registration dialogue with the manager, and what it sends back for a task.

use vstd::prelude::*;
use crate::config::{host_port, join_host_port};
use crate::error::{error_text, labelled, DistributedDownloaderError};
use crate::network::protobuf_helper::{create_server_register, Message, Payload, DownloadTask, TaskResult};
use crate::text::{str_eq, text_of_bytes, utf8_lossy};

verus! {

/// The most bytes that one file data message carries.
pub const FILE_DATA_CHUNK_SIZE: usize = 2048;

/// A download server's settings for its connection to the manager.
#[derive(Debug)]
pub struct ServerNetwork {
    id: u16,
    tmp_dir: String,
    target_dir: String,
    thread_number: usize,
    manager_addr: String,
    manager_port: u16,
}

/// Where the registration dialogue with the manager stands.
#[derive(Debug)]
pub enum RegistrationPhase {
    /// The register command was sent; the manager must answer `go_ahead`.
    AwaitingGoAhead,
    /// The registration was sent; the manager must answer `registered`.
    AwaitingConfirmation,
}

/// What the server does after a reply of the manager during registration.
#[derive(Debug)]
pub enum RegistrationStep {
    /// Send this registration, then wait for the confirmation.
    SendRegistration(Message),
    /// The server is registered.
    Registered,
    /// Registration failed.
    Failed(DistributedDownloaderError),
}

/// What the server does with bytes that arrived from the manager.
#[derive(Debug)]
pub enum ListenAction {
    /// The manager closed the connection.
    ConnectionClosed,
    /// A download task to carry out.
    ProcessTask(DownloadTask),
    /// A message that is not a task.
    UnknownMessage,
    /// Bytes that are no message.
    UndecodableData,
}

/// The pieces in which a file's bytes are sent: `FILE_DATA_CHUNK_SIZE`
/// bytes each, the last one possibly shorter; none for no bytes.
pub open spec fn file_chunks(data: Seq<u8>) -> Seq<Seq<u8>>
    decreases data.len(),
{
    if data.len() == 0 {
        seq![]
    } else if data.len() <= FILE_DATA_CHUNK_SIZE {
        seq![data]
    } else {
        seq![data.take(FILE_DATA_CHUNK_SIZE as int)] + file_chunks(data.skip(FILE_DATA_CHUNK_SIZE as int))
    }
}

/// `msgs` are file data messages carrying `chunks`, in order.
pub open spec fn carries_chunks(msgs: Seq<Message>, chunks: Seq<Seq<u8>>) -> bool {
    &&& msgs.len() == chunks.len()
    &&& forall|i: int| 0 <= i < msgs.len() ==> ((#[trigger] msgs[i]).payload matches Some(Payload::FileData(d)) && d@ == chunks[i])
}

/// The text of a failed task.
pub open spec fn download_failed_text(e: DistributedDownloaderError) -> Seq<char> {
    "Download failed: "@ + error_text(e)
}

/// The pieces of a file cut by `file_chunks` put back together give the
/// file, and every piece holds between 1 and `FILE_DATA_CHUNK_SIZE` bytes.
pub proof fn lemma_file_chunks_reassemble(data: Seq<u8>)
    ensures
        file_chunks(data).flatten() == data,
        forall|i: int| 0 <= i < file_chunks(data).len() ==> 0 < #[trigger] file_chunks(data)[i].len() <= FILE_DATA_CHUNK_SIZE,
    decreases data.len(),
{
    if data.len() == 0 {
    } else if data.len() <= FILE_DATA_CHUNK_SIZE {
        let c = file_chunks(data);
        assert(c.drop_first() =~= Seq::<Seq<u8>>::empty());
        assert(c.drop_first().flatten() == Seq::<u8>::empty());
        assert(c.first() == data);
        assert(c.flatten() == c.first() + c.drop_first().flatten());
        assert(c.flatten() =~= data);
    } else {
        let rest = data.skip(FILE_DATA_CHUNK_SIZE as int);
        lemma_file_chunks_reassemble(rest);
        let c = file_chunks(data);
        assert(c.first() == data.take(FILE_DATA_CHUNK_SIZE as int));
        assert(c.drop_first() =~= file_chunks(rest));
        assert(data.take(FILE_DATA_CHUNK_SIZE as int) + rest =~= data);
        assert forall|i: int| 0 <= i < c.len() implies 0 < #[trigger] c[i].len() <= FILE_DATA_CHUNK_SIZE by {
            if i > 0 {
                assert(c[i] == file_chunks(rest)[i - 1]);
            }
        }
    }
}

/// Cuts `data` into file data messages of at most `FILE_DATA_CHUNK_SIZE` bytes.
pub fn file_data_messages(data: &[u8]) -> (msgs: Vec<Message>)
    ensures
        carries_chunks(msgs@, file_chunks(data@)),
{
    let n = data.len();
    let mut msgs: Vec<Message> = Vec::new();
    let mut pos: usize = 0;
    let ghost done: Seq<Seq<u8>> = seq![];
    assert(data@.skip(0) =~= data@);
    assert(done + file_chunks(data@) =~= file_chunks(data@));
    while pos < n
        invariant
            n == data@.len(),
            pos <= n,
            file_chunks(data@) == done + file_chunks(data@.skip(pos as int)),
            carries_chunks(msgs@, done),
        decreases n - pos,
    {
        let ghost rest = data@.skip(pos as int);
        let end = if n - pos <= FILE_DATA_CHUNK_SIZE { n } else { pos + FILE_DATA_CHUNK_SIZE };
        let mut piece: Vec<u8> = Vec::new();
        let mut k = pos;
        while k < end
            invariant
                pos <= k <= end <= n,
                n == data@.len(),
                piece@ == data@.subrange(pos as int, k as int),
            decreases end - k,
        {
            piece.push(data[k]);
            assert(piece@ =~= data@.subrange(pos as int, k + 1));
            k = k + 1;
        }
        proof {
            if n - pos <= FILE_DATA_CHUNK_SIZE {
                assert(piece@ =~= rest);
                assert(rest.skip(rest.len() as int) =~= Seq::<u8>::empty());
                assert(file_chunks(rest) =~= seq![piece@]);
                assert(data@.skip(end as int) =~= Seq::<u8>::empty());
            } else {
                assert(piece@ =~= rest.take(FILE_DATA_CHUNK_SIZE as int));
                assert(rest.skip(FILE_DATA_CHUNK_SIZE as int) =~= data@.skip(end as int));
            }
            assert(file_chunks(data@) =~= done.push(piece@) + file_chunks(data@.skip(end as int)));
        }
        let ghost before = msgs@;
        msgs.push(Message { payload: Some(Payload::FileData(piece)) });
        proof {
            done = done.push(piece@);
            assert forall|i: int| 0 <= i < msgs@.len() implies ((#[trigger] msgs@[i]).payload matches Some(Payload::FileData(d)) && d@ == done[i]) by {
                if i < before.len() {
                    assert(msgs@[i] == before[i]);
                }
            }
        }
        pos = end;
    }
    proof {
        assert(data@.skip(n as int) =~= Seq::<u8>::empty());
        assert(done + file_chunks(data@.skip(n as int)) =~= done);
    }
    msgs
}

impl ServerNetwork {
    /// The server's identifier.
    pub closed spec fn id_spec(&self) -> u16 {
        self.id
    }

    /// The directory for temporary files.
    pub closed spec fn tmp_dir_spec(&self) -> Seq<char> {
        self.tmp_dir@
    }

    /// The directory for downloaded files.
    pub closed spec fn target_dir_spec(&self) -> Seq<char> {
        self.target_dir@
    }

    /// How many threads download at once.
    pub closed spec fn thread_number_spec(&self) -> usize {
        self.thread_number
    }

    /// The manager's address.
    pub closed spec fn manager_addr_spec(&self) -> Seq<char> {
        self.manager_addr@
    }

    /// The manager's port.
    pub closed spec fn manager_port_spec(&self) -> u16 {
        self.manager_port
    }

    /// A server with identifier `id` and the given directories and thread
    /// count, not yet told where the manager is (empty address, port 0).
    pub fn new(id: u16, tmp_dir: String, target_dir: String, thread_number: usize) -> (s: Self)
        ensures
            s.id_spec() == id,
            s.tmp_dir_spec() == tmp_dir@,
            s.target_dir_spec() == target_dir@,
            s.thread_number_spec() == thread_number,
            s.manager_addr_spec() == Seq::<char>::empty(),
            s.manager_port_spec() == 0,
    {
        ServerNetwork { id, tmp_dir, target_dir, thread_number, manager_addr: String::new(), manager_port: 0 }
    }

    /// Tells the server where the manager is.
    pub fn set_manager_info(&mut self, addr: String, port: u16)
        ensures
            final(self).manager_addr_spec() == addr@,
            final(self).manager_port_spec() == port,
            final(self).id_spec() == old(self).id_spec(),
            final(self).tmp_dir_spec() == old(self).tmp_dir_spec(),
            final(self).target_dir_spec() == old(self).target_dir_spec(),
            final(self).thread_number_spec() == old(self).thread_number_spec(),
    {
        self.manager_addr = addr;
        self.manager_port = port;
    }

    /// Gives the server another identifier.
    pub fn set_server_info(&mut self, id: u16)
        ensures
            final(self).id_spec() == id,
            final(self).manager_addr_spec() == old(self).manager_addr_spec(),
            final(self).manager_port_spec() == old(self).manager_port_spec(),
            final(self).tmp_dir_spec() == old(self).tmp_dir_spec(),
            final(self).target_dir_spec() == old(self).target_dir_spec(),
            final(self).thread_number_spec() == old(self).thread_number_spec(),
    {
        self.id = id;
    }

    /// The server's identifier.
    pub fn id(&self) -> (id: u16)
        ensures
            id == self.id_spec(),
    {
        self.id
    }

    /// The directory for temporary files.
    pub fn tmp_dir(&self) -> (d: &str)
        ensures
            d@ == self.tmp_dir_spec(),
    {
        self.tmp_dir.as_str()
    }

    /// The directory for downloaded files.
    pub fn target_dir(&self) -> (d: &str)
        ensures
            d@ == self.target_dir_spec(),
    {
        self.target_dir.as_str()
    }

    /// How many threads download at once.
    pub fn thread_number(&self) -> (n: usize)
        ensures
            n == self.thread_number_spec(),
    {
        self.thread_number
    }

    /// The manager's socket address: `address:port`.
    pub fn manager_address(&self) -> (s: String)
        ensures
            s@ == host_port(self.manager_addr_spec(), self.manager_port_spec()),
    {
        join_host_port(self.manager_addr.as_str(), self.manager_port)
    }

    /// What the server does with the manager's `reply`, read as text, during
    /// registration: after `go_ahead` it sends its registration, after
    /// `registered` it is done, and any other reply fails the registration.
    pub fn registration_reply(&self, phase: RegistrationPhase, reply: &[u8]) -> (step: RegistrationStep)
        ensures
            match phase {
                RegistrationPhase::AwaitingGoAhead => if utf8_lossy(reply@) == "go_ahead"@ {
                    step == RegistrationStep::SendRegistration(Message {
                        payload: Some(Payload::ServerRegister(
                            crate::network::protobuf_helper::ServerRegister { server_id: self.id_spec() as u32 },
                        )),
                    })
                } else {
                    step matches RegistrationStep::Failed(DistributedDownloaderError::NetworkError(m))
                        && m@ == "Registration not acknowledged"@
                },
                RegistrationPhase::AwaitingConfirmation => if utf8_lossy(reply@) == "registered"@ {
                    step == RegistrationStep::Registered
                } else {
                    step matches RegistrationStep::Failed(DistributedDownloaderError::NetworkError(m))
                        && m@ == "Registration failed"@
                },
            },
    {
        let text = text_of_bytes(reply);
        match phase {
            RegistrationPhase::AwaitingGoAhead => {
                if str_eq(text.as_str(), "go_ahead") {
                    RegistrationStep::SendRegistration(create_server_register(self.id as u32))
                } else {
                    RegistrationStep::Failed(DistributedDownloaderError::NetworkError("Registration not acknowledged".to_owned()))
                }
            },
            RegistrationPhase::AwaitingConfirmation => {
                if str_eq(text.as_str(), "registered") {
                    RegistrationStep::Registered
                } else {
                    RegistrationStep::Failed(DistributedDownloaderError::NetworkError("Registration failed".to_owned()))
                }
            },
        }
    }

    /// The error of a long connection whose registration failed.
    pub fn registration_failed_error() -> (e: DistributedDownloaderError)
        ensures
            e matches DistributedDownloaderError::NetworkError(m) && m@ == "Failed to register with manager"@,
    {
        DistributedDownloaderError::NetworkError("Failed to register with manager".to_owned())
    }

    /// What the server does with `n` bytes from the manager that decoded as
    /// `decoded` (`None` when they are no message): no bytes mean the
    /// connection is closed, and only a download task is acted on.
    pub fn on_manager_data(n: usize, decoded: Option<Message>) -> (action: ListenAction)
        ensures
            n == 0 ==> action == ListenAction::ConnectionClosed,
            n != 0 ==> match decoded {
                Some(m) => match m.payload {
                    Some(Payload::DownloadTask(t)) => action == ListenAction::ProcessTask(t),
                    _ => action == ListenAction::UnknownMessage,
                },
                None => action == ListenAction::UndecodableData,
            },
    {
        if n == 0 {
            return ListenAction::ConnectionClosed;
        }
        match decoded {
            Some(m) => match m.payload {
                Some(Payload::DownloadTask(t)) => ListenAction::ProcessTask(t),
                _ => ListenAction::UnknownMessage,
            },
            None => ListenAction::UndecodableData,
        }
    }

    /// What the server sends back for task `task_id`: on success a result
    /// that says so, then the downloaded bytes in file data messages; on
    /// failure only a result with the error's text.
    pub fn task_report(task_id: String, result: Result<Vec<u8>, DistributedDownloaderError>) -> (msgs: Vec<Message>)
        ensures
            match result {
                Ok(data) => {
                    &&& msgs@.len() >= 1
                    &&& msgs@[0].payload matches Some(Payload::TaskResult(r))
                    &&& r.task_id == task_id
                    &&& r.success
                    &&& r.error_message@ == Seq::<char>::empty()
                    &&& carries_chunks(msgs@.drop_first(), file_chunks(data@))
                },
                Err(e) => {
                    &&& msgs@.len() == 1
                    &&& msgs@[0].payload matches Some(Payload::TaskResult(r))
                    &&& r.task_id == task_id
                    &&& !r.success
                    &&& r.error_message@ == download_failed_text(e)
                },
            },
    {
        match result {
            Ok(data) => {
                let mut msgs: Vec<Message> = Vec::new();
                msgs.push(Message {
                    payload: Some(Payload::TaskResult(TaskResult { task_id, success: true, error_message: String::new() })),
                });
                let mut pieces = file_data_messages(data.as_slice());
                let ghost first = msgs@[0];
                let ghost all = pieces@;
                msgs.append(&mut pieces);
                assert(msgs@[0] == first);
                assert(msgs@.drop_first() =~= all);
                msgs
            },
            Err(e) => {
                let text = e.to_display_string();
                let mut msgs: Vec<Message> = Vec::new();
                msgs.push(Message {
                    payload: Some(Payload::TaskResult(TaskResult {
                        task_id,
                        success: false,
                        error_message: labelled("Download failed: ", text.as_str()),
                    })),
                });
                msgs
            },
        }
    }

    /// A heartbeat to the manager; nothing is sent yet.
    pub fn send_heartbeat(&self) -> (res: Result<(), DistributedDownloaderError>)
        ensures
            res is Ok,
    {
        Ok(())
    }

    /// Announces that the server is up; the long connection does this now,
    /// so nothing is sent.
    pub fn notify_manager_up(&self, _manager_addr: &str, _manager_port: u16, _server_addr: &str, _server_port: u16) -> (res: Result<(), DistributedDownloaderError>)
        ensures
            res is Ok,
    {
        Ok(())
    }

    /// Announces that the server is down; the long connection does this
    /// now, so nothing is sent.
    pub fn notify_manager_down(&self, _manager_addr: &str, _manager_port: u16, _server_addr: &str, _server_port: u16) -> (res: Result<(), DistributedDownloaderError>)
        ensures
            res is Ok,
    {
        Ok(())
    }
}

} // verus!
