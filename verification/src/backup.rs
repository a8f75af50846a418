//! The backup session: a state machine over the image streams of one backup
//! and the writes that are on their way to the remote store.
//!
//! The session never talks to the store itself. Where an operation depends on
//! the store, the caller performs the remote step and passes what the store
//! answered; the session decides from its state and that answer what the
//! operation returns and how the state changes.

use crate::errors::SessionError;
use crate::pipeline::{
    accepted_sum, has_pending, lemma_accepted_sum_none, lemma_pending_bytes_none,
    lemma_pending_bytes_push, lemma_pending_bytes_remove, lemma_pending_bytes_update,
    pending_bytes, AcceptedWrite, PendingWrite, UploadJob, WriteStatus, DEFAULT_UPLOAD_SLOTS,
};
use crate::setup::BackupSetup;
use crate::stream::{
    any_open, entry_of, name_in_use, settled, Blob, CloseStatus, Manifest, ManifestEntry, Stream,
    StreamTotals, MAX_STREAMS,
};
use vstd::prelude::*;

verus! {

/// Where a backup session stands.
#[derive(Clone, Copy, Debug, PartialEq, Eq, Structural)]
pub enum SessionState {
    /// Made, not yet connected.
    Created,
    /// Connected: streams can be registered, written and closed. The session
    /// is active from the first registration on.
    Connected,
    /// Every stream is closed and the manifest is being committed; only the
    /// outcome of the commit is awaited.
    Finishing,
    /// The manifest has been committed; nothing more can be done.
    Finished,
}

/// A backup session as plain values.
pub struct BackupTaskView {
    pub setup: BackupSetup,
    pub state: SessionState,
    /// The reason of the last abort, if the session was aborted.
    pub abort_reason: Option<String>,
    /// Whether connecting found an earlier backup of the same target.
    pub has_prior: bool,
    /// The registered streams, in the order of registration.
    pub streams: Seq<Stream>,
    /// The writes waiting for the store, in the order of acceptance.
    pub pending: Seq<PendingWrite>,
    /// The uploaded blobs, in the order of upload.
    pub blobs: Seq<Blob>,
    /// How many writes may wait for the store at once.
    pub upload_slots: nat,
    /// The ticket the next accepted write gets.
    pub next_ticket: nat,
    /// Every write the session has accepted, in the order of acceptance.
    pub accepted: Seq<AcceptedWrite>,
}

impl BackupTaskView {
    /// Whether the session was aborted.
    pub open spec fn aborted(self) -> bool {
        self.abort_reason is Some
    }

    /// What a pending write must satisfy: it belongs to an open stream, lies
    /// within that stream, carries a ticket that has been issued, and its
    /// payload, while it is there, has the recorded length.
    pub open spec fn pending_ok(self, write: PendingWrite) -> bool {
        &&& write.stream_id < self.streams.len()
        &&& self.streams[write.stream_id as int].open
        &&& write.offset + write.len <= self.streams[write.stream_id as int].size
        &&& write.ticket < self.next_ticket
        &&& write.payload matches Some(bytes) ==> bytes@.len() == write.len
    }

    /// What a stream must satisfy: its accepted bytes are the sum of the
    /// writes it has accepted, confirmed and waiting bytes never exceed them
    /// and account for all of them while nothing has gone wrong, and a closed
    /// stream has every accepted byte confirmed.
    pub open spec fn stream_ok(self, stream: Stream) -> bool {
        &&& stream.accepted_bytes == accepted_sum(self.accepted, stream.id)
        &&& stream.bytes_reused <= stream.bytes_written
        &&& stream.bytes_written + pending_bytes(self.pending, stream.id) <= stream.accepted_bytes
        &&& stream.failure is None && !self.aborted() ==> stream.bytes_written + pending_bytes(
            self.pending,
            stream.id,
        ) == stream.accepted_bytes
        &&& !stream.open ==> stream.failure is None && stream.bytes_written
            == stream.accepted_bytes
    }

    /// The invariant of a session.
    pub open spec fn wf(self) -> bool {
        &&& 1 <= self.upload_slots <= usize::MAX
        &&& self.next_ticket <= u64::MAX
        &&& self.streams.len() <= MAX_STREAMS
        &&& self.pending.len() <= self.upload_slots
        &&& self.state == SessionState::Created ==> self.streams.len() == 0 && self.blobs.len()
            == 0
        &&& (self.state == SessionState::Finishing || self.state == SessionState::Finished)
            ==> !any_open(self.streams)
        &&& forall|i: int| 0 <= i < self.streams.len() ==> (#[trigger] self.streams[i]).id == i
        &&& forall|i: int, j: int|
            0 <= i < j < self.streams.len() ==> (#[trigger] self.streams[i]).name@ != (
            #[trigger] self.streams[j]).name@
        &&& forall|i: int|
            0 <= i < self.streams.len() ==> self.stream_ok(#[trigger] self.streams[i])
        &&& forall|k: int|
            0 <= k < self.pending.len() ==> self.pending_ok(#[trigger] self.pending[k])
        &&& forall|k: int, l: int|
            0 <= k < l < self.pending.len() ==> (#[trigger] self.pending[k]).ticket != (
            #[trigger] self.pending[l]).ticket
        &&& forall|k: int|
            0 <= k < self.accepted.len() ==> (#[trigger] self.accepted[k]).stream_id
                < self.streams.len()
    }

    /// The error that stops every operation but `connect` and `finish`
    /// before it looks at its arguments: the session was aborted, is not
    /// connected yet, or is being finished or finished.
    pub open spec fn active_error(self) -> Option<SessionError> {
        if self.abort_reason is Some {
            Some(SessionError::Aborted(self.abort_reason->0))
        } else if self.state == SessionState::Created {
            Some(SessionError::NotConnected)
        } else if self.state == SessionState::Finishing || self.state == SessionState::Finished {
            Some(SessionError::AlreadyFinished)
        } else {
            None
        }
    }

    /// The error that stops `connect`, if any.
    pub open spec fn connect_error(self) -> Option<SessionError> {
        if self.abort_reason is Some {
            Some(SessionError::Aborted(self.abort_reason->0))
        } else if self.state != SessionState::Created {
            Some(SessionError::AlreadyConnected)
        } else {
            None
        }
    }

    /// The error that stops the registration of a stream named `name`, if
    /// any.
    pub open spec fn register_error(self, name: Seq<char>) -> Option<SessionError> {
        if self.active_error() is Some {
            self.active_error()
        } else if name_in_use(self.streams, name) {
            Some(SessionError::NameInUse)
        } else if self.streams.len() >= MAX_STREAMS {
            Some(SessionError::TooManyStreams)
        } else {
            None
        }
    }

    /// The error that stops a write of `len` bytes at `offset` to stream
    /// `dev_id`, if any.
    pub open spec fn write_error(self, dev_id: u8, offset: u64, len: nat) -> Option<SessionError> {
        if self.active_error() is Some {
            self.active_error()
        } else if dev_id >= self.streams.len() {
            Some(SessionError::UnknownStream)
        } else if !self.streams[dev_id as int].open {
            Some(SessionError::StreamClosed)
        } else if offset + len > self.streams[dev_id as int].size {
            Some(SessionError::WriteOutOfRange)
        } else if self.streams[dev_id as int].accepted_bytes + len > u64::MAX
            || self.next_ticket >= u64::MAX {
            Some(SessionError::CounterExhausted)
        } else {
            None
        }
    }

    /// The error that stops the closing of stream `dev_id`, if any.
    pub open spec fn close_error(self, dev_id: u8) -> Option<SessionError> {
        if self.active_error() is Some {
            self.active_error()
        } else if dev_id >= self.streams.len() {
            Some(SessionError::UnknownStream)
        } else if !self.streams[dev_id as int].open {
            Some(SessionError::StreamClosed)
        } else if self.streams[dev_id as int].failure is Some {
            Some(SessionError::Transfer(self.streams[dev_id as int].failure->0))
        } else {
            None
        }
    }

    /// The error that stops `prepare_finish`, if any.
    pub open spec fn prepare_error(self) -> Option<SessionError> {
        if self.active_error() is Some {
            self.active_error()
        } else if any_open(self.streams) {
            Some(SessionError::StreamsStillOpen)
        } else {
            None
        }
    }

    /// The error that stops `finish`, if any: that of `prepare_finish`,
    /// unless the session has been prepared and was not aborted since.
    pub open spec fn finish_error(self) -> Option<SessionError> {
        if self.abort_reason is None && self.state == SessionState::Finishing {
            None
        } else {
            self.prepare_error()
        }
    }

    /// The totals of stream `dev_id`.
    pub open spec fn totals(self, dev_id: u8) -> StreamTotals {
        StreamTotals {
            size: self.streams[dev_id as int].size,
            bytes_written: self.streams[dev_id as int].bytes_written,
            bytes_reused: self.streams[dev_id as int].bytes_reused,
        }
    }

    /// Whether `at` is the place of the write that is uploaded next: the
    /// first in the queue whose bytes no uploader has taken.
    pub open spec fn is_queue_head(self, at: int) -> bool {
        &&& 0 <= at < self.pending.len()
        &&& self.pending[at].payload is Some
        &&& forall|j: int| 0 <= j < at ==> (#[trigger] self.pending[j]).payload is None
    }

    /// Whether a write waits whose bytes no uploader has taken.
    pub open spec fn has_queued(self) -> bool {
        exists|k: int| 0 <= k < self.pending.len() && (#[trigger] self.pending[k]).payload is Some
    }

    /// The place of the write that is uploaded next.
    pub open spec fn queue_head(self) -> int {
        choose|at: int| self.is_queue_head(at)
    }

    /// Whether `at` is the place of the write in flight with ticket
    /// `ticket`.
    pub open spec fn is_in_flight_at(self, at: int, ticket: u64) -> bool {
        &&& 0 <= at < self.pending.len()
        &&& self.pending[at].ticket == ticket
        &&& self.pending[at].payload is None
    }

    /// Whether a write with ticket `ticket` is in flight: an uploader has
    /// taken its bytes and the store has not reported on it.
    pub open spec fn in_flight(self, ticket: u64) -> bool {
        exists|at: int| self.is_in_flight_at(at, ticket)
    }

    /// The place of the write in flight with ticket `ticket`.
    pub open spec fn in_flight_at(self, ticket: u64) -> int {
        choose|at: int| self.is_in_flight_at(at, ticket)
    }
}

/// A backup session.
pub struct BackupTask {
    setup: BackupSetup,
    state: SessionState,
    abort_reason: Option<String>,
    has_prior: bool,
    streams: Vec<Stream>,
    pending: Vec<PendingWrite>,
    blobs: Vec<Blob>,
    upload_slots: usize,
    next_ticket: u64,
    accepted: Ghost<Seq<AcceptedWrite>>,
}

impl View for BackupTask {
    type V = BackupTaskView;

    closed spec fn view(&self) -> BackupTaskView {
        BackupTaskView {
            setup: self.setup,
            state: self.state,
            abort_reason: self.abort_reason,
            has_prior: self.has_prior,
            streams: self.streams@,
            pending: self.pending@,
            blobs: self.blobs@,
            upload_slots: self.upload_slots as nat,
            next_ticket: self.next_ticket as nat,
            accepted: self.accepted@,
        }
    }
}

impl BackupTask {
    /// Makes a session that lets `DEFAULT_UPLOAD_SLOTS` writes wait for the
    /// store at once. No network traffic happens before `connect`.
    pub fn new(setup: BackupSetup) -> (task: BackupTask)
        ensures
            task@ == (BackupTaskView {
                setup,
                state: SessionState::Created,
                abort_reason: None,
                has_prior: false,
                streams: Seq::empty(),
                pending: Seq::empty(),
                blobs: Seq::empty(),
                upload_slots: DEFAULT_UPLOAD_SLOTS as nat,
                next_ticket: 0,
                accepted: Seq::empty(),
            }),
            task@.wf(),
    {
        Self::with_upload_slots(setup, DEFAULT_UPLOAD_SLOTS)
    }

    /// Makes a session that lets `upload_slots` writes wait for the store at
    /// once; zero selects `DEFAULT_UPLOAD_SLOTS`.
    pub fn with_upload_slots(setup: BackupSetup, upload_slots: usize) -> (task: BackupTask)
        ensures
            task@ == (BackupTaskView {
                setup,
                state: SessionState::Created,
                abort_reason: None,
                has_prior: false,
                streams: Seq::empty(),
                pending: Seq::empty(),
                blobs: Seq::empty(),
                upload_slots: if upload_slots > 0 {
                    upload_slots as nat
                } else {
                    DEFAULT_UPLOAD_SLOTS as nat
                },
                next_ticket: 0,
                accepted: Seq::empty(),
            }),
            task@.wf(),
    {
        BackupTask {
            setup,
            state: SessionState::Created,
            abort_reason: None,
            has_prior: false,
            streams: Vec::new(),
            pending: Vec::new(),
            blobs: Vec::new(),
            upload_slots: if upload_slots > 0 {
                upload_slots
            } else {
                DEFAULT_UPLOAD_SLOTS
            },
            next_ticket: 0,
            accepted: Ghost(Seq::empty()),
        }
    }

    /// Flags the session as aborted by the caller. Every later operation
    /// fails with the reason given last; uploads that are still on their way
    /// may drain, and what they report is dropped.
    pub fn abort(&mut self, reason: String)
        requires
            old(self)@.wf(),
        ensures
            final(self)@ == (BackupTaskView { abort_reason: Some(reason), ..old(self)@ }),
            final(self)@.wf(),
    {
        self.abort_reason = Some(reason);
        proof {
            let before = old(self)@;
            let after = self@;
            assert forall|i: int| 0 <= i < after.streams.len() implies after.stream_ok(
                #[trigger] after.streams[i],
            ) by {
                assert(before.stream_ok(before.streams[i]));
            }
            assert forall|k: int| 0 <= k < after.pending.len() implies after.pending_ok(
                #[trigger] after.pending[k],
            ) by {
                assert(before.pending_ok(before.pending[k]));
            }
        }
    }

    /// Returns the error that stops every operation but `connect` and
    /// `finish`, if the session is in no state to work.
    pub fn check_active(&self) -> (checked: Result<(), SessionError>)
        ensures
            checked == match self@.active_error() {
                Some(error) => Err::<(), SessionError>(error),
                None => Ok(()),
            },
    {
        match &self.abort_reason {
            Some(reason) => {
                return Err(SessionError::Aborted(reason.clone()));
            },
            None => {},
        }
        match self.state {
            SessionState::Created => Err(SessionError::NotConnected),
            SessionState::Connected => Ok(()),
            SessionState::Finishing => Err(SessionError::AlreadyFinished),
            SessionState::Finished => Err(SessionError::AlreadyFinished),
        }
    }

    /// Returns the error that stops `connect`, if the session cannot connect
    /// now. To be asked before the handshake is attempted.
    pub fn check_connect(&self) -> (checked: Result<(), SessionError>)
        ensures
            checked == match self@.connect_error() {
                Some(error) => Err::<(), SessionError>(error),
                None => Ok(()),
            },
    {
        match &self.abort_reason {
            Some(reason) => {
                return Err(SessionError::Aborted(reason.clone()));
            },
            None => {},
        }
        match self.state {
            SessionState::Created => Ok(()),
            _ => Err(SessionError::AlreadyConnected),
        }
    }

    /// Connects the session, given what the handshake with the store
    /// yielded: whether an earlier backup of the same target exists, or why
    /// the handshake failed. Returns whether an earlier backup exists.
    pub fn connect(&mut self, handshake: Result<bool, String>) -> (connected: Result<
        bool,
        SessionError,
    >)
        requires
            old(self)@.wf(),
        ensures
            final(self)@.wf(),
            match old(self)@.connect_error() {
                Some(error) => connected == Err::<bool, SessionError>(error) && final(self)@ == old(self)@,
                None => match handshake {
                    Err(detail) => connected == Err::<bool, SessionError>(
                        SessionError::Connection(detail),
                    ) && final(self)@ == old(self)@,
                    Ok(prior) => connected == Ok::<bool, SessionError>(prior) && final(self)@ == (
                    BackupTaskView {
                        state: SessionState::Connected,
                        has_prior: prior,
                        ..old(self)@
                    }),
                },
            },
    {
        match self.check_connect() {
            Err(error) => {
                return Err(error);
            },
            Ok(()) => {},
        }
        match handshake {
            Err(detail) => Err(SessionError::Connection(detail)),
            Ok(prior) => {
                self.state = SessionState::Connected;
                self.has_prior = prior;
                Ok(prior)
            },
        }
    }

    /// Returns the error that stops the registration of a stream named
    /// `name`, if there is one. To be asked before the archive is opened on
    /// the store.
    pub fn check_register(&self, name: &String) -> (checked: Result<(), SessionError>)
        ensures
            checked == match self@.register_error(name@) {
                Some(error) => Err::<(), SessionError>(error),
                None => Ok(()),
            },
    {
        match self.check_active() {
            Err(error) => {
                return Err(error);
            },
            Ok(()) => {},
        }
        let mut i: usize = 0;
        while i < self.streams.len()
            invariant
                i <= self.streams.len(),
                self@.active_error() is None,
                forall|j: int| 0 <= j < i ==> (#[trigger] self.streams@[j]).name@ != name@,
            decreases self.streams.len() - i,
        {
            if self.streams[i].name == *name {
                assert(self@.streams[i as int].name@ == name@);
                return Err(SessionError::NameInUse);
            }
            i += 1;
        }
        if self.streams.len() >= MAX_STREAMS {
            return Err(SessionError::TooManyStreams);
        }
        Ok(())
    }

    /// Registers an image stream, given what the store answered to opening
    /// its archive. The stream gets the next id, which is the number of
    /// streams registered before it, and starts open and empty.
    pub fn register_image(
        &mut self,
        name: String,
        size: u64,
        incremental: bool,
        opened: Result<(), String>,
    ) -> (registered: Result<u8, SessionError>)
        requires
            old(self)@.wf(),
        ensures
            final(self)@.wf(),
            match old(self)@.register_error(name@) {
                Some(error) => registered == Err::<u8, SessionError>(error) && final(self)@ == old(self)@,
                None => match opened {
                    Err(detail) => registered == Err::<u8, SessionError>(
                        SessionError::Transfer(detail),
                    ) && final(self)@ == old(self)@,
                    Ok(()) => registered == Ok::<u8, SessionError>(
                        old(self)@.streams.len() as u8,
                    ) && final(self)@ == (BackupTaskView {
                        streams: old(self)@.streams.push(
                            Stream {
                                id: old(self)@.streams.len() as u8,
                                name,
                                size,
                                incremental,
                                open: true,
                                accepted_bytes: 0,
                                bytes_written: 0,
                                bytes_reused: 0,
                                failure: None,
                            },
                        ),
                        ..old(self)@
                    }),
                },
            },
    {
        match self.check_register(&name) {
            Err(error) => {
                return Err(error);
            },
            Ok(()) => {},
        }
        match opened {
            Err(detail) => {
                return Err(SessionError::Transfer(detail));
            },
            Ok(()) => {},
        }
        let id: u8 = self.streams.len() as u8;
        let stream = Stream {
            id,
            name,
            size,
            incremental,
            open: true,
            accepted_bytes: 0,
            bytes_written: 0,
            bytes_reused: 0,
            failure: None,
        };
        self.streams.push(stream);
        proof {
            let before = old(self)@;
            let after = self@;
            assert(!has_pending(before.pending, id)) by {
                assert forall|k: int| 0 <= k < before.pending.len() implies (
                #[trigger] before.pending[k]).stream_id != id by {
                    assert(before.pending_ok(before.pending[k]));
                }
            }
            lemma_pending_bytes_none(before.pending, id);
            lemma_accepted_sum_none(before.accepted, id);
            assert forall|i: int| 0 <= i < after.streams.len() implies after.stream_ok(
                #[trigger] after.streams[i],
            ) by {
                if i < before.streams.len() {
                    assert(before.stream_ok(before.streams[i]));
                }
            }
            assert forall|k: int| 0 <= k < after.pending.len() implies after.pending_ok(
                #[trigger] after.pending[k],
            ) by {
                assert(before.pending_ok(before.pending[k]));
            }
        }
        Ok(id)
    }

    /// Accepts `data` as a write to stream `dev_id` at `offset`. The bytes
    /// are copied before the call returns. The write must lie within the
    /// declared size of an open stream; it may end exactly at the size.
    pub fn write_data(&mut self, dev_id: u8, data: &[u8], offset: u64) -> (written: Result<
        WriteStatus,
        SessionError,
    >)
        requires
            old(self)@.wf(),
        ensures
            final(self)@.wf(),
            match old(self)@.write_error(dev_id, offset, data@.len()) {
                Some(error) => written == Err::<WriteStatus, SessionError>(error) && final(self)@
                    == old(self)@,
                None => if old(self)@.pending.len() >= old(self)@.upload_slots {
                    written == Ok::<WriteStatus, SessionError>(WriteStatus::Busy) && final(self)@
                        == old(self)@
                } else {
                    &&& written == Ok::<WriteStatus, SessionError>(
                        WriteStatus::Accepted { ticket: old(self)@.next_ticket as u64 },
                    )
                    &&& final(self)@.next_ticket == old(self)@.next_ticket + 1
                    &&& final(self)@.streams == old(self)@.streams.update(
                        dev_id as int,
                        Stream {
                            accepted_bytes: (old(self)@.streams[dev_id as int].accepted_bytes
                                + data@.len()) as u64,
                            ..old(self)@.streams[dev_id as int]
                        },
                    )
                    &&& final(self)@.pending.len() == old(self)@.pending.len() + 1
                    &&& final(self)@.pending.drop_last() == old(self)@.pending
                    &&& final(self)@.pending.last().ticket == old(self)@.next_ticket
                    &&& final(self)@.pending.last().stream_id == dev_id
                    &&& final(self)@.pending.last().offset == offset
                    &&& final(self)@.pending.last().len == data@.len()
                    &&& final(self)@.pending.last().payload is Some
                    &&& final(self)@.pending.last().payload->0@ == data@
                    &&& final(self)@.accepted == old(self)@.accepted.push(
                        AcceptedWrite { stream_id: dev_id, len: data@.len() as u64 },
                    )
                    &&& final(self)@.setup == old(self)@.setup
                    &&& final(self)@.state == old(self)@.state
                    &&& final(self)@.abort_reason == old(self)@.abort_reason
                    &&& final(self)@.has_prior == old(self)@.has_prior
                    &&& final(self)@.blobs == old(self)@.blobs
                    &&& final(self)@.upload_slots == old(self)@.upload_slots
                },
            },
    {
        match self.check_active() {
            Err(error) => {
                return Err(error);
            },
            Ok(()) => {},
        }
        let index = dev_id as usize;
        if index >= self.streams.len() {
            return Err(SessionError::UnknownStream);
        }
        if !self.streams[index].open {
            return Err(SessionError::StreamClosed);
        }
        let len: u64 = data.len() as u64;
        let size = self.streams[index].size;
        if len > size || offset > size - len {
            return Err(SessionError::WriteOutOfRange);
        }
        let accepted = self.streams[index].accepted_bytes;
        if len > u64::MAX - accepted || self.next_ticket >= u64::MAX {
            return Err(SessionError::CounterExhausted);
        }
        if self.pending.len() >= self.upload_slots {
            return Ok(WriteStatus::Busy);
        }
        proof {
            assert(old(self)@.stream_ok(old(self)@.streams[index as int]));
        }
        let ticket = self.next_ticket;
        let write = PendingWrite {
            ticket,
            stream_id: dev_id,
            offset,
            len,
            payload: Some(vstd::slice::slice_to_vec(data)),
        };
        self.streams[index].accepted_bytes = accepted + len;
        self.pending.push(write);
        self.next_ticket = ticket + 1;
        let ghost record = AcceptedWrite { stream_id: dev_id, len };
        proof {
            self.accepted@ = self.accepted@.push(record);
        }
        proof {
            let before = old(self)@;
            let after = self@;
            assert(after.pending.drop_last() =~= before.pending);
            assert(after.pending == before.pending.push(write));
            assert(after.accepted.drop_last() =~= before.accepted);
            assert forall|i: int| 0 <= i < after.streams.len() implies after.stream_ok(
                #[trigger] after.streams[i],
            ) by {
                assert(before.stream_ok(before.streams[i]));
                lemma_pending_bytes_push(before.pending, write, before.streams[i].id);
            }
            assert forall|k: int| 0 <= k < after.accepted.len() implies (
            #[trigger] after.accepted[k]).stream_id < after.streams.len() by {
                if k < before.accepted.len() {
                    assert(before.accepted[k].stream_id < before.streams.len());
                }
            }
            assert forall|k: int| 0 <= k < after.pending.len() implies after.pending_ok(
                #[trigger] after.pending[k],
            ) by {
                if k < before.pending.len() {
                    assert(before.pending_ok(before.pending[k]));
                }
            }
            assert forall|k: int, l: int| 0 <= k < l < after.pending.len() implies (
            #[trigger] after.pending[k]).ticket != (#[trigger] after.pending[l]).ticket by {
                assert(before.pending_ok(before.pending[k]));
            }
        }
        Ok(WriteStatus::Accepted { ticket })
    }

    /// Hands the next waiting write to an uploader: the first in the queue
    /// whose bytes have not been taken. The write stays in the queue, without
    /// its bytes, until `upload_done` reports on its ticket. Returns `None`
    /// if no write waits or the session was aborted.
    pub fn next_upload(&mut self) -> (job: Option<UploadJob>)
        requires
            old(self)@.wf(),
        ensures
            final(self)@.wf(),
            match job {
                None => final(self)@ == old(self)@ && (old(self)@.aborted() || !old(self)@.has_queued()),
                Some(job) => {
                    let at = old(self)@.queue_head();
                    &&& !old(self)@.aborted()
                    &&& old(self)@.is_queue_head(at)
                    &&& job.ticket == old(self)@.pending[at].ticket
                    &&& job.stream_id == old(self)@.pending[at].stream_id
                    &&& job.offset == old(self)@.pending[at].offset
                    &&& job.payload == old(self)@.pending[at].payload->0
                    &&& final(self)@ == (BackupTaskView {
                        pending: old(self)@.pending.update(
                            at,
                            PendingWrite { payload: None, ..old(self)@.pending[at] },
                        ),
                        ..old(self)@
                    })
                },
            },
    {
        if self.abort_reason.is_some() {
            return None;
        }
        let mut at: usize = 0;
        while at < self.pending.len() && self.pending[at].payload.is_none()
            invariant
                at <= self.pending.len(),
                forall|j: int| 0 <= j < at ==> (#[trigger] self.pending@[j]).payload is None,
            decreases self.pending.len() - at,
        {
            at += 1;
        }
        if at >= self.pending.len() {
            return None;
        }
        proof {
            let before = old(self)@;
            assert(before.is_queue_head(at as int));
            assert forall|other: int| before.is_queue_head(other) implies other == at by {
                if other < at {
                    assert(before.pending[other].payload is None);
                } else if other > at {
                    assert(before.pending[at as int].payload is None);
                }
            }
            assert(before.queue_head() == at);
        }
        let mut write = self.pending.remove(at);
        let payload = write.payload.take();
        let job = UploadJob {
            ticket: write.ticket,
            stream_id: write.stream_id,
            offset: write.offset,
            payload: payload.unwrap(),
        };
        self.pending.insert(at, write);
        proof {
            let before = old(self)@;
            let after = self@;
            let index = at as int;
            assert(after.pending =~= before.pending.update(
                index,
                PendingWrite { payload: None, ..before.pending[index] },
            ));
            assert forall|i: int| 0 <= i < after.streams.len() implies after.stream_ok(
                #[trigger] after.streams[i],
            ) by {
                assert(before.stream_ok(before.streams[i]));
                lemma_pending_bytes_update(before.pending, index, write, before.streams[i].id);
            }
            assert forall|k: int| 0 <= k < after.pending.len() implies after.pending_ok(
                #[trigger] after.pending[k],
            ) by {
                assert(before.pending_ok(before.pending[k]));
            }
            assert forall|k: int, l: int| 0 <= k < l < after.pending.len() implies (
            #[trigger] after.pending[k]).ticket != (#[trigger] after.pending[l]).ticket by {
                assert(before.pending[k].ticket != before.pending[l].ticket);
            }
        }
        Some(job)
    }

    /// Records what the store reported on the upload with ticket `ticket`:
    /// `Ok(true)` if it knew the chunk and took no bytes, `Ok(false)` if the
    /// bytes were sent, `Err` with its words if the upload failed. The write
    /// leaves the queue and frees its slot. Unless the session was aborted,
    /// the stream of the write counts a confirmed upload and keeps the words
    /// of its first failed one.
    pub fn upload_done(&mut self, ticket: u64, outcome: Result<bool, String>) -> (done: Result<
        (),
        SessionError,
    >)
        requires
            old(self)@.wf(),
        ensures
            final(self)@.wf(),
            if !old(self)@.in_flight(ticket) {
                done == Err::<(), SessionError>(SessionError::UnknownTicket) && final(self)@
                    == old(self)@
            } else {
                let at = old(self)@.in_flight_at(ticket);
                let write = old(self)@.pending[at];
                &&& done == Ok::<(), SessionError>(())
                &&& old(self)@.is_in_flight_at(at, ticket)
                &&& final(self)@ == (BackupTaskView {
                    pending: old(self)@.pending.remove(at),
                    streams: if old(self)@.aborted() {
                        old(self)@.streams
                    } else {
                        old(self)@.streams.update(
                            write.stream_id as int,
                            settled(old(self)@.streams[write.stream_id as int], write.len, outcome),
                        )
                    },
                    ..old(self)@
                })
            },
    {
        let mut at: usize = 0;
        while at < self.pending.len() && !(self.pending[at].ticket == ticket
            && self.pending[at].payload.is_none())
            invariant
                at <= self.pending.len(),
                forall|j: int| 0 <= j < at ==> !self@.is_in_flight_at(j, ticket),
            decreases self.pending.len() - at,
        {
            at += 1;
        }
        if at >= self.pending.len() {
            return Err(SessionError::UnknownTicket);
        }
        proof {
            let before = old(self)@;
            assert(before.is_in_flight_at(at as int, ticket));
            assert forall|other: int| before.is_in_flight_at(other, ticket) implies other
                == at by {
                if other != at {
                    assert(before.pending[other].ticket == before.pending[at as int].ticket);
                }
            }
            assert(before.in_flight_at(ticket) == at);
            assert(before.pending_ok(before.pending[at as int]));
        }
        let write = self.pending.remove(at);
        let index = write.stream_id as usize;
        proof {
            let before = old(self)@;
            assert(before.stream_ok(before.streams[index as int]));
            lemma_pending_bytes_remove(before.pending, at as int, write.stream_id);
        }
        if self.abort_reason.is_none() {
            match outcome {
                Ok(reused) => {
                    self.streams[index].bytes_written = self.streams[index].bytes_written
                        + write.len;
                    if reused {
                        self.streams[index].bytes_reused = self.streams[index].bytes_reused
                            + write.len;
                    }
                },
                Err(detail) => {
                    if self.streams[index].failure.is_none() {
                        self.streams[index].failure = Some(detail);
                    }
                },
            }
        }
        proof {
            let before = old(self)@;
            let after = self@;
            assert(after.pending == before.pending.remove(at as int));
            if !before.aborted() {
                assert(after.streams =~= before.streams.update(
                    index as int,
                    settled(before.streams[index as int], write.len, outcome),
                ));
            }
            assert forall|i: int| 0 <= i < after.streams.len() implies after.stream_ok(
                #[trigger] after.streams[i],
            ) by {
                assert(before.stream_ok(before.streams[i]));
                lemma_pending_bytes_remove(before.pending, at as int, before.streams[i].id);
            }
            assert forall|k: int| 0 <= k < after.pending.len() implies after.pending_ok(
                #[trigger] after.pending[k],
            ) by {
                if k < at {
                    assert(before.pending_ok(before.pending[k]));
                } else {
                    assert(before.pending_ok(before.pending[k + 1]));
                }
            }
            assert forall|k: int, l: int| 0 <= k < l < after.pending.len() implies (
            #[trigger] after.pending[k]).ticket != (#[trigger] after.pending[l]).ticket by {
                let from_k = if k < at { k } else { k + 1 };
                let from_l = if l < at { l } else { l + 1 };
                assert(before.pending[from_k].ticket != before.pending[from_l].ticket);
            }
            assert(any_open(after.streams) ==> any_open(before.streams)) by {
                if any_open(after.streams) {
                    let i = choose|i: int| 0 <= i < after.streams.len() && (
                    #[trigger] after.streams[i]).open;
                    assert(before.streams[i].open);
                }
            }
        }
        Ok(())
    }

    /// Closes stream `dev_id`. While writes of the stream wait for the store
    /// the stream stays open and the answer is `Pending`; once none waits,
    /// the stream is closed and the answer holds its totals, in which the
    /// written bytes are the bytes of all writes the stream has accepted. A
    /// stream with a failed upload cannot be closed: the call fails with the
    /// words of the first failure. A stream need not be written in full.
    pub fn close_image(&mut self, dev_id: u8) -> (closed: Result<CloseStatus, SessionError>)
        requires
            old(self)@.wf(),
        ensures
            final(self)@.wf(),
            match old(self)@.close_error(dev_id) {
                Some(error) => closed == Err::<CloseStatus, SessionError>(error) && final(self)@
                    == old(self)@,
                None => if has_pending(old(self)@.pending, dev_id) {
                    closed == Ok::<CloseStatus, SessionError>(CloseStatus::Pending) && final(self)@ == old(self)@
                } else {
                    &&& closed == Ok::<CloseStatus, SessionError>(
                        CloseStatus::Closed(old(self)@.totals(dev_id)),
                    )
                    &&& old(self)@.totals(dev_id).bytes_written == old(self)@.streams[dev_id as int].accepted_bytes
                    &&& final(self)@ == (BackupTaskView {
                        streams: old(self)@.streams.update(
                            dev_id as int,
                            Stream { open: false, ..old(self)@.streams[dev_id as int] },
                        ),
                        ..old(self)@
                    })
                },
            },
    {
        match self.check_active() {
            Err(error) => {
                return Err(error);
            },
            Ok(()) => {},
        }
        let index = dev_id as usize;
        if index >= self.streams.len() {
            return Err(SessionError::UnknownStream);
        }
        if !self.streams[index].open {
            return Err(SessionError::StreamClosed);
        }
        match &self.streams[index].failure {
            Some(detail) => {
                return Err(SessionError::Transfer(detail.clone()));
            },
            None => {},
        }
        let mut at: usize = 0;
        while at < self.pending.len() && self.pending[at].stream_id != dev_id
            invariant
                at <= self.pending.len(),
                forall|j: int| 0 <= j < at ==> (#[trigger] self.pending@[j]).stream_id != dev_id,
            decreases self.pending.len() - at,
        {
            at += 1;
        }
        if at < self.pending.len() {
            assert(self@.pending[at as int].stream_id == dev_id);
            return Ok(CloseStatus::Pending);
        }
        proof {
            let before = old(self)@;
            lemma_pending_bytes_none(before.pending, dev_id);
            assert(before.stream_ok(before.streams[index as int]));
        }
        let totals = StreamTotals {
            size: self.streams[index].size,
            bytes_written: self.streams[index].bytes_written,
            bytes_reused: self.streams[index].bytes_reused,
        };
        self.streams[index].open = false;
        proof {
            let before = old(self)@;
            let after = self@;
            assert forall|i: int| 0 <= i < after.streams.len() implies after.stream_ok(
                #[trigger] after.streams[i],
            ) by {
                assert(before.stream_ok(before.streams[i]));
            }
            assert forall|k: int| 0 <= k < after.pending.len() implies after.pending_ok(
                #[trigger] after.pending[k],
            ) by {
                assert(before.pending_ok(before.pending[k]));
            }
        }
        Ok(CloseStatus::Closed(totals))
    }

    /// Records a configuration blob of `size` bytes under `name`, given what
    /// the store answered to its upload. Blobs are independent of the
    /// streams and can be added whenever the session is connected.
    pub fn add_config(&mut self, name: String, size: u64, uploaded: Result<(), String>) -> (added:
        Result<(), SessionError>)
        requires
            old(self)@.wf(),
        ensures
            final(self)@.wf(),
            match old(self)@.active_error() {
                Some(error) => added == Err::<(), SessionError>(error) && final(self)@ == old(self)@,
                None => match uploaded {
                    Err(detail) => added == Err::<(), SessionError>(
                        SessionError::Transfer(detail),
                    ) && final(self)@ == old(self)@,
                    Ok(()) => added == Ok::<(), SessionError>(()) && final(self)@ == (
                    BackupTaskView {
                        blobs: old(self)@.blobs.push(Blob { name, size }),
                        ..old(self)@
                    }),
                },
            },
    {
        match self.check_active() {
            Err(error) => {
                return Err(error);
            },
            Ok(()) => {},
        }
        match uploaded {
            Err(detail) => {
                return Err(SessionError::Transfer(detail));
            },
            Ok(()) => {},
        }
        self.blobs.push(Blob { name, size });
        proof {
            let before = old(self)@;
            let after = self@;
            assert forall|i: int| 0 <= i < after.streams.len() implies after.stream_ok(
                #[trigger] after.streams[i],
            ) by {
                assert(before.stream_ok(before.streams[i]));
            }
            assert forall|k: int| 0 <= k < after.pending.len() implies after.pending_ok(
                #[trigger] after.pending[k],
            ) by {
                assert(before.pending_ok(before.pending[k]));
            }
        }
        Ok(())
    }

    /// Returns the error that stops `prepare_finish`, if the session cannot
    /// be finished now.
    pub fn check_finish(&self) -> (checked: Result<(), SessionError>)
        ensures
            checked == match self@.prepare_error() {
                Some(error) => Err::<(), SessionError>(error),
                None => Ok(()),
            },
    {
        match self.check_active() {
            Err(error) => {
                return Err(error);
            },
            Ok(()) => {},
        }
        let mut i: usize = 0;
        while i < self.streams.len() && !self.streams[i].open
            invariant
                i <= self.streams.len(),
                forall|j: int| 0 <= j < i ==> !(#[trigger] self.streams@[j]).open,
            decreases self.streams.len() - i,
        {
            i += 1;
        }
        if i < self.streams.len() {
            assert(self@.streams[i as int].open);
            return Err(SessionError::StreamsStillOpen);
        }
        Ok(())
    }

    /// The manifest of the session as it stands: one entry for each stream,
    /// in the order of registration, and the blobs, in the order of upload.
    pub fn manifest(&self) -> (manifest: Manifest)
        ensures
            manifest.images@.len() == self@.streams.len(),
            forall|i: int|
                0 <= i < self@.streams.len() ==> #[trigger] manifest.images@[i] == entry_of(
                    self@.streams[i],
                ),
            manifest.blobs@ == self@.blobs,
    {
        let mut images: Vec<ManifestEntry> = Vec::new();
        let mut i: usize = 0;
        while i < self.streams.len()
            invariant
                i <= self.streams.len(),
                images@.len() == i,
                forall|j: int| 0 <= j < i ==> #[trigger] images@[j] == entry_of(self.streams@[j]),
            decreases self.streams.len() - i,
        {
            let stream = &self.streams[i];
            images.push(
                ManifestEntry {
                    name: stream.name.clone(),
                    size: stream.size,
                    bytes_written: stream.bytes_written,
                    bytes_reused: stream.bytes_reused,
                },
            );
            i += 1;
        }
        let mut blobs: Vec<Blob> = Vec::new();
        let mut k: usize = 0;
        while k < self.blobs.len()
            invariant
                k <= self.blobs.len(),
                blobs@ == self.blobs@.take(k as int),
            decreases self.blobs.len() - k,
        {
            let blob = &self.blobs[k];
            blobs.push(Blob { name: blob.name.clone(), size: blob.size });
            assert(self.blobs@.take(k as int).push(self.blobs@[k as int]) =~= self.blobs@.take(
                k + 1,
            ));
            k += 1;
        }
        assert(self.blobs@.take(self.blobs@.len() as int) =~= self.blobs@);
        Manifest { images, blobs }
    }

    /// Starts to finish the backup: every registered stream must be closed.
    /// Returns the manifest to commit. From here on the session takes no
    /// operation but `finish` with the outcome of the commit, so that the
    /// manifest is committed for one caller only.
    pub fn prepare_finish(&mut self) -> (prepared: Result<Manifest, SessionError>)
        requires
            old(self)@.wf(),
        ensures
            final(self)@.wf(),
            match old(self)@.prepare_error() {
                Some(error) => prepared == Err::<Manifest, SessionError>(error) && final(self)@
                    == old(self)@,
                None => {
                    &&& prepared is Ok
                    &&& final(self)@ == (BackupTaskView {
                        state: SessionState::Finishing,
                        ..old(self)@
                    })
                    &&& prepared->Ok_0.images@.len() == old(self)@.streams.len()
                    &&& forall|i: int|
                        0 <= i < old(self)@.streams.len() ==> #[trigger] prepared->Ok_0.images@[i]
                            == entry_of(old(self)@.streams[i])
                    &&& prepared->Ok_0.blobs@ == old(self)@.blobs
                },
            },
    {
        match self.check_finish() {
            Err(error) => {
                return Err(error);
            },
            Ok(()) => {},
        }
        let manifest = self.manifest();
        self.state = SessionState::Finishing;
        Ok(manifest)
    }

    /// Finishes the backup, given what the store answered to the commit of
    /// the manifest. Every registered stream must be closed. When the commit
    /// succeeded the session is finished, and a session is finished once:
    /// every later operation fails, `finish` too. When the commit failed the
    /// session is connected as before. A session that `prepare_finish` has
    /// prepared needs nothing but the outcome.
    pub fn finish(&mut self, committed: Result<(), String>) -> (finished: Result<
        (),
        SessionError,
    >)
        requires
            old(self)@.wf(),
        ensures
            final(self)@.wf(),
            match old(self)@.finish_error() {
                Some(error) => finished == Err::<(), SessionError>(error) && final(self)@ == old(self)@,
                None => match committed {
                    Err(detail) => finished == Err::<(), SessionError>(
                        SessionError::Transfer(detail),
                    ) && final(self)@ == (BackupTaskView {
                        state: SessionState::Connected,
                        ..old(self)@
                    }),
                    Ok(()) => finished == Ok::<(), SessionError>(()) && final(self)@ == (
                    BackupTaskView { state: SessionState::Finished, ..old(self)@ }),
                },
            },
    {
        let prepared = match self.state {
            SessionState::Finishing => self.abort_reason.is_none(),
            _ => false,
        };
        if !prepared {
            match self.check_finish() {
                Err(error) => {
                    return Err(error);
                },
                Ok(()) => {},
            }
        }
        match committed {
            Err(detail) => {
                self.state = SessionState::Connected;
                Err(SessionError::Transfer(detail))
            },
            Ok(()) => {
                self.state = SessionState::Finished;
                Ok(())
            },
        }
    }

    /// Where the session stands.
    pub fn state(&self) -> (state: SessionState)
        ensures
            state == self@.state,
    {
        self.state
    }

    /// Whether the session was aborted.
    pub fn is_aborted(&self) -> (aborted: bool)
        ensures
            aborted == self@.aborted(),
    {
        self.abort_reason.is_some()
    }

    /// Whether connecting found an earlier backup of the same target.
    pub fn has_prior(&self) -> (prior: bool)
        ensures
            prior == self@.has_prior,
    {
        self.has_prior
    }

    /// What the session was set up with.
    pub fn setup(&self) -> (setup: &BackupSetup)
        ensures
            *setup == self@.setup,
    {
        &self.setup
    }

    /// The number of registered streams.
    pub fn stream_count(&self) -> (count: usize)
        ensures
            count == self@.streams.len(),
    {
        self.streams.len()
    }

    /// The stream registered under `dev_id`, if there is one.
    pub fn stream(&self, dev_id: u8) -> (stream: Option<&Stream>)
        ensures
            stream == if dev_id < self@.streams.len() {
                Some(&self@.streams[dev_id as int])
            } else {
                None
            },
    {
        let index = dev_id as usize;
        if index < self.streams.len() {
            Some(&self.streams[index])
        } else {
            None
        }
    }

    /// The number of writes that wait for the store.
    pub fn outstanding(&self) -> (count: usize)
        ensures
            count == self@.pending.len(),
    {
        self.pending.len()
    }

    /// How many writes may wait for the store at once.
    pub fn upload_slots(&self) -> (slots: usize)
        ensures
            slots == self@.upload_slots,
    {
        self.upload_slots
    }
}

} // verus!
