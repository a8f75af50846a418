//! The errors a session reports, each with its kind and its message.

use vstd::prelude::*;

verus! {

/// The six families of failure a caller can tell apart.
#[derive(Clone, Copy, Debug, PartialEq, Eq, Structural)]
pub enum ErrorKind {
    /// Malformed location or credentials, found when a session is set up.
    Setup,
    /// The handshake with the remote store failed.
    Connection,
    /// An operation was invoked in a state that does not allow it.
    State,
    /// The remote store failed to take or to hand out data.
    Transfer,
    /// The caller aborted the session.
    Abort,
    /// A restore sink declined further data.
    SinkAbort,
}

/// Why an operation on a session failed.
#[derive(Clone, Debug, PartialEq, Eq)]
pub enum SessionError {
    /// No repository location was given.
    MissingRepository,
    /// No backup identifier was given.
    MissingBackupId,
    /// No snapshot was given.
    MissingSnapshot,
    /// No archive name was given.
    MissingArchiveName,
    /// The backup time is not a representable UTC calendar time.
    InvalidBackupTime,
    /// The snapshot is of another backup type than virtual machine; holds the
    /// type that was found.
    WrongBackupType(String),
    /// The handshake failed; holds what the remote side reported.
    Connection(String),
    /// The session has been connected before.
    AlreadyConnected,
    /// The session is not connected.
    NotConnected,
    /// A stream of that name is registered already.
    NameInUse,
    /// Every stream id has been handed out.
    TooManyStreams,
    /// No stream was ever registered under that id.
    UnknownStream,
    /// The stream has been closed.
    StreamClosed,
    /// The write reaches beyond the declared size of the stream.
    WriteOutOfRange,
    /// A counter of the session would leave its range.
    CounterExhausted,
    /// No write in flight carries that ticket.
    UnknownTicket,
    /// A registered stream is still open.
    StreamsStillOpen,
    /// The session has been finished before.
    AlreadyFinished,
    /// An archive is being restored already.
    ArchiveAlreadyOpen,
    /// No archive is being restored.
    NoArchiveOpen,
    /// The extents of the archive do not add up to a 64-bit length.
    ArchiveTooLarge,
    /// The remote store failed; holds what it reported.
    Transfer(String),
    /// The caller aborted the session; holds the reason given.
    Aborted(String),
    /// A sink returned the given non-zero status.
    SinkAborted(i32),
}

impl SessionError {
    /// The family this error belongs to.
    pub open spec fn kind_spec(self) -> ErrorKind {
        match self {
            SessionError::MissingRepository => ErrorKind::Setup,
            SessionError::MissingBackupId => ErrorKind::Setup,
            SessionError::MissingSnapshot => ErrorKind::Setup,
            SessionError::MissingArchiveName => ErrorKind::Setup,
            SessionError::InvalidBackupTime => ErrorKind::Setup,
            SessionError::WrongBackupType(_) => ErrorKind::Setup,
            SessionError::Connection(_) => ErrorKind::Connection,
            SessionError::AlreadyConnected => ErrorKind::State,
            SessionError::NotConnected => ErrorKind::State,
            SessionError::NameInUse => ErrorKind::State,
            SessionError::TooManyStreams => ErrorKind::State,
            SessionError::UnknownStream => ErrorKind::State,
            SessionError::StreamClosed => ErrorKind::State,
            SessionError::WriteOutOfRange => ErrorKind::State,
            SessionError::CounterExhausted => ErrorKind::State,
            SessionError::UnknownTicket => ErrorKind::State,
            SessionError::StreamsStillOpen => ErrorKind::State,
            SessionError::AlreadyFinished => ErrorKind::State,
            SessionError::ArchiveAlreadyOpen => ErrorKind::State,
            SessionError::NoArchiveOpen => ErrorKind::State,
            SessionError::ArchiveTooLarge => ErrorKind::State,
            SessionError::Transfer(_) => ErrorKind::Transfer,
            SessionError::Aborted(_) => ErrorKind::Abort,
            SessionError::SinkAborted(_) => ErrorKind::SinkAbort,
        }
    }

    /// The human-readable message of this error, as a sequence of characters.
    pub open spec fn message_spec(self) -> Seq<char> {
        match self {
            SessionError::MissingRepository => "repo must not be NULL"@,
            SessionError::MissingBackupId => "backup_id must not be NULL"@,
            SessionError::MissingSnapshot => "snapshot must not be NULL"@,
            SessionError::MissingArchiveName => "archive_name must not be NULL"@,
            SessionError::InvalidBackupTime => "backup time is out of range"@,
            SessionError::WrongBackupType(found) => "wrong backup type ("@ + found@ + " != vm)"@,
            SessionError::Connection(detail) => "connection failed: "@ + detail@,
            SessionError::AlreadyConnected => "session is already connected"@,
            SessionError::NotConnected => "session is not connected"@,
            SessionError::NameInUse => "image name is already registered"@,
            SessionError::TooManyStreams => "too many registered images"@,
            SessionError::UnknownStream => "no such image"@,
            SessionError::StreamClosed => "image is closed"@,
            SessionError::WriteOutOfRange => "write exceeds the size of the image"@,
            SessionError::CounterExhausted => "session counter exhausted"@,
            SessionError::UnknownTicket => "no such upload in flight"@,
            SessionError::StreamsStillOpen => "not all images are closed"@,
            SessionError::AlreadyFinished => "backup is already finished"@,
            SessionError::ArchiveAlreadyOpen => "an archive is already being restored"@,
            SessionError::NoArchiveOpen => "no archive is being restored"@,
            SessionError::ArchiveTooLarge => "archive is too large"@,
            SessionError::Transfer(detail) => "transfer failed: "@ + detail@,
            SessionError::Aborted(reason) => "aborted by caller: "@ + reason@,
            SessionError::SinkAborted(_) => "aborted by sink"@,
        }
    }

    /// Returns the family of this error.
    pub fn kind(&self) -> (k: ErrorKind)
        ensures
            k == self.kind_spec(),
    {
        match self {
            SessionError::MissingRepository => ErrorKind::Setup,
            SessionError::MissingBackupId => ErrorKind::Setup,
            SessionError::MissingSnapshot => ErrorKind::Setup,
            SessionError::MissingArchiveName => ErrorKind::Setup,
            SessionError::InvalidBackupTime => ErrorKind::Setup,
            SessionError::WrongBackupType(_) => ErrorKind::Setup,
            SessionError::Connection(_) => ErrorKind::Connection,
            SessionError::Transfer(_) => ErrorKind::Transfer,
            SessionError::Aborted(_) => ErrorKind::Abort,
            SessionError::SinkAborted(_) => ErrorKind::SinkAbort,
            _ => ErrorKind::State,
        }
    }

    /// Returns the message of this error as an owned string.
    pub fn message(&self) -> (text: String)
        ensures
            text@ == self.message_spec(),
    {
        match self {
            SessionError::MissingRepository => String::from_str("repo must not be NULL"),
            SessionError::MissingBackupId => String::from_str("backup_id must not be NULL"),
            SessionError::MissingSnapshot => String::from_str("snapshot must not be NULL"),
            SessionError::MissingArchiveName => String::from_str("archive_name must not be NULL"),
            SessionError::InvalidBackupTime => String::from_str("backup time is out of range"),
            SessionError::WrongBackupType(found) => {
                String::from_str("wrong backup type (").concat(found.as_str()).concat(" != vm)")
            },
            SessionError::Connection(detail) => {
                String::from_str("connection failed: ").concat(detail.as_str())
            },
            SessionError::AlreadyConnected => String::from_str("session is already connected"),
            SessionError::NotConnected => String::from_str("session is not connected"),
            SessionError::NameInUse => String::from_str("image name is already registered"),
            SessionError::TooManyStreams => String::from_str("too many registered images"),
            SessionError::UnknownStream => String::from_str("no such image"),
            SessionError::StreamClosed => String::from_str("image is closed"),
            SessionError::WriteOutOfRange => String::from_str("write exceeds the size of the image"),
            SessionError::CounterExhausted => String::from_str("session counter exhausted"),
            SessionError::UnknownTicket => String::from_str("no such upload in flight"),
            SessionError::StreamsStillOpen => String::from_str("not all images are closed"),
            SessionError::AlreadyFinished => String::from_str("backup is already finished"),
            SessionError::ArchiveAlreadyOpen => {
                String::from_str("an archive is already being restored")
            },
            SessionError::NoArchiveOpen => String::from_str("no archive is being restored"),
            SessionError::ArchiveTooLarge => String::from_str("archive is too large"),
            SessionError::Transfer(detail) => {
                String::from_str("transfer failed: ").concat(detail.as_str())
            },
            SessionError::Aborted(reason) => {
                String::from_str("aborted by caller: ").concat(reason.as_str())
            },
            SessionError::SinkAborted(_) => String::from_str("aborted by sink"),
        }
    }

    /// Returns a copy of this error that equals it.
    pub fn duplicate(&self) -> (copy: SessionError)
        ensures
            copy == *self,
    {
        match self {
            SessionError::MissingRepository => SessionError::MissingRepository,
            SessionError::MissingBackupId => SessionError::MissingBackupId,
            SessionError::MissingSnapshot => SessionError::MissingSnapshot,
            SessionError::MissingArchiveName => SessionError::MissingArchiveName,
            SessionError::InvalidBackupTime => SessionError::InvalidBackupTime,
            SessionError::WrongBackupType(found) => SessionError::WrongBackupType(found.clone()),
            SessionError::Connection(detail) => SessionError::Connection(detail.clone()),
            SessionError::AlreadyConnected => SessionError::AlreadyConnected,
            SessionError::NotConnected => SessionError::NotConnected,
            SessionError::NameInUse => SessionError::NameInUse,
            SessionError::TooManyStreams => SessionError::TooManyStreams,
            SessionError::UnknownStream => SessionError::UnknownStream,
            SessionError::StreamClosed => SessionError::StreamClosed,
            SessionError::WriteOutOfRange => SessionError::WriteOutOfRange,
            SessionError::CounterExhausted => SessionError::CounterExhausted,
            SessionError::UnknownTicket => SessionError::UnknownTicket,
            SessionError::StreamsStillOpen => SessionError::StreamsStillOpen,
            SessionError::AlreadyFinished => SessionError::AlreadyFinished,
            SessionError::ArchiveAlreadyOpen => SessionError::ArchiveAlreadyOpen,
            SessionError::NoArchiveOpen => SessionError::NoArchiveOpen,
            SessionError::ArchiveTooLarge => SessionError::ArchiveTooLarge,
            SessionError::Transfer(detail) => SessionError::Transfer(detail.clone()),
            SessionError::Aborted(reason) => SessionError::Aborted(reason.clone()),
            SessionError::SinkAborted(status) => SessionError::SinkAborted(*status),
        }
    }
}

} // verus!
