use proxmox_backup_qemu::errors::{ErrorKind, SessionError};

fn all_errors() -> Vec<SessionError> {
    vec![
        SessionError::MissingRepository,
        SessionError::MissingBackupId,
        SessionError::MissingSnapshot,
        SessionError::MissingArchiveName,
        SessionError::InvalidBackupTime,
        SessionError::WrongBackupType(String::from("ct")),
        SessionError::Connection(String::from("refused")),
        SessionError::AlreadyConnected,
        SessionError::NotConnected,
        SessionError::NameInUse,
        SessionError::TooManyStreams,
        SessionError::UnknownStream,
        SessionError::StreamClosed,
        SessionError::WriteOutOfRange,
        SessionError::CounterExhausted,
        SessionError::UnknownTicket,
        SessionError::StreamsStillOpen,
        SessionError::AlreadyFinished,
        SessionError::ArchiveAlreadyOpen,
        SessionError::NoArchiveOpen,
        SessionError::ArchiveTooLarge,
        SessionError::Transfer(String::from("chunk lost")),
        SessionError::Aborted(String::from("user")),
        SessionError::SinkAborted(-5),
    ]
}

#[test]
fn error_kinds_follow_the_taxonomy() {
    let kinds: Vec<ErrorKind> = all_errors().iter().map(|error| error.kind()).collect();
    let expected = vec![
        ErrorKind::Setup,
        ErrorKind::Setup,
        ErrorKind::Setup,
        ErrorKind::Setup,
        ErrorKind::Setup,
        ErrorKind::Setup,
        ErrorKind::Connection,
        ErrorKind::State,
        ErrorKind::State,
        ErrorKind::State,
        ErrorKind::State,
        ErrorKind::State,
        ErrorKind::State,
        ErrorKind::State,
        ErrorKind::State,
        ErrorKind::State,
        ErrorKind::State,
        ErrorKind::State,
        ErrorKind::State,
        ErrorKind::State,
        ErrorKind::State,
        ErrorKind::Transfer,
        ErrorKind::Abort,
        ErrorKind::SinkAbort,
    ];
    assert_eq!(kinds, expected);
}

#[test]
fn error_messages_are_fixed_texts() {
    let messages: Vec<String> = all_errors().iter().map(|error| error.message()).collect();
    let expected = vec![
        "repo must not be NULL",
        "backup_id must not be NULL",
        "snapshot must not be NULL",
        "archive_name must not be NULL",
        "backup time is out of range",
        "wrong backup type (ct != vm)",
        "connection failed: refused",
        "session is already connected",
        "session is not connected",
        "image name is already registered",
        "too many registered images",
        "no such image",
        "image is closed",
        "write exceeds the size of the image",
        "session counter exhausted",
        "no such upload in flight",
        "not all images are closed",
        "backup is already finished",
        "an archive is already being restored",
        "no archive is being restored",
        "archive is too large",
        "transfer failed: chunk lost",
        "aborted by caller: user",
        "aborted by sink",
    ];
    assert_eq!(messages, expected);
}

#[test]
fn error_messages_keep_empty_details() {
    assert_eq!(SessionError::Transfer(String::new()).message(), "transfer failed: ");
    assert_eq!(SessionError::Aborted(String::new()).message(), "aborted by caller: ");
    assert_eq!(SessionError::WrongBackupType(String::new()).message(), "wrong backup type ( != vm)");
}

#[test]
fn duplicate_equals_original() {
    for error in all_errors() {
        assert_eq!(error.duplicate(), error);
    }
}

#[test]
fn abort_and_transfer_kinds_differ() {
    let aborted = SessionError::Aborted(String::from("x"));
    let failed = SessionError::Transfer(String::from("x"));
    assert_ne!(aborted.kind(), failed.kind());
    assert_ne!(aborted.kind(), SessionError::SinkAborted(1).kind());
}
