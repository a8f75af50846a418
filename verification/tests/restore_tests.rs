use proxmox_backup_qemu::errors::{ErrorKind, SessionError};
use proxmox_backup_qemu::restore::{plan_segments, Extent, ProxmoxRestore, RestoreState, Segment};
use proxmox_backup_qemu::setup::{BackupSetup, Repository, Snapshot};

const MIB: u64 = 1024 * 1024;

fn setup() -> BackupSetup {
    let repo = Repository {
        host: String::from("pbs.example.org"),
        user: String::from("backup@pbs"),
        store: String::from("tank"),
    };
    let snapshot = Snapshot {
        backup_type: String::from("vm"),
        backup_id: String::from("100"),
        backup_time: 1_600_000_000,
    };
    BackupSetup::for_restore(Some(repo), Some(snapshot), None, None, None, None).unwrap()
}

fn data(len: u64) -> Extent {
    Extent { len, sparse: false }
}

fn hole(len: u64) -> Extent {
    Extent { len, sparse: true }
}

fn connected() -> ProxmoxRestore {
    let mut session = ProxmoxRestore::new(setup());
    assert_eq!(session.connect(Ok(())), Ok(()));
    session
}

fn name() -> Option<String> {
    Some(String::from("drive-scsi0.img.fidx"))
}

#[test]
fn plan_of_data_hole_data() {
    let extents = vec![data(4 * MIB), hole(8 * MIB), data(4 * MIB)];
    let expected = vec![
        Segment { offset: 0, len: 4 * MIB, sparse: false },
        Segment { offset: 4 * MIB, len: 8 * MIB, sparse: true },
        Segment { offset: 12 * MIB, len: 4 * MIB, sparse: false },
    ];
    assert_eq!(plan_segments(&extents), Ok(expected));
}

#[test]
fn plan_joins_chunks_of_one_kind() {
    let extents = vec![data(4 * MIB), hole(4 * MIB), hole(4 * MIB), data(4 * MIB)];
    let expected = vec![
        Segment { offset: 0, len: 4 * MIB, sparse: false },
        Segment { offset: 4 * MIB, len: 8 * MIB, sparse: true },
        Segment { offset: 12 * MIB, len: 4 * MIB, sparse: false },
    ];
    assert_eq!(plan_segments(&extents), Ok(expected));
    let extents = vec![data(1), data(2), data(3), hole(4), hole(5), data(6)];
    let expected = vec![
        Segment { offset: 0, len: 6, sparse: false },
        Segment { offset: 6, len: 9, sparse: true },
        Segment { offset: 15, len: 6, sparse: false },
    ];
    assert_eq!(plan_segments(&extents), Ok(expected));
}

#[test]
fn plan_skips_empty_extents() {
    assert_eq!(plan_segments(&vec![]), Ok(vec![]));
    assert_eq!(plan_segments(&vec![data(0), hole(0)]), Ok(vec![]));
    let extents = vec![hole(0), data(5), hole(0), data(5), data(0), hole(1), hole(0)];
    let expected = vec![
        Segment { offset: 0, len: 10, sparse: false },
        Segment { offset: 10, len: 1, sparse: true },
    ];
    assert_eq!(plan_segments(&extents), Ok(expected));
}

#[test]
fn plan_covers_the_archive_in_order() {
    let extents = vec![hole(3), data(7), data(1), hole(2), data(9), hole(4), hole(4)];
    let segments = plan_segments(&extents).unwrap();
    let total: u64 = extents.iter().map(|extent| extent.len).sum();
    assert_eq!(total, 30);
    let mut offset = 0;
    for segment in &segments {
        assert_eq!(segment.offset, offset);
        assert!(segment.len > 0);
        offset += segment.len;
    }
    assert_eq!(offset, total);
    assert_eq!(segments.len(), 5);
    assert_eq!(
        segments.iter().map(|segment| segment.sparse).collect::<Vec<bool>>(),
        vec![true, false, true, false, true]
    );
}

#[test]
fn plan_fails_beyond_64_bit_length() {
    assert_eq!(plan_segments(&vec![data(u64::MAX), data(1)]), Err(SessionError::ArchiveTooLarge));
    assert_eq!(plan_segments(&vec![hole(1 << 63), data(1 << 63)]), Err(SessionError::ArchiveTooLarge));
    assert_eq!(
        plan_segments(&vec![data(u64::MAX), hole(0)]),
        Ok(vec![Segment { offset: 0, len: u64::MAX, sparse: false }])
    );
    assert_eq!(
        plan_segments(&vec![data(u64::MAX - 1), data(1)]),
        Ok(vec![Segment { offset: 0, len: u64::MAX, sparse: false }])
    );
}

#[test]
fn restore_of_sparse_image() {
    let mut session = connected();
    let extents = vec![data(4 * MIB), hole(8 * MIB), data(4 * MIB)];
    assert_eq!(session.open_archive(name(), Ok(extents)), Ok(16 * MIB));
    assert_eq!(session.state(), RestoreState::Open);
    let mut data_calls: Vec<(u64, u64)> = Vec::new();
    let mut zero_calls: Vec<(u64, u64)> = Vec::new();
    let mut calls: Vec<&str> = Vec::new();
    while let Some(segment) = session.next_segment() {
        assert_eq!(segment.offset, session.offset());
        if segment.sparse {
            zero_calls.push((segment.offset, segment.len));
            calls.push("zero");
        } else {
            data_calls.push((segment.offset, segment.len));
            calls.push("data");
        }
        session.segment_done(Ok(0)).unwrap();
    }
    assert_eq!(calls, vec!["data", "zero", "data"]);
    assert_eq!(data_calls, vec![(0, 4 * MIB), (12 * MIB, 4 * MIB)]);
    assert_eq!(zero_calls, vec![(4 * MIB, 8 * MIB)]);
    assert_eq!(session.offset(), 16 * MIB);
    assert!(session.is_exhausted());
    assert_eq!(session.state(), RestoreState::Exhausted);
}

#[test]
fn segment_done_says_whether_more_follows() {
    let mut session = connected();
    assert_eq!(session.open_archive(name(), Ok(vec![data(10), hole(20)])), Ok(30));
    assert_eq!(session.next_segment(), Some(Segment { offset: 0, len: 10, sparse: false }));
    assert_eq!(session.next_segment(), Some(Segment { offset: 0, len: 10, sparse: false }));
    assert_eq!(session.segment_done(Ok(0)), Ok(true));
    assert_eq!(session.offset(), 10);
    assert_eq!(session.next_segment(), Some(Segment { offset: 10, len: 20, sparse: true }));
    assert_eq!(session.segment_done(Ok(0)), Ok(false));
    assert_eq!(session.offset(), 30);
    assert_eq!(session.next_segment(), None);
    assert_eq!(session.segment_done(Ok(0)), Err(SessionError::NoArchiveOpen));
}

#[test]
fn sink_stops_the_restore() {
    let mut session = connected();
    assert_eq!(session.open_archive(name(), Ok(vec![data(10), hole(20), data(5)])), Ok(35));
    assert_eq!(session.segment_done(Ok(0)), Ok(true));
    let stopped = session.segment_done(Ok(-1));
    assert_eq!(stopped, Err(SessionError::SinkAborted(-1)));
    assert_eq!(stopped.unwrap_err().kind(), ErrorKind::SinkAbort);
    assert_eq!(session.state(), RestoreState::Closed);
    assert_eq!(session.next_segment(), None);
    assert_eq!(session.offset(), 10);
    assert!(!session.is_exhausted());
    assert_eq!(session.segment_done(Ok(0)), Err(SessionError::NoArchiveOpen));
}

#[test]
fn any_status_but_zero_stops_the_restore() {
    for status in [1, -1, 2, i32::MIN, i32::MAX] {
        let mut session = connected();
        assert_eq!(session.open_archive(name(), Ok(vec![data(10), hole(20)])), Ok(30));
        assert_eq!(session.segment_done(Ok(status)), Err(SessionError::SinkAborted(status)));
        assert_eq!(session.next_segment(), None);
        assert_eq!(session.offset(), 0);
    }
}

#[test]
fn failed_download_stops_the_restore() {
    let mut session = connected();
    assert_eq!(session.open_archive(name(), Ok(vec![data(10), hole(20)])), Ok(30));
    let failed = session.segment_done(Err(String::from("chunk missing")));
    assert_eq!(failed, Err(SessionError::Transfer(String::from("chunk missing"))));
    assert_eq!(failed.unwrap_err().kind(), ErrorKind::Transfer);
    assert_eq!(session.state(), RestoreState::Closed);
    assert_eq!(session.next_segment(), None);
}

#[test]
fn restore_needs_a_connection() {
    let mut session = ProxmoxRestore::new(setup());
    assert_eq!(session.state(), RestoreState::Created);
    assert_eq!(session.check_open(&name()), Err(SessionError::NotConnected));
    assert_eq!(session.open_archive(name(), Ok(vec![data(1)])), Err(SessionError::NotConnected));
    assert_eq!(session.next_segment(), None);
    assert_eq!(session.segment_done(Ok(0)), Err(SessionError::NoArchiveOpen));
    let failed = session.connect(Err(String::from("no route")));
    assert_eq!(failed, Err(SessionError::Connection(String::from("no route"))));
    assert_eq!(session.state(), RestoreState::Created);
    assert_eq!(session.connect(Ok(())), Ok(()));
    assert_eq!(session.state(), RestoreState::Connected);
    assert_eq!(session.connect(Ok(())), Err(SessionError::AlreadyConnected));
    assert_eq!(session.setup(), &setup());
}

#[test]
fn restore_needs_an_archive_name() {
    let mut session = connected();
    assert_eq!(session.check_open(&None), Err(SessionError::MissingArchiveName));
    assert_eq!(session.open_archive(None, Ok(vec![data(1)])), Err(SessionError::MissingArchiveName));
    assert_eq!(session.state(), RestoreState::Connected);
    let mut unconnected = ProxmoxRestore::new(setup());
    assert_eq!(unconnected.open_archive(None, Ok(vec![])), Err(SessionError::MissingArchiveName));
}

#[test]
fn one_archive_at_a_time() {
    let mut session = connected();
    assert_eq!(session.open_archive(name(), Ok(vec![data(10), hole(20)])), Ok(30));
    assert_eq!(session.check_open(&name()), Err(SessionError::ArchiveAlreadyOpen));
    assert_eq!(
        session.open_archive(Some(String::from("other")), Ok(vec![data(1)])),
        Err(SessionError::ArchiveAlreadyOpen)
    );
    assert_eq!(session.archive_name().as_deref(), Some("drive-scsi0.img.fidx"));
    assert_eq!(session.segment_done(Ok(0)), Ok(true));
    assert_eq!(session.segment_done(Ok(0)), Ok(false));
    // the next archive starts from offset zero
    assert_eq!(session.open_archive(Some(String::from("drive-scsi1.img.fidx")), Ok(vec![hole(7)])), Ok(7));
    assert_eq!(session.archive_name().as_deref(), Some("drive-scsi1.img.fidx"));
    assert_eq!(session.offset(), 0);
    assert_eq!(session.next_segment(), Some(Segment { offset: 0, len: 7, sparse: true }));
    assert_eq!(session.segment_done(Ok(3)), Err(SessionError::SinkAborted(3)));
    assert_eq!(session.open_archive(name(), Ok(vec![data(2)])), Ok(2));
    assert_eq!(session.state(), RestoreState::Open);
}

#[test]
fn empty_archive_is_exhausted_at_once() {
    let mut session = connected();
    assert_eq!(session.open_archive(name(), Ok(vec![])), Ok(0));
    assert_eq!(session.state(), RestoreState::Exhausted);
    assert!(session.is_exhausted());
    assert_eq!(session.next_segment(), None);
    assert_eq!(session.offset(), 0);
    assert_eq!(session.open_archive(name(), Ok(vec![data(0), hole(0)])), Ok(0));
    assert!(session.is_exhausted());
}

#[test]
fn failed_listing_opens_nothing() {
    let mut session = connected();
    assert_eq!(
        session.open_archive(name(), Err(String::from("no such archive"))),
        Err(SessionError::Transfer(String::from("no such archive")))
    );
    assert_eq!(session.state(), RestoreState::Connected);
    assert_eq!(session.archive_name(), &None);
    assert_eq!(
        session.open_archive(name(), Ok(vec![data(u64::MAX), hole(1)])),
        Err(SessionError::ArchiveTooLarge)
    );
    assert_eq!(session.state(), RestoreState::Connected);
    assert_eq!(session.open_archive(name(), Ok(vec![data(1)])), Ok(1));
}
