//! The image streams of a backup session, their totals, and the manifest
//! that lists them.

use vstd::prelude::*;

verus! {

/// Number of stream ids a session can hand out.
pub const MAX_STREAMS: usize = 256;

/// One named image within a backup session.
#[derive(Clone, Debug, PartialEq, Eq)]
pub struct Stream {
    /// The id under which writes address this stream.
    pub id: u8,
    pub name: String,
    /// Declared size of the image in bytes.
    pub size: u64,
    pub incremental: bool,
    /// Whether the stream still takes writes.
    pub open: bool,
    /// Bytes of all writes this stream has accepted.
    pub accepted_bytes: u64,
    /// Bytes of the writes the store has confirmed.
    pub bytes_written: u64,
    /// Those of the confirmed bytes that the store knew already and that
    /// were not sent.
    pub bytes_reused: u64,
    /// What the store reported when an upload of this stream first failed.
    pub failure: Option<String>,
}

/// The byte totals of a stream.
#[derive(Clone, Copy, Debug, PartialEq, Eq, Structural)]
pub struct StreamTotals {
    /// Declared size of the image.
    pub size: u64,
    /// Bytes of the confirmed writes.
    pub bytes_written: u64,
    /// Those of the confirmed bytes that were not sent because the store
    /// knew them.
    pub bytes_reused: u64,
}

/// What `close_image` answers when it does not fail.
#[derive(Clone, Copy, Debug, PartialEq, Eq, Structural)]
pub enum CloseStatus {
    /// The stream is closed; these are its totals.
    Closed(StreamTotals),
    /// Writes of the stream still wait for the store and the stream stays
    /// open: the caller waits for an upload to finish and closes again.
    Pending,
}

/// A configuration blob that has been uploaded.
#[derive(Clone, Debug, PartialEq, Eq)]
pub struct Blob {
    pub name: String,
    pub size: u64,
}

/// One line of the manifest: a stream with its totals.
#[derive(Clone, Debug, PartialEq, Eq)]
pub struct ManifestEntry {
    pub name: String,
    pub size: u64,
    pub bytes_written: u64,
    pub bytes_reused: u64,
}

/// What `finish` commits: the streams with their totals, and the blobs.
#[derive(Clone, Debug, PartialEq, Eq)]
pub struct Manifest {
    pub images: Vec<ManifestEntry>,
    pub blobs: Vec<Blob>,
}

/// Whether a stream in `streams` carries the name `name`.
pub open spec fn name_in_use(streams: Seq<Stream>, name: Seq<char>) -> bool {
    exists|i: int| 0 <= i < streams.len() && (#[trigger] streams[i]).name@ == name
}

/// Whether a stream in `streams` is open.
pub open spec fn any_open(streams: Seq<Stream>) -> bool {
    exists|i: int| 0 <= i < streams.len() && (#[trigger] streams[i]).open
}

/// A stream after the store has reported on one of its uploads of `len`
/// bytes. A confirmed upload adds to the written bytes, and to the reused
/// bytes if the store knew the chunk; a failed one is recorded unless an
/// earlier failure is.
pub open spec fn settled(stream: Stream, len: u64, outcome: Result<bool, String>) -> Stream {
    match outcome {
        Ok(reused) => Stream {
            bytes_written: (stream.bytes_written + len) as u64,
            bytes_reused: if reused {
                (stream.bytes_reused + len) as u64
            } else {
                stream.bytes_reused
            },
            ..stream
        },
        Err(detail) => Stream {
            failure: if stream.failure is None {
                Some(detail)
            } else {
                stream.failure
            },
            ..stream
        },
    }
}

/// The manifest line of a stream.
pub open spec fn entry_of(stream: Stream) -> ManifestEntry {
    ManifestEntry {
        name: stream.name,
        size: stream.size,
        bytes_written: stream.bytes_written,
        bytes_reused: stream.bytes_reused,
    }
}

} // verus!
