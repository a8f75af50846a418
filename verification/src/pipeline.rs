//! The upload pipeline: the writes a session has accepted and the store has
//! not confirmed, and the arithmetic of their bytes.
//!
//! The pipeline is one queue for the whole session, in the order of
//! acceptance; the queue of a stream is what the queue holds for that stream.
//! Its length is bounded by the upload slots of the session.

use vstd::prelude::*;

verus! {

/// Number of writes a session lets wait for the store at once, unless the
/// caller chooses another bound.
pub const DEFAULT_UPLOAD_SLOTS: usize = 16;

/// A write that the session has accepted and the store has not confirmed.
#[derive(Clone, Debug, PartialEq, Eq)]
pub struct PendingWrite {
    /// Names this write when the store reports on it.
    pub ticket: u64,
    pub stream_id: u8,
    pub offset: u64,
    pub len: u64,
    /// The bytes to upload, until an uploader has taken them.
    pub payload: Option<Vec<u8>>,
}

/// A write handed to an uploader.
#[derive(Clone, Debug, PartialEq, Eq)]
pub struct UploadJob {
    pub ticket: u64,
    pub stream_id: u8,
    pub offset: u64,
    pub payload: Vec<u8>,
}

/// What `write_data` answers when it does not fail.
#[derive(Clone, Copy, Debug, PartialEq, Eq, Structural)]
pub enum WriteStatus {
    /// The bytes have been copied and wait for upload under this ticket.
    Accepted { ticket: u64 },
    /// Every upload slot is taken and nothing was copied: the caller waits
    /// for an upload to finish and writes again.
    Busy,
}

/// The record of a write that a session has accepted.
pub struct AcceptedWrite {
    pub stream_id: u8,
    pub len: u64,
}

/// Whether a write in `pending` belongs to stream `id`.
pub open spec fn has_pending(pending: Seq<PendingWrite>, id: u8) -> bool {
    exists|k: int| 0 <= k < pending.len() && (#[trigger] pending[k]).stream_id == id
}

/// What one pending write adds to the waiting bytes of stream `id`.
pub open spec fn bytes_for(write: PendingWrite, id: u8) -> nat {
    if write.stream_id == id {
        write.len as nat
    } else {
        0
    }
}

/// The bytes of the writes in `pending` that belong to stream `id`.
pub open spec fn pending_bytes(pending: Seq<PendingWrite>, id: u8) -> nat
    decreases pending.len(),
{
    if pending.len() == 0 {
        0
    } else {
        pending_bytes(pending.drop_last(), id) + bytes_for(pending.last(), id)
    }
}

/// The sum of the lengths of the writes in `accepted` that went to stream
/// `id`.
pub open spec fn accepted_sum(accepted: Seq<AcceptedWrite>, id: u8) -> nat
    decreases accepted.len(),
{
    if accepted.len() == 0 {
        0
    } else {
        accepted_sum(accepted.drop_last(), id) + if accepted.last().stream_id == id {
            accepted.last().len as nat
        } else {
            0
        }
    }
}

/// A write accepted last counts with its length for its own stream and not
/// at all for the others.
pub proof fn lemma_pending_bytes_push(pending: Seq<PendingWrite>, write: PendingWrite, id: u8)
    ensures
        pending_bytes(pending.push(write), id) == pending_bytes(pending, id) + bytes_for(
            write,
            id,
        ),
{
    assert(pending.push(write).drop_last() =~= pending);
}

/// Taking a write out of the queue takes its length off the waiting bytes of
/// its stream.
pub proof fn lemma_pending_bytes_remove(pending: Seq<PendingWrite>, at: int, id: u8)
    requires
        0 <= at < pending.len(),
    ensures
        pending_bytes(pending.remove(at), id) + bytes_for(pending[at], id) == pending_bytes(
            pending,
            id,
        ),
    decreases pending.len(),
{
    if at == pending.len() - 1 {
        assert(pending.remove(at) =~= pending.drop_last());
    } else {
        lemma_pending_bytes_remove(pending.drop_last(), at, id);
        assert(pending.remove(at).drop_last() =~= pending.drop_last().remove(at));
        assert(pending.remove(at).last() == pending.last());
    }
}

/// Replacing a write by one of the same stream and length leaves the waiting
/// bytes of every stream as they were.
pub proof fn lemma_pending_bytes_update(
    pending: Seq<PendingWrite>,
    at: int,
    write: PendingWrite,
    id: u8,
)
    requires
        0 <= at < pending.len(),
        write.stream_id == pending[at].stream_id,
        write.len == pending[at].len,
    ensures
        pending_bytes(pending.update(at, write), id) == pending_bytes(pending, id),
    decreases pending.len(),
{
    if at == pending.len() - 1 {
        assert(pending.update(at, write).drop_last() =~= pending.drop_last());
    } else {
        lemma_pending_bytes_update(pending.drop_last(), at, write, id);
        assert(pending.update(at, write).drop_last() =~= pending.drop_last().update(at, write));
    }
}

/// A stream without a pending write has no waiting bytes.
pub proof fn lemma_pending_bytes_none(pending: Seq<PendingWrite>, id: u8)
    requires
        !has_pending(pending, id),
    ensures
        pending_bytes(pending, id) == 0,
    decreases pending.len(),
{
    if pending.len() > 0 {
        assert(pending.last() == pending[pending.len() - 1]);
        assert forall|k: int| 0 <= k < pending.drop_last().len() implies (
        #[trigger] pending.drop_last()[k]).stream_id != id by {
            assert(pending.drop_last()[k] == pending[k]);
        }
        lemma_pending_bytes_none(pending.drop_last(), id);
    }
}

/// A stream to which no accepted write went has accepted no bytes.
pub proof fn lemma_accepted_sum_none(accepted: Seq<AcceptedWrite>, id: u8)
    requires
        forall|k: int| 0 <= k < accepted.len() ==> (#[trigger] accepted[k]).stream_id != id,
    ensures
        accepted_sum(accepted, id) == 0,
    decreases accepted.len(),
{
    if accepted.len() > 0 {
        assert(accepted.last() == accepted[accepted.len() - 1]);
        assert forall|k: int| 0 <= k < accepted.drop_last().len() implies (
        #[trigger] accepted.drop_last()[k]).stream_id != id by {
            assert(accepted.drop_last()[k] == accepted[k]);
        }
        lemma_accepted_sum_none(accepted.drop_last(), id);
    }
}

} // verus!
