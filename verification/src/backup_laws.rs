//! What holds of every backup session, proved from the invariant of the
//! session and the rules by which its operations fail.

use crate::backup::{BackupTaskView, SessionState};
use crate::errors::{ErrorKind, SessionError};
use crate::pipeline::{accepted_sum, has_pending, lemma_pending_bytes_none, pending_bytes};
use crate::stream::{any_open, name_in_use, Stream, MAX_STREAMS};
use vstd::prelude::*;

verus! {

/// Stream ids are unique and strictly increasing in the order of
/// registration: of two streams of a session, the one registered later has
/// the greater id.
pub proof fn lemma_stream_ids_increase(task: BackupTaskView, earlier: int, later: int)
    requires
        task.wf(),
        0 <= earlier < later < task.streams.len(),
    ensures
        task.streams[earlier].id < task.streams[later].id,
{
    assert(task.streams[earlier].id == earlier);
    assert(task.streams[later].id == later);
}

/// A registration that is not refused gives the new stream an id greater
/// than every id handed out before, whether or not those streams are still
/// open: no id is used twice.
pub proof fn lemma_registration_takes_fresh_id(task: BackupTaskView, name: Seq<char>, known: int)
    requires
        task.wf(),
        task.register_error(name) is None,
        0 <= known < task.streams.len(),
    ensures
        task.streams.len() < MAX_STREAMS,
        task.streams[known].id < task.streams.len(),
        task.streams[known].name@ != name,
{
    assert(task.streams[known].id == known);
    if task.streams[known].name@ == name {
        assert(name_in_use(task.streams, name));
    }
}

/// A write to a stream id that is not currently open fails with a state
/// error, whatever its offset and length, unless the session was aborted
/// (then it fails with the abort error).
pub proof fn lemma_write_needs_open_stream(
    task: BackupTaskView,
    dev_id: u8,
    offset: u64,
    len: nat,
)
    requires
        task.wf(),
        !task.aborted(),
        dev_id >= task.streams.len() || !task.streams[dev_id as int].open,
    ensures
        task.write_error(dev_id, offset, len) is Some,
        task.write_error(dev_id, offset, len)->0.kind_spec() == ErrorKind::State,
{
}

/// A write that reaches beyond the declared size of its stream fails.
pub proof fn lemma_write_beyond_size_fails(task: BackupTaskView, dev_id: u8, offset: u64, len: nat)
    requires
        task.wf(),
        dev_id < task.streams.len(),
        offset + len > task.streams[dev_id as int].size,
    ensures
        task.write_error(dev_id, offset, len) is Some,
        task.active_error() is None && task.streams[dev_id as int].open ==> task.write_error(
            dev_id,
            offset,
            len,
        ) == Some(SessionError::WriteOutOfRange),
{
}

/// A write that stays within the declared size of an open stream of a
/// working session is not refused; one that ends exactly at the size is
/// within it. The only other bar is a counter at the end of its range: the
/// bytes the stream has accepted, or the tickets of the session.
pub proof fn lemma_write_within_size_passes(task: BackupTaskView, dev_id: u8, offset: u64, len: nat)
    requires
        task.wf(),
        task.active_error() is None,
        dev_id < task.streams.len(),
        task.streams[dev_id as int].open,
        offset + len <= task.streams[dev_id as int].size,
        task.streams[dev_id as int].accepted_bytes + len <= u64::MAX,
        task.next_ticket < u64::MAX,
    ensures
        task.write_error(dev_id, offset, len) is None,
{
}

/// Once no write of a stream waits for the store, and none of its uploads
/// failed and the session was not aborted, the written bytes of the stream
/// are the sum of the lengths of all the writes it has accepted. These are
/// the totals that `close_image` reports when it closes the stream; while a
/// write waits, it answers `Pending` and leaves the stream open.
pub proof fn lemma_flushed_stream_has_all_bytes(task: BackupTaskView, dev_id: u8)
    requires
        task.wf(),
        task.close_error(dev_id) is None,
        !has_pending(task.pending, dev_id),
    ensures
        pending_bytes(task.pending, dev_id) == 0,
        task.totals(dev_id).bytes_written == accepted_sum(task.accepted, dev_id),
{
    lemma_pending_bytes_none(task.pending, dev_id);
    assert(task.stream_ok(task.streams[dev_id as int]));
}

/// A closed stream has every byte written that it has accepted, whatever
/// happens to the session afterwards.
pub proof fn lemma_closed_stream_has_all_bytes(task: BackupTaskView, dev_id: u8)
    requires
        task.wf(),
        dev_id < task.streams.len(),
        !task.streams[dev_id as int].open,
    ensures
        task.streams[dev_id as int].failure is None,
        task.totals(dev_id).bytes_written == accepted_sum(task.accepted, dev_id),
{
    assert(task.stream_ok(task.streams[dev_id as int]));
}

/// A closed stream has no write waiting for the store.
pub proof fn lemma_closed_stream_is_flushed(task: BackupTaskView, dev_id: u8)
    requires
        task.wf(),
        dev_id < task.streams.len(),
        !task.streams[dev_id as int].open,
    ensures
        !has_pending(task.pending, dev_id),
{
    if has_pending(task.pending, dev_id) {
        let k = choose|k: int|
            0 <= k < task.pending.len() && (#[trigger] task.pending[k]).stream_id == dev_id;
        assert(task.pending_ok(task.pending[k]));
    }
}

/// When every stream is closed, no write waits for the store: `finish` need
/// not ask for more than that the streams be closed.
pub proof fn lemma_all_closed_means_flushed(task: BackupTaskView)
    requires
        task.wf(),
        !any_open(task.streams),
    ensures
        task.pending.len() == 0,
{
    if task.pending.len() > 0 {
        assert(task.pending_ok(task.pending[0]));
        assert(task.streams[task.pending[0].stream_id as int].open);
    }
}

/// `finish` is refused while a registered stream is open.
pub proof fn lemma_finish_needs_closed_streams(task: BackupTaskView, dev_id: u8)
    requires
        task.wf(),
        dev_id < task.streams.len(),
        task.streams[dev_id as int].open,
    ensures
        task.prepare_error() is Some,
        task.finish_error() is Some,
{
    assert(any_open(task.streams));
}

/// `finish` is not refused exactly when the session was not aborted, has
/// every stream closed, and is connected or prepared for the commit. No
/// write waits for the store then.
pub proof fn lemma_finish_condition(task: BackupTaskView)
    requires
        task.wf(),
    ensures
        task.finish_error() is None <==> !task.aborted() && !any_open(task.streams) && (task.state
            == SessionState::Connected || task.state == SessionState::Finishing),
        task.finish_error() is None ==> task.pending.len() == 0,
{
    if !any_open(task.streams) {
        lemma_all_closed_means_flushed(task);
    }
}

/// A finished session refuses to be finished again.
pub proof fn lemma_finish_only_once(task: BackupTaskView)
    requires
        task.wf(),
        task.state == SessionState::Finished,
    ensures
        task.finish_error() is Some,
        task.prepare_error() is Some,
        !task.aborted() ==> task.finish_error() == Some(SessionError::AlreadyFinished),
{
}

/// While one caller commits the manifest, no other gets to prepare a
/// commit of its own.
pub proof fn lemma_one_commit_at_a_time(task: BackupTaskView)
    requires
        task.wf(),
        task.state == SessionState::Finishing,
    ensures
        task.prepare_error() is Some,
        !task.aborted() ==> task.prepare_error() == Some(SessionError::AlreadyFinished),
{
}

/// Once the session is aborted, writing, closing, registering and finishing
/// fail with the abort error, whatever their arguments and whatever the
/// uploads on their way have reported.
pub proof fn lemma_abort_stops_everything(
    task: BackupTaskView,
    dev_id: u8,
    offset: u64,
    len: nat,
    name: Seq<char>,
)
    requires
        task.aborted(),
    ensures
        task.active_error() == Some(SessionError::Aborted(task.abort_reason->0)),
        task.active_error()->0.kind_spec() == ErrorKind::Abort,
        task.write_error(dev_id, offset, len) == task.active_error(),
        task.close_error(dev_id) == task.active_error(),
        task.prepare_error() == task.active_error(),
        task.finish_error() == task.active_error(),
        task.register_error(name) == task.active_error(),
        task.connect_error() == task.active_error(),
{
}

/// Never do more writes wait for the store than the session has upload
/// slots: a write that finds every slot taken is answered `Busy` and left
/// out of the queue.
pub proof fn lemma_outstanding_is_bounded(task: BackupTaskView)
    requires
        task.wf(),
    ensures
        task.pending.len() <= task.upload_slots,
        task.upload_slots >= 1,
{
}

/// The bytes a stream reports never exceed what it has accepted, and the
/// reused bytes are part of the written ones.
pub proof fn lemma_totals_within_accepted(task: BackupTaskView, dev_id: u8)
    requires
        task.wf(),
        dev_id < task.streams.len(),
    ensures
        task.streams[dev_id as int].bytes_reused <= task.streams[dev_id as int].bytes_written
            <= task.streams[dev_id as int].accepted_bytes,
{
    let stream: Stream = task.streams[dev_id as int];
    assert(task.stream_ok(stream));
}

} // verus!
